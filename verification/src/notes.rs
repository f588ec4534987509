//! The set of held notes: ordering, counting and removal.

use vstd::prelude::*;

verus! {

/// How many times `note` occurs in `notes`.
pub open spec fn occurrences(notes: Seq<u8>, note: u8) -> nat
    decreases notes.len(),
{
    if notes.len() == 0 {
        0
    } else {
        occurrences(notes.drop_last(), note) + if notes.last() == note {
            1nat
        } else {
            0nat
        }
    }
}

/// Whether `a` and `b` hold the same notes, each as often.
pub open spec fn same_notes(a: Seq<u8>, b: Seq<u8>) -> bool {
    forall|note: u8| #[trigger] occurrences(a, note) == occurrences(b, note)
}

/// Whether `notes` is in ascending order.
pub open spec fn ascending(notes: Seq<u8>) -> bool {
    forall|i: int, j: int| 0 <= i <= j < notes.len() ==> notes[i] <= notes[j]
}

/// Whether `notes` is in strictly ascending order: ascending, with no
/// note twice.
pub open spec fn strictly_ascending(notes: Seq<u8>) -> bool {
    forall|i: int, j: int| 0 <= i < j < notes.len() ==> notes[i] < notes[j]
}

/// `notes` with every occurrence of `note` taken out, order kept.
pub open spec fn without(notes: Seq<u8>, note: u8) -> Seq<u8>
    decreases notes.len(),
{
    if notes.len() == 0 {
        notes
    } else if notes.last() == note {
        without(notes.drop_last(), note)
    } else {
        without(notes.drop_last(), note).push(notes.last())
    }
}

/// Appending one note adds one occurrence of it.
pub proof fn lemma_occurrences_push(notes: Seq<u8>, added: u8, note: u8)
    ensures
        occurrences(notes.push(added), note) == occurrences(notes, note) + if added == note {
            1nat
        } else {
            0nat
        },
{
    assert(notes.push(added).drop_last() =~= notes);
}

/// Inserting one note anywhere adds one occurrence of it.
pub proof fn lemma_occurrences_insert(notes: Seq<u8>, pos: int, added: u8, note: u8)
    requires
        0 <= pos <= notes.len(),
    ensures
        occurrences(notes.insert(pos, added), note) == occurrences(notes, note) + if added == note {
            1nat
        } else {
            0nat
        },
    decreases notes.len(),
{
    if pos == notes.len() {
        assert(notes.insert(pos, added) =~= notes.push(added));
        lemma_occurrences_push(notes, added, note);
    } else {
        let shorter = notes.drop_last();
        lemma_occurrences_insert(shorter, pos, added, note);
        assert(notes.insert(pos, added).drop_last() =~= shorter.insert(pos, added));
        assert(notes.insert(pos, added).last() == notes.last());
    }
}

/// The first `j + 1` notes are the first `j` and note `j`.
pub proof fn lemma_take_next(notes: Seq<u8>, j: int)
    requires
        0 <= j < notes.len(),
    ensures
        notes.take(j + 1) =~= notes.take(j).push(notes[j]),
{
}

/// Whether `notes` holds `note`.
pub fn holds_note(notes: &Vec<u8>, note: u8) -> (held: bool)
    ensures
        held == notes@.contains(note),
{
    let mut i: usize = 0;
    while i < notes.len()
        invariant
            i <= notes.len(),
            forall|k: int| 0 <= k < i ==> notes@[k] != note,
        decreases notes.len() - i,
    {
        if notes[i] == note {
            return true;
        }
        i = i + 1;
    }
    false
}

/// `notes` in ascending order.
pub fn sorted_notes(notes: &Vec<u8>) -> (sorted: Vec<u8>)
    ensures
        ascending(sorted@),
        same_notes(sorted@, notes@),
{
    let mut sorted: Vec<u8> = Vec::new();
    let mut j: usize = 0;
    while j < notes.len()
        invariant
            j <= notes.len(),
            ascending(sorted@),
            forall|note: u8| #[trigger] occurrences(sorted@, note) == occurrences(notes@.take(j as int), note),
        decreases notes.len() - j,
    {
        let added = notes[j];
        let mut pos: usize = 0;
        while pos < sorted.len() && sorted[pos] <= added
            invariant
                pos <= sorted.len(),
                forall|k: int| 0 <= k < pos ==> sorted@[k] <= added,
            decreases sorted.len() - pos,
        {
            pos = pos + 1;
        }
        let ghost before = sorted@;
        sorted.insert(pos, added);
        assert(ascending(sorted@)) by {
            assert forall|a: int, b: int| 0 <= a <= b < sorted@.len() implies sorted@[a] <= sorted@[b] by {
                if a < pos as int && b > pos as int {
                    assert(before[a] <= before[b - 1]);
                } else if a == pos as int && b > pos as int {
                    assert(before[b - 1] >= before[pos as int]);
                } else if a > pos as int {
                    assert(before[a - 1] <= before[b - 1]);
                }
            }
        }
        assert forall|note: u8| #[trigger] occurrences(sorted@, note) == occurrences(notes@.take(j + 1), note) by {
            lemma_occurrences_insert(before, pos as int, added, note);
            lemma_take_next(notes@, j as int);
            lemma_occurrences_push(notes@.take(j as int), added, note);
        }
        j = j + 1;
    }
    assert(notes@.take(notes@.len() as int) =~= notes@);
    sorted
}

/// `notes` with every occurrence of `note` taken out, order kept.
pub fn notes_without(notes: &Vec<u8>, note: u8) -> (kept: Vec<u8>)
    ensures
        kept@ == without(notes@, note),
{
    let mut kept: Vec<u8> = Vec::new();
    let mut j: usize = 0;
    while j < notes.len()
        invariant
            j <= notes.len(),
            kept@ == without(notes@.take(j as int), note),
        decreases notes.len() - j,
    {
        proof {
            lemma_take_next(notes@, j as int);
            assert(notes@.take(j + 1).drop_last() =~= notes@.take(j as int));
        }
        if notes[j] != note {
            kept.push(notes[j]);
        }
        j = j + 1;
    }
    assert(notes@.take(notes@.len() as int) =~= notes@);
    kept
}

} // verus!
