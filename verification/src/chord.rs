//! Recognition of the chord formed by the notes that are held down.
//!
//! A chord is recognised from the set of pitch classes (note number
//! modulo 12) that the held notes cover: the set must be exactly a root
//! plus the intervals of one chord shape. Roots are tried from C upwards,
//! and for each root the shapes in the order of [`shape_has`].

use crate::text::optional_text;
use vstd::prelude::*;

verus! {

/// The number of chord shapes that are recognised.
pub const SHAPE_COUNT: usize = 7;

/// Whether chord shape `shape` holds the interval `interval` (in
/// semitones above the root). The shapes, in search order: major triad,
/// minor triad, diminished triad, augmented triad, dominant seventh,
/// major seventh, minor seventh.
pub open spec fn shape_has(shape: int, interval: int) -> bool {
    if shape == 0 {
        interval == 0 || interval == 4 || interval == 7
    } else if shape == 1 {
        interval == 0 || interval == 3 || interval == 7
    } else if shape == 2 {
        interval == 0 || interval == 3 || interval == 6
    } else if shape == 3 {
        interval == 0 || interval == 4 || interval == 8
    } else if shape == 4 {
        interval == 0 || interval == 4 || interval == 7 || interval == 10
    } else if shape == 5 {
        interval == 0 || interval == 4 || interval == 7 || interval == 11
    } else if shape == 6 {
        interval == 0 || interval == 3 || interval == 7 || interval == 10
    } else {
        false
    }
}

/// The suffix that names chord shape `shape` after its root.
pub open spec fn shape_suffix(shape: int) -> Seq<char> {
    if shape == 0 {
        ""@
    } else if shape == 1 {
        "m"@
    } else if shape == 2 {
        "dim"@
    } else if shape == 3 {
        "aug"@
    } else if shape == 4 {
        "7"@
    } else if shape == 5 {
        "maj7"@
    } else {
        "m7"@
    }
}

/// The name of pitch class `pc` (0 is C), with sharps.
pub open spec fn pitch_class_name(pc: int) -> Seq<char> {
    if pc == 0 {
        "C"@
    } else if pc == 1 {
        "C#"@
    } else if pc == 2 {
        "D"@
    } else if pc == 3 {
        "D#"@
    } else if pc == 4 {
        "E"@
    } else if pc == 5 {
        "F"@
    } else if pc == 6 {
        "F#"@
    } else if pc == 7 {
        "G"@
    } else if pc == 8 {
        "G#"@
    } else if pc == 9 {
        "A"@
    } else if pc == 10 {
        "A#"@
    } else {
        "B"@
    }
}

/// Whether some note of `notes` has pitch class `pc`.
pub open spec fn covers_pitch_class(notes: Seq<u8>, pc: int) -> bool {
    exists|i: int| 0 <= i < notes.len() && #[trigger] (notes[i] % 12) == pc
}

/// Whether the pitch classes of `notes` are exactly those of chord shape
/// `shape` built on `root`.
pub open spec fn forms_chord(notes: Seq<u8>, root: int, shape: int) -> bool {
    forall|pc: int|
        0 <= pc < 12 ==> (#[trigger] covers_pitch_class(notes, pc) <==> shape_has(shape, (pc - root) % 12))
}

/// The first (root, shape) pair, in search order from position `k`
/// (position `k` stands for root `k / 7` and shape `k % 7`), whose chord
/// the notes form.
pub open spec fn first_chord_from(notes: Seq<u8>, k: int) -> Option<(int, int)>
    decreases 84 - k,
{
    if k < 0 || k >= 84 {
        None
    } else if forms_chord(notes, k / 7, k % 7) {
        Some((k / 7, k % 7))
    } else {
        first_chord_from(notes, k + 1)
    }
}

/// The name of the chord that `notes` form, if they form one.
pub open spec fn chord_of(notes: Seq<u8>) -> Option<Seq<char>> {
    match first_chord_from(notes, 0) {
        Some((root, shape)) => Some(pitch_class_name(root) + shape_suffix(shape)),
        None => None,
    }
}

fn shape_contains(shape: usize, interval: usize) -> (r: bool)
    ensures
        r == shape_has(shape as int, interval as int),
{
    if shape == 0 {
        interval == 0 || interval == 4 || interval == 7
    } else if shape == 1 {
        interval == 0 || interval == 3 || interval == 7
    } else if shape == 2 {
        interval == 0 || interval == 3 || interval == 6
    } else if shape == 3 {
        interval == 0 || interval == 4 || interval == 8
    } else if shape == 4 {
        interval == 0 || interval == 4 || interval == 7 || interval == 10
    } else if shape == 5 {
        interval == 0 || interval == 4 || interval == 7 || interval == 11
    } else if shape == 6 {
        interval == 0 || interval == 3 || interval == 7 || interval == 10
    } else {
        false
    }
}

fn chord_name(root: usize, shape: usize) -> (name: String)
    requires
        root < 12,
        shape < SHAPE_COUNT,
    ensures
        name@ == pitch_class_name(root as int) + shape_suffix(shape as int),
{
    let mut name = if root == 0 {
        String::from_str("C")
    } else if root == 1 {
        String::from_str("C#")
    } else if root == 2 {
        String::from_str("D")
    } else if root == 3 {
        String::from_str("D#")
    } else if root == 4 {
        String::from_str("E")
    } else if root == 5 {
        String::from_str("F")
    } else if root == 6 {
        String::from_str("F#")
    } else if root == 7 {
        String::from_str("G")
    } else if root == 8 {
        String::from_str("G#")
    } else if root == 9 {
        String::from_str("A")
    } else if root == 10 {
        String::from_str("A#")
    } else {
        String::from_str("B")
    };
    if shape == 0 {
        name.append("");
    } else if shape == 1 {
        name.append("m");
    } else if shape == 2 {
        name.append("dim");
    } else if shape == 3 {
        name.append("aug");
    } else if shape == 4 {
        name.append("7");
    } else if shape == 5 {
        name.append("maj7");
    } else {
        name.append("m7");
    }
    name
}

/// For each pitch class, whether some note covers it.
fn pitch_class_cover(notes: &Vec<u8>) -> (cover: Vec<bool>)
    ensures
        cover@.len() == 12,
        forall|pc: int| 0 <= pc < 12 ==> cover@[pc] == covers_pitch_class(notes@, pc),
{
    let mut cover: Vec<bool> = Vec::new();
    let mut pc: usize = 0;
    while pc < 12
        invariant
            pc <= 12,
            cover@.len() == pc,
            forall|q: int| 0 <= q < pc ==> !cover@[q],
        decreases 12 - pc,
    {
        cover.push(false);
        pc = pc + 1;
    }
    let mut j: usize = 0;
    while j < notes.len()
        invariant
            j <= notes.len(),
            cover@.len() == 12,
            forall|q: int|
                0 <= q < 12 ==> (cover@[q] <==> exists|i: int| 0 <= i < j && #[trigger] (notes@[i] % 12) == q),
        decreases notes.len() - j,
    {
        let class: usize = (notes[j] % 12) as usize;
        cover.set(class, true);
        assert forall|q: int| 0 <= q < 12 implies (cover@[q] <==> exists|i: int|
            0 <= i < j + 1 && #[trigger] (notes@[i] % 12) == q) by {
            if q == class as int {
                assert(notes@[j as int] % 12 == q);
            } else {
                if exists|i: int| 0 <= i < j + 1 && #[trigger] (notes@[i] % 12) == q {
                    let i = choose|i: int| 0 <= i < j + 1 && #[trigger] (notes@[i] % 12) == q;
                    assert(i != j);
                }
            }
        }
        j = j + 1;
    }
    cover
}

/// Whether the covered pitch classes are exactly chord `shape` on `root`.
fn cover_forms_chord(cover: &Vec<bool>, root: usize, shape: usize, Ghost(notes): Ghost<Seq<u8>>) -> (r: bool)
    requires
        root < 12,
        cover@.len() == 12,
        forall|pc: int| 0 <= pc < 12 ==> cover@[pc] == covers_pitch_class(notes, pc),
    ensures
        r == forms_chord(notes, root as int, shape as int),
{
    let mut pc: usize = 0;
    while pc < 12
        invariant
            root < 12,
            pc <= 12,
            cover@.len() == 12,
            forall|q: int| 0 <= q < 12 ==> cover@[q] == covers_pitch_class(notes, q),
            forall|q: int|
                0 <= q < pc ==> (#[trigger] covers_pitch_class(notes, q) <==> shape_has(shape as int, (q - root) % 12)),
        decreases 12 - pc,
    {
        let interval: usize = (pc + 12 - root) % 12;
        assert(interval as int == (pc - root) % 12);
        if cover[pc] != shape_contains(shape, interval) {
            assert(cover@[pc as int] == covers_pitch_class(notes, pc as int));
            return false;
        }
        pc = pc + 1;
    }
    true
}

/// The name of the chord that the held notes form, if any: for the notes
/// 60, 64 and 67 (C, E, G) it is `"C"`.
pub fn detect_chord(notes: &Vec<u8>) -> (chord: Option<String>)
    ensures
        optional_text(chord) == chord_of(notes@),
{
    let cover = pitch_class_cover(notes);
    let mut k: usize = 0;
    while k < 84
        invariant
            k <= 84,
            cover@.len() == 12,
            forall|pc: int| 0 <= pc < 12 ==> cover@[pc] == covers_pitch_class(notes@, pc),
            first_chord_from(notes@, 0) == first_chord_from(notes@, k as int),
        decreases 84 - k,
    {
        let root: usize = k / 7;
        let shape: usize = k % 7;
        if cover_forms_chord(&cover, root, shape, Ghost(notes@)) {
            return Some(chord_name(root, shape));
        }
        k = k + 1;
    }
    None
}

} // verus!
