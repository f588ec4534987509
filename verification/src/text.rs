//! Views of strings and substring search.

use vstd::prelude::*;

verus! {

/// The view of an optional string.
pub open spec fn optional_text(s: Option<String>) -> Option<Seq<char>> {
    match s {
        Some(t) => Some(t@),
        None => None,
    }
}

/// Whether `part` occurs in `text` as a contiguous run of characters.
pub open spec fn contains_text(text: Seq<char>, part: Seq<char>) -> bool {
    exists|i: int| 0 <= i <= text.len() - part.len() && #[trigger] text.subrange(i, i + part.len()) == part
}

/// The views of a sequence of strings.
pub open spec fn text_views(texts: Seq<String>) -> Seq<Seq<char>> {
    texts.map_values(|t: String| t@)
}

/// Whether `part` occurs in `text`.
pub fn text_contains(text: &String, part: &String) -> (found: bool)
    ensures
        found == contains_text(text@, part@),
{
    let t = text.as_str();
    let p = part.as_str();
    let n = t.unicode_len();
    let m = p.unicode_len();
    if m > n {
        assert forall|i: int| 0 <= i <= text@.len() - part@.len() implies #[trigger] text@.subrange(
            i,
            i + part@.len(),
        ) != part@ by {}
        return false;
    }
    let mut i: usize = 0;
    while i <= n - m
        invariant
            n == text@.len(),
            m == part@.len(),
            m <= n,
            t@ == text@,
            p@ == part@,
            i <= n - m + 1,
            forall|k: int| 0 <= k < i ==> #[trigger] text@.subrange(k, k + m) != part@,
        decreases n - m + 1 - i,
    {
        let mut j: usize = 0;
        let mut same = true;
        while j < m
            invariant
                n == text@.len(),
                m == part@.len(),
                t@ == text@,
                p@ == part@,
                i + m <= n,
                j <= m,
                same ==> forall|q: int| 0 <= q < j ==> text@[i + q] == part@[q],
                !same ==> exists|q: int| 0 <= q < m && text@[i + q] != part@[q],
            decreases m - j,
        {
            if t.get_char(i + j) != p.get_char(j) {
                same = false;
            }
            j = j + 1;
        }
        if same {
            assert(text@.subrange(i as int, i + m) =~= part@);
            return true;
        }
        proof {
            let q = choose|q: int| 0 <= q < m && text@[i + q] != part@[q];
            assert(text@.subrange(i as int, i + m)[q] != part@[q]);
        }
        i = i + 1;
    }
    false
}

/// Whether `a` comes strictly before `b` in the order of strings:
/// character by character by code point, a proper prefix first.
pub open spec fn text_less(a: Seq<char>, b: Seq<char>) -> bool
    decreases a.len(),
{
    if a.len() == 0 {
        b.len() > 0
    } else if b.len() == 0 {
        false
    } else if a[0] != b[0] {
        (a[0] as u32) < (b[0] as u32)
    } else {
        text_less(a.drop_first(), b.drop_first())
    }
}

/// Whether `a` comes strictly before `b` in the order of strings.
pub fn text_precedes(a: &String, b: &String) -> (before: bool)
    ensures
        before == text_less(a@, b@),
{
    let x = a.as_str();
    let y = b.as_str();
    let n = x.unicode_len();
    let m = y.unicode_len();
    let mut i: usize = 0;
    assert(a@.skip(0) =~= a@);
    assert(b@.skip(0) =~= b@);
    while i < n && i < m
        invariant
            n == a@.len(),
            m == b@.len(),
            x@ == a@,
            y@ == b@,
            i <= n,
            i <= m,
            text_less(a@, b@) == text_less(a@.skip(i as int), b@.skip(i as int)),
        decreases n - i,
    {
        let c = x.get_char(i);
        let d = y.get_char(i);
        assert(a@.skip(i as int)[0] == c);
        assert(b@.skip(i as int)[0] == d);
        if c != d {
            return (c as u32) < (d as u32);
        }
        assert(a@.skip(i as int).drop_first() =~= a@.skip(i + 1));
        assert(b@.skip(i as int).drop_first() =~= b@.skip(i + 1));
        i = i + 1;
    }
    n < m
}

} // verus!
