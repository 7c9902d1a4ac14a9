//! Character-level utilities: searching for a marker character and copying
//! character ranges.

use vstd::prelude::*;

verus! {

/// Index of the first occurrence of `c` in `s` at or after `from`, if any.
pub open spec fn find_char_from(s: Seq<char>, c: char, from: int) -> Option<int>
    decreases s.len() - from
        when 0 <= from <= s.len()
{
    if from >= s.len() {
        None
    } else if s[from] == c {
        Some(from)
    } else {
        find_char_from(s, c, from + 1)
    }
}

/// `find_char_from` returns the first occurrence at or after `from`, or
/// reports that there is none.
pub proof fn lemma_find_char_from(s: Seq<char>, c: char, from: int)
    requires
        0 <= from <= s.len(),
    ensures
        (match find_char_from(s, c, from) {
            Some(p) => from <= p < s.len() && s[p] == c && (forall|i: int|
                from <= i < p ==> s[i] != c),
            None => forall|i: int| from <= i < s.len() ==> s[i] != c,
        }),
    decreases s.len() - from,
{
    if from < s.len() && s[from] != c {
        lemma_find_char_from(s, c, from + 1);
    }
}

/// A position that holds `c`, with no earlier occurrence at or after `from`,
/// is what `find_char_from` returns.
pub proof fn lemma_find_char_from_is(s: Seq<char>, c: char, from: int, q: int)
    requires
        0 <= from <= q < s.len(),
        s[q] == c,
        forall|i: int| from <= i < q ==> s[i] != c,
    ensures
        find_char_from(s, c, from) == Some(q),
{
    lemma_find_char_from(s, c, from);
}

/// When `c` occurs nowhere at or after `from`, `find_char_from` finds nothing.
pub proof fn lemma_find_char_from_none(s: Seq<char>, c: char, from: int)
    requires
        0 <= from <= s.len(),
        forall|i: int| from <= i < s.len() ==> s[i] != c,
    ensures
        find_char_from(s, c, from) is None,
{
    lemma_find_char_from(s, c, from);
}

/// Finds the first occurrence of `c` in `v` at or after `from`.
pub(crate) fn find_char(v: &Vec<char>, c: char, from: usize) -> (r: Option<usize>)
    requires
        from <= v@.len(),
    ensures
        (match r {
            Some(p) => find_char_from(v@, c, from as int) == Some(p as int),
            None => find_char_from(v@, c, from as int) is None,
        }),
{
    let mut i: usize = from;
    while i < v.len()
        invariant
            from <= i <= v@.len(),
            forall|j: int| from <= j < i ==> v@[j] != c,
        decreases v@.len() - i,
    {
        if v[i] == c {
            proof {
                lemma_find_char_from(v@, c, from as int);
            }
            return Some(i);
        }
        i = i + 1;
    }
    proof {
        lemma_find_char_from(v@, c, from as int);
    }
    None
}

/// Copies `v[from..to]` into a fresh vector.
pub(crate) fn copy_range(v: &Vec<char>, from: usize, to: usize) -> (r: Vec<char>)
    requires
        from <= to <= v@.len(),
    ensures
        r@ == v@.subrange(from as int, to as int),
{
    let mut r: Vec<char> = Vec::new();
    let mut i: usize = from;
    while i < to
        invariant
            from <= i <= to <= v@.len(),
            r@ == v@.subrange(from as int, i as int),
        decreases to - i,
    {
        r.push(v[i]);
        proof {
            assert(r@ =~= v@.subrange(from as int, i + 1 as int));
        }
        i = i + 1;
    }
    r
}

/// Relies on `str::chars`: it yields exactly the characters of the string,
/// in order.
#[verifier::external_body]
pub(crate) fn str_chars(s: &str) -> (r: Vec<char>)
    ensures
        r@ == s@,
{
    s.chars().collect()
}

/// Relies on `String`'s `FromIterator<char>` (through `Iterator::collect`):
/// the string holds exactly the given characters, in order.
#[verifier::external_body]
pub(crate) fn chars_string(chars: &[char]) -> (r: String)
    ensures
        r@ == chars@,
{
    chars.iter().collect()
}

} // verus!
