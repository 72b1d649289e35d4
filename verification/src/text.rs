//! Small verified helpers over string slices.
use vstd::prelude::*;

verus! {

/// Character-by-character string equality, decided against the views.
pub fn str_eq(a: &str, b: &str) -> (r: bool)
    ensures
        r == (a@ == b@),
{
    let alen = a.unicode_len();
    let blen = b.unicode_len();
    if alen != blen {
        return false;
    }
    let mut i: usize = 0;
    while i < alen
        invariant
            0 <= i <= alen,
            alen == a@.len(),
            alen == b@.len(),
            forall|j: int| 0 <= j < i ==> a@[j] == b@[j],
        decreases alen - i,
    {
        if a.get_char(i) != b.get_char(i) {
            return false;
        }
        i = i + 1;
    }
    proof {
        assert(a@ =~= b@);
    }
    true
}


/// The position of a character's first occurrence in a character
/// sequence.
pub open spec fn spec_find_char(s: Seq<char>, c: char) -> Option<int>
    decreases s.len(),
{
    if s.len() == 0 {
        None
    } else if s[0] == c {
        Some(0)
    } else {
        match spec_find_char(s.drop_first(), c) {
            Some(i) => Some(i + 1),
            None => None,
        }
    }
}

/// A first match at a position pins the find down.
pub proof fn lemma_spec_find_char_at(s: Seq<char>, c: char, i: int)
    requires
        0 <= i < s.len(),
        s[i] == c,
        forall|j: int| 0 <= j < i ==> s[j] != c,
    ensures
        spec_find_char(s, c) == Some(i),
    decreases i,
{
    if i > 0 {
        lemma_spec_find_char_at(s.drop_first(), c, i - 1);
    }
}

/// No match anywhere means the find misses.
pub proof fn lemma_spec_find_char_none(s: Seq<char>, c: char)
    requires
        forall|j: int| 0 <= j < s.len() ==> s[j] != c,
    ensures
        spec_find_char(s, c) is None,
    decreases s.len(),
{
    if s.len() > 0 {
        lemma_spec_find_char_none(s.drop_first(), c);
    }
}

/// How a name splits at a separator: the part before the first
/// occurrence names the group and the rest is the key; a name without
/// the separator collects under the sentinel group `"_"`.
pub open spec fn spec_split_group(key: Seq<char>, sep: char) -> (Seq<char>, Seq<char>) {
    match spec_find_char(key, sep) {
        Some(i) => (key.take(i), key.skip(i + 1)),
        None => ("_"@, key),
    }
}

/// Split a name at the first occurrence of the separator; a name
/// without it collects under the sentinel group `"_"`.
pub fn split_group(key: &str, sep: char) -> (r: (String, String))
    ensures
        (r.0@, r.1@) == spec_split_group(key@, sep),
{
    let n = key.unicode_len();
    let mut i: usize = 0;
    while i < n
        invariant
            0 <= i <= n,
            n == key@.len(),
            forall|j: int| 0 <= j < i ==> key@[j] != sep,
        decreases n - i,
    {
        if key.get_char(i) == sep {
            proof {
                lemma_spec_find_char_at(key@, sep, i as int);
                assert(key@.take(i as int) =~= key@.subrange(0, i as int));
                assert(key@.skip(i as int + 1) =~= key@.subrange(i as int + 1, key@.len() as int));
            }
            let group = key.substring_char(0, i);
            let rest = key.substring_char(i + 1, n);
            return (String::from_str(group), String::from_str(rest));
        }
        i = i + 1;
    }
    proof {
        lemma_spec_find_char_none(key@, sep);
    }
    (String::from_str("_"), String::from_str(key))
}

} // verus!
