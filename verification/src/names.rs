//! Splitting file names and URLs into their parts.

use vstd::prelude::*;

verus! {

/// The position of the last occurrence of `c` in `s`, if any.
pub open spec fn last_index_of(s: Seq<char>, c: char) -> Option<int>
    decreases s.len(),
{
    if s.len() == 0 {
        None
    } else if s.last() == c {
        Some(s.len() - 1)
    } else {
        last_index_of(s.drop_last(), c)
    }
}

/// `last_index_of` finds the last occurrence: the position holds `c` and no later one does,
/// and when there is none, `c` does not occur at all.
pub proof fn lemma_last_index_of(s: Seq<char>, c: char)
    ensures
        match last_index_of(s, c) {
            Some(k) => 0 <= k < s.len() && s[k] == c && forall|j: int| k < j < s.len() ==> s[j] != c,
            None => forall|j: int| 0 <= j < s.len() ==> s[j] != c,
        },
    decreases s.len(),
{
    if s.len() > 0 && s.last() != c {
        lemma_last_index_of(s.drop_last(), c);
        assert forall|j: int| 0 <= j < s.len() - 1 implies s.drop_last()[j] == s[j] by {}
    }
}

/// A position `k` holding `c`, with no `c` after it, is the last occurrence.
pub proof fn lemma_last_index_of_unique(s: Seq<char>, c: char, k: int)
    requires
        0 <= k < s.len(),
        s[k] == c,
        forall|j: int| k < j < s.len() ==> s[j] != c,
    ensures
        last_index_of(s, c) == Some(k),
    decreases s.len(),
{
    if k < s.len() - 1 {
        assert forall|j: int| k < j < s.len() - 1 implies s.drop_last()[j] != c by {
            assert(s.drop_last()[j] == s[j]);
        }
        lemma_last_index_of_unique(s.drop_last(), c, k);
    }
}

/// Finds the last position of `c` in `s`, scanning from the end.
pub(crate) fn rfind_char(s: &str, c: char) -> (r: Option<usize>)
    ensures
        match r {
            Some(k) => k < s@.len() && last_index_of(s@, c) == Some(k as int),
            None => last_index_of(s@, c) is None,
        },
{
    let n = s.unicode_len();
    let mut i = n;
    while i > 0
        invariant
            n == s@.len(),
            i <= n,
            forall|j: int| i <= j < n ==> s@[j] != c,
        decreases i,
    {
        if s.get_char(i - 1) == c {
            proof {
                lemma_last_index_of_unique(s@, c, (i - 1) as int);
            }
            return Some(i - 1);
        }
        i = i - 1;
    }
    proof {
        lemma_last_index_of(s@, c);
    }
    None
}

/// Splits a file name at its last `.`: the part before it, and the extension
/// with its leading dot. A name without a dot has no extension.
pub fn get_extension_and_file_name(file_name: &str) -> (r: (&str, Option<&str>))
    ensures
        match last_index_of(file_name@, '.') {
            Some(k) => {
                &&& r.0@ == file_name@.subrange(0, k)
                &&& r.1 is Some
                &&& r.1.unwrap()@ == file_name@.subrange(k, file_name@.len() as int)
            },
            None => r.0@ == file_name@ && r.1 is None,
        },
{
    match rfind_char(file_name, '.') {
        Some(index) => {
            let n = file_name.unicode_len();
            (file_name.substring_char(0, index), Some(file_name.substring_char(index, n)))
        },
        None => (file_name, None),
    }
}

/// The part of a URL after its last `/`, or `None` when it holds no `/`.
pub fn get_file_name_in_url(url: &str) -> (r: Option<&str>)
    ensures
        match last_index_of(url@, '/') {
            Some(k) => r is Some && r.unwrap()@ == url@.subrange(k + 1, url@.len() as int),
            None => r is None,
        },
{
    match rfind_char(url, '/') {
        Some(index) => {
            let n = url.unicode_len();
            Some(url.substring_char(index + 1, n))
        },
        None => None,
    }
}

} // verus!
