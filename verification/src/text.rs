//! Character-search helpers shared by the variable table and the tokenizer.

use vstd::prelude::*;

verus! {

/// Position of the first occurrence of `c` in `s` at or after `i`.
pub open spec fn find_from(s: Seq<char>, c: char, i: int) -> Option<int>
    decreases s.len() - i,
{
    if i < 0 || i >= s.len() {
        None
    } else if s[i] == c {
        Some(i)
    } else {
        find_from(s, c, i + 1)
    }
}

/// Position of the first occurrence of `c` in `s`.
pub open spec fn find_char(s: Seq<char>, c: char) -> Option<int> {
    find_from(s, c, 0)
}

/// What `find_from` returns: the least matching position at or after `i`,
/// or `None` when no position at or after `i` matches.
pub proof fn lemma_find_from(s: Seq<char>, c: char, i: int)
    requires
        0 <= i <= s.len(),
    ensures
        match find_from(s, c, i) {
            Some(j) => i <= j < s.len() && s[j] == c && (forall|k: int| i <= k < j ==> s[k] != c),
            None => forall|k: int| i <= k < s.len() ==> s[k] != c,
        },
    decreases s.len() - i,
{
    if i < s.len() && s[i] != c {
        lemma_find_from(s, c, i + 1);
    }
}

/// `find_char` finds an occurrence exactly when the sequence contains one.
pub proof fn lemma_find_char_contains(s: Seq<char>, c: char)
    ensures
        find_char(s, c) is Some <==> s.contains(c),
{
    lemma_find_from(s, c, 0);
    if s.contains(c) {
        let w = choose|k: int| 0 <= k < s.len() && s[k] == c;
        assert(s[w] == c);
    }
    if find_char(s, c) is Some {
        let j = find_char(s, c)->0;
        assert(s[j] == c);
    }
}

/// Character-index position of the first occurrence of `c` in `s`, if any.
pub fn str_find_char(s: &str, c: char) -> (r: Option<usize>)
    ensures
        match r {
            Some(j) => find_char(s@, c) == Some(j as int),
            None => find_char(s@, c) is None,
        },
{
    let n = s.unicode_len();
    let mut i: usize = 0;
    while i < n
        invariant
            0 <= i <= n,
            n == s@.len(),
            find_char(s@, c) == find_from(s@, c, i as int),
        decreases n - i,
    {
        if s.get_char(i) == c {
            return Some(i);
        }
        i = i + 1;
    }
    None
}

/// Whether `s` contains the character `c`.
pub fn str_contains_char(s: &str, c: char) -> (r: bool)
    ensures
        r == s@.contains(c),
{
    let f = str_find_char(s, c);
    proof {
        lemma_find_char_contains(s@, c);
    }
    f.is_some()
}

} // verus!
