//! The key-line model: finding the `" ="` separator, extracting the key
//! prefix, and prefix matching between raw lines.

use vstd::prelude::*;

verus! {

/// The separator `" ="` (a space immediately followed by an equals sign)
/// occurs in `s` at position `i`.
pub open spec fn sep_at(s: Seq<char>, i: int) -> bool {
    &&& 0 <= i
    &&& i + 2 <= s.len()
    &&& s[i] == ' '
    &&& s[i + 1] == '='
}

/// The position of the first separator occurrence at or after `i`, if any.
pub open spec fn find_sep_from(s: Seq<char>, i: int) -> Option<int>
    decreases s.len() - i,
{
    if i < 0 || i + 2 > s.len() {
        None
    } else if sep_at(s, i) {
        Some(i)
    } else {
        find_sep_from(s, i + 1)
    }
}

/// The position of the first separator occurrence in `s`, if any.
pub open spec fn sep_index(s: Seq<char>) -> Option<int> {
    find_sep_from(s, 0)
}

/// A key line is any line that contains the separator `" ="`.
pub open spec fn is_key_line(s: Seq<char>) -> bool {
    sep_index(s) is Some
}

/// The key prefix of a key line: everything up to and including the `=` of
/// the first separator occurrence.
pub open spec fn key_prefix(s: Seq<char>) -> Seq<char>
    recommends
        is_key_line(s),
{
    s.subrange(0, sep_index(s).unwrap() + 2)
}

/// A hit reported by `find_sep_from` lies at or after the start of the
/// search and really carries the separator.
pub proof fn lemma_find_sep_from_bounds(s: Seq<char>, i: int, p: int)
    requires
        find_sep_from(s, i) == Some(p),
    ensures
        i <= p,
        sep_at(s, p),
    decreases s.len() - i,
{
    if i < 0 || i + 2 > s.len() {
    } else if sep_at(s, i) {
    } else {
        lemma_find_sep_from_bounds(s, i + 1, p);
    }
}

/// The key prefix of a key line is at least two characters long, is a prefix
/// of the line itself, and starts with the line's own first character.
pub proof fn lemma_key_prefix_shape(s: Seq<char>)
    requires
        is_key_line(s),
    ensures
        2 <= key_prefix(s).len() <= s.len(),
        key_prefix(s).is_prefix_of(s),
        key_prefix(s)[0] == s[0],
{
    let p = sep_index(s).unwrap();
    lemma_find_sep_from_bounds(s, 0, p);
    assert(key_prefix(s) =~= s.subrange(0, key_prefix(s).len() as int));
}

/// Reports the position of the first `" ="` separator in `line`, if any.
pub fn find_sep(line: &str) -> (r: Option<usize>)
    ensures
        line@.len() <= usize::MAX,
        match r {
            Some(p) => sep_index(line@) == Some(p as int) && p + 2 <= line@.len(),
            None => sep_index(line@) is None,
        },
{
    let n = line.unicode_len();
    let mut i: usize = 0;
    while i < n && i + 1 < n
        invariant
            n == line@.len(),
            0 <= i <= n,
            find_sep_from(line@, 0) == find_sep_from(line@, i as int),
        decreases n - i,
    {
        if line.get_char(i) == ' ' && line.get_char(i + 1) == '=' {
            assert(sep_at(line@, i as int));
            return Some(i);
        }
        assert(find_sep_from(line@, i as int) == find_sep_from(line@, i as int + 1));
        i = i + 1;
    }
    assert(find_sep_from(line@, i as int) is None);
    None
}

/// Reports whether `s` starts with `pre`, comparing character by character.
pub fn str_has_prefix(s: &str, pre: &str) -> (r: bool)
    ensures
        r == pre@.is_prefix_of(s@),
{
    let n = s.unicode_len();
    let m = pre.unicode_len();
    if m > n {
        return false;
    }
    let mut j: usize = 0;
    while j < m
        invariant
            n == s@.len(),
            m == pre@.len(),
            m <= n,
            0 <= j <= m,
            forall|k: int| 0 <= k < j ==> s@[k] == pre@[k],
        decreases m - j,
    {
        if s.get_char(j) != pre.get_char(j) {
            assert(!pre@.is_prefix_of(s@)) by {
                if pre@.is_prefix_of(s@) {
                    assert(pre@[j as int] == s@.subrange(0, m as int)[j as int]);
                }
            }
            return false;
        }
        j = j + 1;
    }
    assert(pre@ =~= s@.subrange(0, m as int));
    true
}

} // verus!
