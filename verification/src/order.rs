//! Case-insensitive (ASCII) lexicographic ordering of raw lines, used to
//! pick the insertion position for a new key line.

use vstd::prelude::*;

verus! {

/// The code point of `c` after ASCII lowercasing: letters `'A'` to `'Z'`
/// map to `'a'` to `'z'`, every other character is unchanged.
pub open spec fn lower_code(c: char) -> int {
    if 'A' as u32 <= c as u32 && c as u32 <= 'Z' as u32 {
        c as u32 + 32
    } else {
        (c as u32) as int
    }
}

/// `a` compares lexicographically greater than `b` once both are ASCII
/// lowercased: the order that comparing `to_ascii_lowercase` copies gives.
pub open spec fn gt_ignore_ascii_case(a: Seq<char>, b: Seq<char>) -> bool
    decreases a.len(),
{
    if b.len() == 0 {
        a.len() > 0
    } else if a.len() == 0 {
        false
    } else if lower_code(a.first()) == lower_code(b.first()) {
        gt_ignore_ascii_case(a.drop_first(), b.drop_first())
    } else {
        lower_code(a.first()) > lower_code(b.first())
    }
}

/// Dropping a common (case-insensitively equal) prefix of length `k` from
/// both sequences does not change how they compare.
pub proof fn lemma_gt_ignore_case_common_prefix(a: Seq<char>, b: Seq<char>, k: int)
    requires
        0 <= k <= a.len(),
        k <= b.len(),
        forall|j: int| 0 <= j < k ==> lower_code(a[j]) == lower_code(b[j]),
    ensures
        gt_ignore_ascii_case(a, b) == gt_ignore_ascii_case(a.skip(k), b.skip(k)),
    decreases k,
{
    if k == 0 {
        assert(a.skip(0) =~= a);
        assert(b.skip(0) =~= b);
    } else {
        assert(lower_code(a[0]) == lower_code(b[0]));
        assert forall|j: int| 0 <= j < k - 1 implies lower_code(a.drop_first()[j]) == lower_code(
            b.drop_first()[j],
        ) by {
            assert(a.drop_first()[j] == a[j + 1]);
            assert(b.drop_first()[j] == b[j + 1]);
        }
        lemma_gt_ignore_case_common_prefix(a.drop_first(), b.drop_first(), k - 1);
        assert(a.drop_first().skip(k - 1) =~= a.skip(k));
        assert(b.drop_first().skip(k - 1) =~= b.skip(k));
    }
}

/// The code point of `c` after ASCII lowercasing.
pub fn lower_code_exec(c: char) -> (r: u32)
    ensures
        r as int == lower_code(c),
{
    let u = c as u32;
    if 65 <= u && u <= 90 {
        u + 32
    } else {
        u
    }
}

/// Reports whether `a` compares lexicographically greater than `b` when
/// both are ASCII lowercased.
pub fn str_gt_ignore_ascii_case(a: &str, b: &str) -> (r: bool)
    ensures
        r == gt_ignore_ascii_case(a@, b@),
{
    let na = a.unicode_len();
    let nb = b.unicode_len();
    let mut i: usize = 0;
    while i < na && i < nb
        invariant
            na == a@.len(),
            nb == b@.len(),
            0 <= i <= na,
            i <= nb,
            forall|j: int| 0 <= j < i ==> lower_code(a@[j]) == lower_code(b@[j]),
        decreases na - i,
    {
        let ca = lower_code_exec(a.get_char(i));
        let cb = lower_code_exec(b.get_char(i));
        if ca != cb {
            proof {
                lemma_gt_ignore_case_common_prefix(a@, b@, i as int);
                assert(a@.skip(i as int).first() == a@[i as int]);
                assert(b@.skip(i as int).first() == b@[i as int]);
            }
            return ca > cb;
        }
        i = i + 1;
    }
    proof {
        lemma_gt_ignore_case_common_prefix(a@, b@, i as int);
        if i < na {
            assert(a@.skip(i as int).len() > 0);
        }
    }
    na > i
}

} // verus!
