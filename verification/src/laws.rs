//! Laws of the reconciliation operations, stated over the models that the
//! operations' own contracts use.

use vstd::prelude::*;

use crate::keys::is_key_line;
use crate::keys::key_prefix;
use crate::keys::lemma_key_prefix_shape;
use crate::order::gt_ignore_ascii_case;
use crate::section::commented_line;
use crate::section::first_gt_from;
use crate::section::first_gt_index;
use crate::section::insert_outcome;
use crate::section::insert_skipped;
use crate::section::last_nonempty_from;
use crate::section::last_nonempty_index;
use crate::section::retained_lines;
use crate::section::retires;
use crate::section::skipped_key_token;

verus! {

/// A hit reported by `first_gt_from` lies between the start of the search
/// and the end of the sequence, at a line that compares greater.
pub proof fn lemma_first_gt_from_bounds(lines: Seq<Seq<char>>, pre: Seq<char>, i: int, p: int)
    requires
        first_gt_from(lines, pre, i) == Some(p),
    ensures
        i <= p < lines.len(),
        gt_ignore_ascii_case(lines[p], pre),
    decreases lines.len() - i,
{
    if i < 0 || i >= lines.len() {
    } else if gt_ignore_ascii_case(lines[i], pre) {
    } else {
        lemma_first_gt_from_bounds(lines, pre, i + 1, p);
    }
}

/// A hit reported by `last_nonempty_from` lies between the start of the
/// sequence and the start of the search, at a non-blank line.
pub proof fn lemma_last_nonempty_from_bounds(lines: Seq<Seq<char>>, i: int, j: int)
    requires
        last_nonempty_from(lines, i) == Some(j),
    ensures
        0 <= j <= i,
        lines[j].len() > 0,
    decreases i + 1,
{
    if i < 0 {
    } else if lines[i].len() > 0 {
    } else {
        lemma_last_nonempty_from_bounds(lines, i - 1, j);
    }
}

/// How many lines of `lines` start with the key prefix `pre`.
pub open spec fn count_matching(lines: Seq<Seq<char>>, pre: Seq<char>) -> nat
    decreases lines.len(),
{
    if lines.len() == 0 {
        0
    } else {
        count_matching(lines.drop_last(), pre) + if pre.is_prefix_of(lines.last()) {
            1nat
        } else {
            0nat
        }
    }
}

/// When no line starts with `pre`, the matching count is zero.
pub proof fn lemma_count_matching_zero(lines: Seq<Seq<char>>, pre: Seq<char>)
    requires
        forall|i: int| 0 <= i < lines.len() ==> !pre.is_prefix_of(lines[i]),
    ensures
        count_matching(lines, pre) == 0,
    decreases lines.len(),
{
    if lines.len() > 0 {
        lemma_count_matching_zero(lines.drop_last(), pre);
    }
}

/// Inserting one line raises the matching count by one exactly when the
/// inserted line starts with `pre`.
pub proof fn lemma_count_matching_insert(s: Seq<Seq<char>>, i: int, x: Seq<char>, pre: Seq<char>)
    requires
        0 <= i <= s.len(),
    ensures
        count_matching(s.insert(i, x), pre) == count_matching(s, pre) + if pre.is_prefix_of(x) {
            1nat
        } else {
            0nat
        },
    decreases s.len(),
{
    let t = s.insert(i, x);
    s.insert_ensures(i, x);
    if i == s.len() {
        assert(t.drop_last() =~= s);
        assert(t.last() == x);
    } else {
        assert(t.last() == s.last());
        assert(t.drop_last() =~= s.drop_last().insert(i, x));
        lemma_count_matching_insert(s.drop_last(), i, x, pre);
    }
}

/// A line that is no key line is never retired: `comment_out_lines_if_not_in`
/// and `remove_lines_if_not_in` pass it through untouched.
pub proof fn lemma_non_key_line_never_retired(l: Seq<char>, others: Seq<Seq<char>>)
    requires
        !is_key_line(l),
    ensures
        !retires(l, others),
        commented_line(l, others) == l,
{
}

/// The non-key lines of a section body, in order.
pub open spec fn non_key_lines(lines: Seq<Seq<char>>) -> Seq<Seq<char>>
    decreases lines.len(),
{
    if lines.len() == 0 {
        Seq::empty()
    } else {
        let rest = non_key_lines(lines.drop_last());
        if is_key_line(lines.last()) {
            rest
        } else {
            rest.push(lines.last())
        }
    }
}

/// `remove_lines_if_not_in` never removes a non-key line: the subsequence
/// of non-key lines survives the removal unchanged, in order.
pub proof fn lemma_remove_preserves_non_key_lines(lines: Seq<Seq<char>>, others: Seq<Seq<char>>)
    ensures
        non_key_lines(retained_lines(lines, others)) == non_key_lines(lines),
    decreases lines.len(),
{
    if lines.len() == 0 {
    } else {
        lemma_remove_preserves_non_key_lines(lines.drop_last(), others);
        let l = lines.last();
        let rest = retained_lines(lines.drop_last(), others);
        if retires(l, others) {
            assert(is_key_line(l));
        } else {
            assert(rest.push(l).drop_last() =~= rest);
            assert(rest.push(l).last() == l);
        }
    }
}

/// `remove_lines_if_not_in` never retains a retired line: every line it
/// keeps is a non-key line, carries the exempt token or a leading `#` in
/// its key prefix, or has its key prefix present in the reference body.
pub proof fn lemma_retained_lines_only_kept(lines: Seq<Seq<char>>, others: Seq<Seq<char>>)
    ensures
        forall|j: int|
            0 <= j < retained_lines(lines, others).len() ==> !retires(
                #[trigger] retained_lines(lines, others)[j],
                others,
            ),
    decreases lines.len(),
{
    if lines.len() == 0 {
    } else {
        lemma_retained_lines_only_kept(lines.drop_last(), others);
        let l = lines.last();
        let rest = retained_lines(lines.drop_last(), others);
        if !retires(l, others) {
            assert forall|j: int|
                0 <= j < retained_lines(lines, others).len() implies !retires(
                retained_lines(lines, others)[j],
                others,
            ) by {
                if j < rest.len() {
                    assert(rest.push(l)[j] == rest[j]);
                } else {
                    assert(rest.push(l)[j] == l);
                }
            }
        }
    }
}

/// Offering a non-key line to `insert_line_if_missing` is a no-op: the
/// insertion is skipped and the body is unchanged.
pub proof fn lemma_insert_skips_non_key(lines: Seq<Seq<char>>, line: Seq<char>)
    requires
        !is_key_line(line),
    ensures
        insert_skipped(line, lines),
        insert_outcome(lines, line) == lines,
{
}

/// Inserting a key line anywhere leaves the non-key lines alone.
proof fn lemma_non_key_lines_insert(s: Seq<Seq<char>>, i: int, x: Seq<char>)
    requires
        0 <= i <= s.len(),
        is_key_line(x),
    ensures
        non_key_lines(s.insert(i, x)) == non_key_lines(s),
    decreases s.len(),
{
    let t = s.insert(i, x);
    s.insert_ensures(i, x);
    if i == s.len() {
        assert(t.drop_last() =~= s);
        assert(t.last() == x);
    } else {
        assert(t.last() == s.last());
        assert(t.drop_last() =~= s.drop_last().insert(i, x));
        lemma_non_key_lines_insert(s.drop_last(), i, x);
    }
}

/// `insert_line_if_missing` never alters or removes a non-key line: the
/// subsequence of non-key lines survives any insertion unchanged, in order.
pub proof fn lemma_insert_preserves_non_key_lines(lines: Seq<Seq<char>>, line: Seq<char>)
    ensures
        non_key_lines(insert_outcome(lines, line)) == non_key_lines(lines),
{
    if !insert_skipped(line, lines) {
        let pre = key_prefix(line);
        match first_gt_index(lines, pre) {
            Some(i) => {
                lemma_first_gt_from_bounds(lines, pre, 0, i);
                lemma_non_key_lines_insert(lines, i, line);
            },
            None => match last_nonempty_index(lines) {
                Some(j) => {
                    lemma_last_nonempty_from_bounds(lines, lines.len() - 1, j);
                    lemma_non_key_lines_insert(lines, j + 1, line);
                },
                None => {
                },
            },
        }
    }
}

/// Inserting a key line whose key prefix is comment-styled or carries the
/// never-inserted token is a no-op: the insertion is skipped and the body
/// is unchanged.
pub proof fn lemma_insert_skips_special(lines: Seq<Seq<char>>, line: Seq<char>)
    requires
        is_key_line(line),
        key_prefix(line)[0] == '#' || skipped_key_token().is_prefix_of(key_prefix(line)),
    ensures
        insert_skipped(line, lines),
        insert_outcome(lines, line) == lines,
{
}

/// `insert_line_if_missing` is idempotent: a second insertion of the same
/// line leaves the body exactly as the first insertion left it.
pub proof fn lemma_insert_outcome_idempotent(lines: Seq<Seq<char>>, line: Seq<char>)
    ensures
        insert_outcome(insert_outcome(lines, line), line) == insert_outcome(lines, line),
{
    if !insert_skipped(line, lines) {
        let pre = key_prefix(line);
        lemma_key_prefix_shape(line);
        match first_gt_index(lines, pre) {
            Some(i) => {
                lemma_first_gt_from_bounds(lines, pre, 0, i);
                let result = lines.insert(i, line);
                lines.insert_ensures(i, line);
                assert(result[i] == line);
                assert(insert_skipped(line, result));
            },
            None => match last_nonempty_index(lines) {
                Some(j) => {
                    lemma_last_nonempty_from_bounds(lines, lines.len() - 1, j);
                    let result = lines.insert(j + 1, line);
                    lines.insert_ensures(j + 1, line);
                    assert(result[j + 1] == line);
                    assert(insert_skipped(line, result));
                },
                None => {
                },
            },
        }
    }
}

/// After an insertion that places the line, exactly one line of the body
/// starts with the inserted line's key prefix, and a repeated insertion
/// changes nothing further.
pub proof fn lemma_insert_leaves_one_match(lines: Seq<Seq<char>>, line: Seq<char>)
    requires
        !insert_skipped(line, lines),
        first_gt_index(lines, key_prefix(line)) is Some || last_nonempty_index(lines) is Some,
    ensures
        count_matching(insert_outcome(lines, line), key_prefix(line)) == 1,
        insert_outcome(insert_outcome(lines, line), line) == insert_outcome(lines, line),
{
    let pre = key_prefix(line);
    lemma_key_prefix_shape(line);
    lemma_count_matching_zero(lines, pre);
    match first_gt_index(lines, pre) {
        Some(i) => {
            lemma_first_gt_from_bounds(lines, pre, 0, i);
            lemma_count_matching_insert(lines, i, line, pre);
        },
        None => {
            let j = last_nonempty_index(lines).unwrap();
            lemma_last_nonempty_from_bounds(lines, lines.len() - 1, j);
            lemma_count_matching_insert(lines, j + 1, line, pre);
        },
    }
    lemma_insert_outcome_idempotent(lines, line);
}

} // verus!
