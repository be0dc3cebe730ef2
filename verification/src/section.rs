//! A configuration section and its three reconciliation operations:
//! inserting a missing key line, commenting out key lines that a reference
//! section lacks, and removing such lines outright.

use vstd::prelude::*;

use crate::keys::find_sep;
use crate::keys::is_key_line;
use crate::keys::key_prefix;
use crate::keys::lemma_find_sep_from_bounds;
use crate::keys::str_has_prefix;
use crate::order::gt_ignore_ascii_case;
use crate::order::str_gt_ignore_ascii_case;

verus! {

/// The mathematical value of a [`Section`]: its name, its verbatim heading
/// line, and its body lines as character sequences.
pub struct SectionModel {
    pub name: Seq<char>,
    pub title_line: Seq<char>,
    pub lines: Seq<Seq<char>>,
}

/// One named configuration block: a heading line kept verbatim and an
/// ordered sequence of raw body lines.
#[derive(Debug, Clone)]
pub struct Section {
    /// Identifier of the section, used only for diagnostics.
    pub name: String,
    /// The literal heading line as it appeared in source text.
    pub title_line: String,
    /// The raw body lines, in persisted file order.
    pub lines: Vec<String>,
}

impl View for Section {
    type V = SectionModel;

    open spec fn view(&self) -> SectionModel {
        SectionModel {
            name: self.name@,
            title_line: self.title_line@,
            lines: self.lines.deep_view(),
        }
    }
}

/// The key token whose lines are never auto-inserted: an explicit, named
/// policy carve-out rather than a hidden literal.
pub open spec fn skipped_key_token() -> Seq<char> {
    "translators"@
}

/// The key token whose lines are exempt from being commented out or
/// removed.
pub open spec fn exempt_key_token() -> Seq<char> {
    "Font"@
}

/// The literal text of [`skipped_key_token`], the one place that fixes the
/// never-inserted key policy.
pub fn skipped_key_token_text() -> (r: &'static str)
    ensures
        r@ == skipped_key_token(),
{
    "translators"
}

/// The literal text of [`exempt_key_token`], the one place that fixes the
/// never-retired key policy.
pub fn exempt_key_token_text() -> (r: &'static str)
    ensures
        r@ == exempt_key_token(),
{
    "Font"
}

/// `insert_line_if_missing` declines to touch the section: the candidate is
/// not a key line, its key prefix is comment-styled or carries the
/// never-inserted token, or some existing line already starts with that
/// exact key prefix.
pub open spec fn insert_skipped(line: Seq<char>, lines: Seq<Seq<char>>) -> bool {
    ||| !is_key_line(line)
    ||| key_prefix(line)[0] == '#'
    ||| skipped_key_token().is_prefix_of(key_prefix(line))
    ||| exists|i: int| 0 <= i < lines.len() && key_prefix(line).is_prefix_of(lines[i])
}

/// The position, at or after `i`, of the first line that compares greater
/// (case-insensitively) than the key prefix `pre`, if any.
pub open spec fn first_gt_from(lines: Seq<Seq<char>>, pre: Seq<char>, i: int) -> Option<int>
    decreases lines.len() - i,
{
    if i < 0 || i >= lines.len() {
        None
    } else if gt_ignore_ascii_case(lines[i], pre) {
        Some(i)
    } else {
        first_gt_from(lines, pre, i + 1)
    }
}

/// The position of the first line that compares greater (case-insensitively)
/// than the key prefix `pre`, if any.
pub open spec fn first_gt_index(lines: Seq<Seq<char>>, pre: Seq<char>) -> Option<int> {
    first_gt_from(lines, pre, 0)
}

/// The position, at or before `i`, of the last non-blank line, if any.
pub open spec fn last_nonempty_from(lines: Seq<Seq<char>>, i: int) -> Option<int>
    recommends
        i < lines.len(),
    decreases i + 1,
{
    if i < 0 {
        None
    } else if lines[i].len() > 0 {
        Some(i)
    } else {
        last_nonempty_from(lines, i - 1)
    }
}

/// The position of the last non-blank line, if any.
pub open spec fn last_nonempty_index(lines: Seq<Seq<char>>) -> Option<int> {
    last_nonempty_from(lines, lines.len() - 1)
}

/// The body lines after `insert_line_if_missing(line)`: unchanged when the
/// insertion is skipped; otherwise `line` goes immediately before the first
/// line that compares greater (case-insensitively) than its key prefix, or
/// failing that right after the last non-blank line, or nowhere at all when
/// the section is entirely blank.
pub open spec fn insert_outcome(lines: Seq<Seq<char>>, line: Seq<char>) -> Seq<Seq<char>> {
    if insert_skipped(line, lines) {
        lines
    } else {
        match first_gt_index(lines, key_prefix(line)) {
            Some(i) => lines.insert(i, line),
            None => match last_nonempty_index(lines) {
                Some(j) => lines.insert(j + 1, line),
                None => lines,
            },
        }
    }
}

/// The line `l` is retired by the retire operations: it is a key line, its
/// key prefix carries neither the exempt token nor a leading `#`, and no
/// line of `others` starts with that key prefix.
pub open spec fn retires(l: Seq<char>, others: Seq<Seq<char>>) -> bool {
    &&& is_key_line(l)
    &&& !exempt_key_token().is_prefix_of(key_prefix(l))
    &&& key_prefix(l)[0] != '#'
    &&& !(exists|j: int| 0 <= j < others.len() && key_prefix(l).is_prefix_of(others[j]))
}

/// What `comment_out_lines_if_not_in` leaves of one line: a retired line
/// gains a single leading `#`, every other line is untouched.
pub open spec fn commented_line(l: Seq<char>, others: Seq<Seq<char>>) -> Seq<char> {
    if retires(l, others) {
        seq!['#'] + l
    } else {
        l
    }
}

/// What `remove_lines_if_not_in` leaves of the body: the retired lines are
/// dropped, every other line stays, in order.
pub open spec fn retained_lines(lines: Seq<Seq<char>>, others: Seq<Seq<char>>) -> Seq<Seq<char>>
    decreases lines.len(),
{
    if lines.len() == 0 {
        Seq::empty()
    } else {
        let rest = retained_lines(lines.drop_last(), others);
        if retires(lines.last(), others) {
            rest
        } else {
            rest.push(lines.last())
        }
    }
}

/// Reports whether `l` is retired when reconciling against `other`: `l` is
/// a key line without the exempt token or a leading `#`, and no line of
/// `other` starts with `l`'s key prefix.
fn line_retires(l: &str, other: &Section) -> (r: bool)
    ensures
        r == retires(l@, other@.lines),
{
    let pos = match find_sep(l) {
        Some(p) => p,
        None => {
            return false;
        },
    };
    proof {
        lemma_find_sep_from_bounds(l@, 0, pos as int);
    }
    let prefix = l.substring_char(0, pos + 2);
    assert(prefix@ == key_prefix(l@));
    if str_has_prefix(prefix, exempt_key_token_text()) {
        return false;
    }
    if prefix.get_char(0) == '#' {
        return false;
    }
    let m = other.lines.len();
    let mut j: usize = 0;
    while j < m
        invariant
            m == other@.lines.len(),
            0 <= j <= m,
            prefix@ == key_prefix(l@),
            forall|k: int| 0 <= k < j ==> !key_prefix(l@).is_prefix_of(other@.lines[k]),
        decreases m - j,
    {
        if str_has_prefix(other.lines[j].as_str(), prefix) {
            assert(key_prefix(l@).is_prefix_of(other@.lines[j as int]));
            return false;
        }
        j = j + 1;
    }
    true
}

impl Section {
    /// Inserts `line` unless the insertion is skipped: `line` is no key
    /// line, its key prefix is comment-styled or carries the never-inserted
    /// token, or a line with its key prefix is already present. The new line
    /// goes immediately before the first line that compares greater
    /// (case-insensitively) than the key prefix, or failing that right
    /// after the last non-blank line. Reports whether the insertion was not
    /// skipped; in an entirely blank section that report can be true with
    /// no line added.
    pub fn insert_line_if_missing(&mut self, line: &str) -> (inserted: bool)
        ensures
            final(self)@.name == old(self)@.name,
            final(self)@.title_line == old(self)@.title_line,
            final(self)@.lines == insert_outcome(old(self)@.lines, line@),
            inserted == !insert_skipped(line@, old(self)@.lines),
    {
        let pos = match find_sep(line) {
            Some(p) => p,
            None => {
                return false;
            },
        };
        proof {
            lemma_find_sep_from_bounds(line@, 0, pos as int);
        }
        let prefix = line.substring_char(0, pos + 2);
        assert(prefix@ == key_prefix(line@));
        if prefix.get_char(0) == '#' {
            return false;
        }
        if str_has_prefix(prefix, skipped_key_token_text()) {
            return false;
        }
        let n = self.lines.len();
        let mut i: usize = 0;
        while i < n
            invariant
                n == self@.lines.len(),
                0 <= i <= n,
                prefix@ == key_prefix(line@),
                forall|k: int| 0 <= k < i ==> !key_prefix(line@).is_prefix_of(self@.lines[k]),
            decreases n - i,
        {
            if str_has_prefix(self.lines[i].as_str(), prefix) {
                assert(key_prefix(line@).is_prefix_of(self@.lines[i as int]));
                return false;
            }
            i = i + 1;
        }
        assert(!insert_skipped(line@, self@.lines));
        let mut i: usize = 0;
        while i < n
            invariant
                n == self@.lines.len(),
                0 <= i <= n,
                *self == *old(self),
                prefix@ == key_prefix(line@),
                !insert_skipped(line@, self@.lines),
                first_gt_from(self@.lines, key_prefix(line@), 0) == first_gt_from(
                    self@.lines,
                    key_prefix(line@),
                    i as int,
                ),
            decreases n - i,
        {
            if str_gt_ignore_ascii_case(self.lines[i].as_str(), prefix) {
                let ghost prior = self@.lines;
                self.lines.insert(i, line.to_owned());
                proof {
                    assert(first_gt_from(prior, key_prefix(line@), i as int) == Some(i as int));
                    assert(self@.lines =~= prior.insert(i as int, line@));
                }
                return true;
            }
            assert(first_gt_from(self@.lines, key_prefix(line@), i as int) == first_gt_from(
                self@.lines,
                key_prefix(line@),
                i as int + 1,
            ));
            i = i + 1;
        }
        assert(first_gt_index(self@.lines, key_prefix(line@)) is None);
        let mut i: usize = n;
        while i > 0
            invariant
                n == self@.lines.len(),
                0 <= i <= n,
                *self == *old(self),
                !insert_skipped(line@, self@.lines),
                first_gt_index(self@.lines, key_prefix(line@)) is None,
                last_nonempty_from(self@.lines, n as int - 1) == last_nonempty_from(
                    self@.lines,
                    i as int - 1,
                ),
            decreases i,
        {
            i = i - 1;
            if !self.lines[i].as_str().is_empty() {
                let ghost prior = self@.lines;
                self.lines.insert(i + 1, line.to_owned());
                proof {
                    assert(last_nonempty_from(prior, i as int) == Some(i as int));
                    assert(self@.lines =~= prior.insert(i as int + 1, line@));
                }
                return true;
            }
            assert(last_nonempty_from(self@.lines, i as int) == last_nonempty_from(
                self@.lines,
                i as int - 1,
            ));
        }
        assert(last_nonempty_index(self@.lines) is None);
        true
    }

    /// Prepends a single `#` to every key line of this section that is
    /// retired against `other`: its key prefix carries neither the exempt
    /// token nor a leading `#`, and no line of `other` starts with it.
    /// Every other line, non-key lines included, is left untouched; no line
    /// is ever added or removed.
    pub fn comment_out_lines_if_not_in(&mut self, other: &Section)
        ensures
            final(self)@.name == old(self)@.name,
            final(self)@.title_line == old(self)@.title_line,
            final(self)@.lines.len() == old(self)@.lines.len(),
            forall|i: int|
                0 <= i < old(self)@.lines.len() ==> final(self)@.lines[i] == commented_line(
                    old(self)@.lines[i],
                    other@.lines,
                ),
    {
        let n = self.lines.len();
        let mut i: usize = 0;
        while i < n
            invariant
                n == self@.lines.len(),
                self@.lines.len() == old(self)@.lines.len(),
                self@.name == old(self)@.name,
                self@.title_line == old(self)@.title_line,
                0 <= i <= n,
                forall|k: int|
                    0 <= k < i ==> self@.lines[k] == commented_line(
                        old(self)@.lines[k],
                        other@.lines,
                    ),
                forall|k: int| i <= k < n ==> self@.lines[k] == old(self)@.lines[k],
            decreases n - i,
        {
            if line_retires(self.lines[i].as_str(), other) {
                let commented = String::from_str("#").concat(self.lines[i].as_str());
                proof {
                    reveal_strlit("#");
                    assert(commented@ =~= seq!['#'] + old(self)@.lines[i as int]);
                }
                let ghost prior = self@.lines;
                self.lines.set(i, commented);
                proof {
                    assert(self@.lines =~= prior.update(i as int, commented@));
                }
            }
            i = i + 1;
        }
    }

    /// Removes every key line of this section that is retired against
    /// `other`: its key prefix carries neither the exempt token nor a
    /// leading `#`, and no line of `other` starts with it. Every other
    /// line, non-key lines included, is kept, in order.
    pub fn remove_lines_if_not_in(&mut self, other: &Section)
        ensures
            final(self)@.name == old(self)@.name,
            final(self)@.title_line == old(self)@.title_line,
            final(self)@.lines == retained_lines(old(self)@.lines, other@.lines),
    {
        let n = self.lines.len();
        let mut kept: Vec<String> = Vec::new();
        let mut i: usize = 0;
        while i < n
            invariant
                n == self@.lines.len(),
                *self == *old(self),
                0 <= i <= n,
                kept.deep_view() == retained_lines(self@.lines.take(i as int), other@.lines),
            decreases n - i,
        {
            let ghost prior = kept.deep_view();
            if !line_retires(self.lines[i].as_str(), other) {
                kept.push(self.lines[i].clone());
                assert(kept.deep_view() =~= prior.push(self@.lines[i as int]));
            }
            proof {
                assert(self@.lines.take(i as int + 1).drop_last() =~= self@.lines.take(i as int));
                assert(self@.lines.take(i as int + 1).last() == self@.lines[i as int]);
            }
            i = i + 1;
        }
        proof {
            assert(self@.lines.take(n as int) =~= self@.lines);
        }
        self.lines = kept;
    }
}

} // verus!
