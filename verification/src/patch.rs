//! Unified diffs: the hunks of a patch, their lines with the numbers they
//! carry on both sides, and the lines that a comment can be put on.

use vstd::prelude::*;
use crate::text::{
    chars_of, has_prefix, index_of, lines, parse_u64, parsed_u64, position_of, rows, slice_of,
    split_lines, split_words, starts_with, text_of, words,
};

verus! {

/// One line of a hunk.
#[derive(Debug, Clone)]
pub struct DiffLine {
    /// The number of the line on the old side, if it stands there.
    pub old_line: Option<u64>,
    /// The number of the line on the new side, if it stands there.
    pub new_line: Option<u64>,
    /// `add`, `delete` or `context`.
    pub kind: String,
    pub content: String,
    /// Whether a comment can be put on the line.
    pub commentable: bool,
}

/// One hunk of a patch.
#[derive(Debug)]
pub struct DiffHunk {
    pub old_start: u64,
    pub old_count: u64,
    pub new_start: u64,
    pub new_count: u64,
    pub header: String,
    pub lines: Vec<DiffLine>,
}

/// What a line of a hunk says.
pub struct LineText {
    pub old_line: Option<u64>,
    pub new_line: Option<u64>,
    pub kind: Seq<char>,
    pub content: Seq<char>,
    pub commentable: bool,
}

/// What a hunk says.
pub struct HunkText {
    pub old_start: u64,
    pub old_count: u64,
    pub new_start: u64,
    pub new_count: u64,
    pub header: Seq<char>,
    pub lines: Seq<LineText>,
}

impl View for DiffLine {
    type V = LineText;

    open spec fn view(&self) -> LineText {
        LineText {
            old_line: self.old_line,
            new_line: self.new_line,
            kind: self.kind@,
            content: self.content@,
            commentable: self.commentable,
        }
    }
}

/// What each line says.
pub open spec fn line_texts(v: Seq<DiffLine>) -> Seq<LineText> {
    v.map_values(|l: DiffLine| l@)
}

impl View for DiffHunk {
    type V = HunkText;

    open spec fn view(&self) -> HunkText {
        HunkText {
            old_start: self.old_start,
            old_count: self.old_count,
            new_start: self.new_start,
            new_count: self.new_count,
            header: self.header@,
            lines: line_texts(self.lines@),
        }
    }
}

/// What each hunk says.
pub open spec fn hunk_texts(v: Seq<DiffHunk>) -> Seq<HunkText> {
    v.map_values(|h: DiffHunk| h@)
}

/// The number in a text, and 0 where it holds none.
pub open spec fn number_or_zero(s: Seq<char>) -> u64 {
    match parsed_u64(s) {
        Some(n) => n,
        None => 0,
    }
}

/// Start and count of a range `start,count`; a range without a comma is
/// a start with the count 1. A number that cannot be read counts as 0.
pub open spec fn range_of(s: Seq<char>) -> (u64, u64) {
    let comma = index_of(s, ',', 0);
    if 0 <= comma < s.len() {
        (
            number_or_zero(s.subrange(0, comma)),
            number_or_zero(s.subrange(comma + 1, s.len() as int)),
        )
    } else {
        (number_or_zero(s), 1)
    }
}

/// A text without its first character.
pub open spec fn tail(s: Seq<char>) -> Seq<char> {
    if s.len() > 0 {
        s.subrange(1, s.len() as int)
    } else {
        s
    }
}

/// The old and the new range of a hunk header: its second and third word,
/// each without its sign. A missing word counts as the range `0,0`.
pub open spec fn header_of(line: Seq<char>) -> (u64, u64, u64, u64) {
    let w = words(line);
    let old = if w.len() > 1 {
        w[1]
    } else {
        "-0,0"@
    };
    let new = if w.len() > 2 {
        w[2]
    } else {
        "+0,0"@
    };
    (range_of(tail(old)).0, range_of(tail(old)).1, range_of(tail(new)).0, range_of(tail(new)).1)
}

/// The number after `n`; after the largest number the count starts anew.
pub open spec fn after(n: u64) -> u64 {
    if n == u64::MAX {
        0
    } else {
        (n + 1) as u64
    }
}

/// Where the reading of a patch stands: the hunks that are closed, the
/// open hunk if there is one, and the numbers of the next line on both
/// sides.
pub struct PatchState {
    pub closed: Seq<HunkText>,
    pub open: Option<HunkText>,
    pub old_line: u64,
    pub new_line: u64,
}

/// The closed hunks and the open one.
pub open spec fn all_hunks(state: PatchState) -> Seq<HunkText> {
    match state.open {
        Some(h) => state.closed.push(h),
        None => state.closed,
    }
}

/// The open hunk with one more line.
pub open spec fn with_line(h: HunkText, line: LineText) -> HunkText {
    HunkText { lines: h.lines.push(line), ..h }
}

/// The state after one more line of the patch.
///
/// A line that begins with `@@` closes the open hunk and opens the next.
/// Before the first hunk every other line is passed over. In a hunk a line
/// that begins with `+` is an addition and counts on the new side, one that
/// begins with `-` is a deletion and counts on the old side, and any other
/// line is context, without the blank it may begin with, and counts on
/// both.
pub open spec fn read_line(state: PatchState, line: Seq<char>) -> PatchState {
    if starts_with(line, "@@"@) {
        let (os, oc, ns, nc) = header_of(line);
        PatchState {
            closed: all_hunks(state),
            open: Some(
                HunkText {
                    old_start: os,
                    old_count: oc,
                    new_start: ns,
                    new_count: nc,
                    header: line,
                    lines: Seq::empty(),
                },
            ),
            old_line: os,
            new_line: ns,
        }
    } else {
        match state.open {
            None => state,
            Some(h) => {
                if starts_with(line, "+"@) {
                    PatchState {
                        open: Some(
                            with_line(
                                h,
                                LineText {
                                    old_line: None,
                                    new_line: Some(state.new_line),
                                    kind: "add"@,
                                    content: tail(line),
                                    commentable: true,
                                },
                            ),
                        ),
                        new_line: after(state.new_line),
                        ..state
                    }
                } else if starts_with(line, "-"@) {
                    PatchState {
                        open: Some(
                            with_line(
                                h,
                                LineText {
                                    old_line: Some(state.old_line),
                                    new_line: None,
                                    kind: "delete"@,
                                    content: tail(line),
                                    commentable: false,
                                },
                            ),
                        ),
                        old_line: after(state.old_line),
                        ..state
                    }
                } else {
                    PatchState {
                        open: Some(
                            with_line(
                                h,
                                LineText {
                                    old_line: Some(state.old_line),
                                    new_line: Some(state.new_line),
                                    kind: "context"@,
                                    content: if starts_with(line, " "@) {
                                        tail(line)
                                    } else {
                                        line
                                    },
                                    commentable: true,
                                },
                            ),
                        ),
                        old_line: after(state.old_line),
                        new_line: after(state.new_line),
                        ..state
                    }
                }
            },
        }
    }
}

/// The state after the first `n` lines of a patch.
pub open spec fn state_after(all: Seq<Seq<char>>, n: int) -> PatchState
    decreases n,
{
    if n <= 0 {
        PatchState { closed: Seq::empty(), open: None, old_line: 0, new_line: 0 }
    } else {
        read_line(state_after(all, n - 1), all[n - 1])
    }
}

/// The hunks of a patch.
pub open spec fn hunks_of(patch: Seq<char>) -> Seq<HunkText> {
    all_hunks(state_after(lines(patch), lines(patch).len() as int))
}

/// The new-side numbers of the first `n` lines that a comment can be put
/// on.
pub open spec fn commentable_in(lines: Seq<LineText>, n: int) -> Seq<u64>
    decreases n,
{
    if n <= 0 {
        Seq::empty()
    } else if lines[n - 1].commentable && lines[n - 1].new_line is Some {
        commentable_in(lines, n - 1).push(lines[n - 1].new_line->0)
    } else {
        commentable_in(lines, n - 1)
    }
}

/// The new-side numbers of the commentable lines of the first `m` hunks.
pub open spec fn commentable_upto(hunks: Seq<HunkText>, m: int) -> Seq<u64>
    decreases m,
{
    if m <= 0 {
        Seq::empty()
    } else {
        commentable_upto(hunks, m - 1) + commentable_in(
            hunks[m - 1].lines,
            hunks[m - 1].lines.len() as int,
        )
    }
}

/// The number in a text, and 0 where it holds none.
fn read_number(s: &[char]) -> (n: u64)
    ensures
        n == number_or_zero(s@),
{
    match parse_u64(s) {
        Some(n) => n,
        None => 0,
    }
}

/// Start and count of a range `start,count`.
pub fn parse_range(s: &[char]) -> (r: (u64, u64))
    ensures
        r == range_of(s@),
{
    let comma = position_of(s, ',');
    if comma < s.len() {
        let start = slice_of(s, 0, comma);
        let count = slice_of(s, comma + 1, s.len());
        (read_number(start.as_slice()), read_number(count.as_slice()))
    } else {
        (read_number(s), 1)
    }
}

/// A copy of `s` without its first character.
fn rest(s: &[char]) -> (v: Vec<char>)
    ensures
        v@ == tail(s@),
{
    if s.len() > 0 {
        slice_of(s, 1, s.len())
    } else {
        assert(s@ =~= Seq::<char>::empty());
        Vec::new()
    }
}

/// The old start and count and the new start and count of a hunk header.
pub fn parse_hunk_header(header: &[char]) -> (r: (u64, u64, u64, u64))
    ensures
        r == header_of(header@),
{
    let w = split_words(header);
    let old: Vec<char> = if w.len() > 1 {
        assert(rows(w@)[1] == w@[1]@);
        rest(w[1].as_slice())
    } else {
        let word = chars_of("-0,0");
        rest(word.as_slice())
    };
    let new: Vec<char> = if w.len() > 2 {
        assert(rows(w@)[2] == w@[2]@);
        rest(w[2].as_slice())
    } else {
        let word = chars_of("+0,0");
        rest(word.as_slice())
    };
    let (os, oc) = parse_range(old.as_slice());
    let (ns, nc) = parse_range(new.as_slice());
    (os, oc, ns, nc)
}

/// The number after `n`.
fn next(n: u64) -> (r: u64)
    ensures
        r == after(n),
{
    if n == u64::MAX {
        0
    } else {
        n + 1
    }
}

/// The hunks of a unified diff, in order, each with its lines.
///
/// What stands before the first hunk header is passed over. A header whose
/// ranges cannot be read counts from 0.
pub fn parse_patch(patch: &str) -> (hunks: Vec<DiffHunk>)
    ensures
        hunk_texts(hunks@) == hunks_of(patch@),
{
    let text = chars_of(patch);
    let ls = split_lines(text.as_slice());
    let ghost all = lines(patch@);
    let mut hunks: Vec<DiffHunk> = Vec::new();
    let mut open = false;
    let mut old_start: u64 = 0;
    let mut old_count: u64 = 0;
    let mut new_start: u64 = 0;
    let mut new_count: u64 = 0;
    let mut header: Vec<char> = Vec::new();
    let mut current: Vec<DiffLine> = Vec::new();
    let mut old_line: u64 = 0;
    let mut new_line: u64 = 0;
    let mut i: usize = 0;
    while i < ls.len()
        invariant
            i <= ls@.len(),
            rows(ls@) == all,
            hunk_texts(hunks@) == state_after(all, i as int).closed,
            open == (state_after(all, i as int).open is Some),
            open ==> state_after(all, i as int).open->0 == (HunkText {
                old_start,
                old_count,
                new_start,
                new_count,
                header: header@,
                lines: line_texts(current@),
            }),
            old_line == state_after(all, i as int).old_line,
            new_line == state_after(all, i as int).new_line,
        decreases ls@.len() - i,
    {
        let line = ls[i].as_slice();
        assert(line@ == all[i as int]) by {
            assert(rows(ls@)[i as int] == ls@[i as int]@);
        }
        let ghost before = state_after(all, i as int);
        assert(state_after(all, i + 1) == read_line(before, line@));
        if has_prefix(line, "@@") {
            if open {
                let ghost closed = hunk_texts(hunks@);
                let hunk = DiffHunk {
                    old_start,
                    old_count,
                    new_start,
                    new_count,
                    header: text_of(header.as_slice()),
                    lines: current,
                };
                hunks.push(hunk);
                assert(hunk_texts(hunks@) =~= closed.push(before.open->0));
            }
            let (os, oc, ns, nc) = parse_hunk_header(line);
            old_start = os;
            old_count = oc;
            new_start = ns;
            new_count = nc;
            header = slice_of(line, 0, line.len());
            assert(header@ =~= line@);
            current = Vec::new();
            assert(line_texts(current@) =~= Seq::<LineText>::empty());
            old_line = os;
            new_line = ns;
            open = true;
        } else if open {
            let ghost shown = line_texts(current@);
            if has_prefix(line, "+") {
                let content = rest(line);
                current.push(
                    DiffLine {
                        old_line: None,
                        new_line: Some(new_line),
                        kind: text_of(chars_of("add").as_slice()),
                        content: text_of(content.as_slice()),
                        commentable: true,
                    },
                );
                new_line = next(new_line);
            } else if has_prefix(line, "-") {
                let content = rest(line);
                current.push(
                    DiffLine {
                        old_line: Some(old_line),
                        new_line: None,
                        kind: text_of(chars_of("delete").as_slice()),
                        content: text_of(content.as_slice()),
                        commentable: false,
                    },
                );
                old_line = next(old_line);
            } else {
                let content = if has_prefix(line, " ") {
                    rest(line)
                } else {
                    let whole = slice_of(line, 0, line.len());
                    assert(whole@ =~= line@);
                    whole
                };
                current.push(
                    DiffLine {
                        old_line: Some(old_line),
                        new_line: Some(new_line),
                        kind: text_of(chars_of("context").as_slice()),
                        content: text_of(content.as_slice()),
                        commentable: true,
                    },
                );
                old_line = next(old_line);
                new_line = next(new_line);
            }
            assert(line_texts(current@) =~= shown.push(current@[current@.len() - 1]@));
        }
        i += 1;
    }
    if open {
        let ghost closed = hunk_texts(hunks@);
        let hunk = DiffHunk {
            old_start,
            old_count,
            new_start,
            new_count,
            header: text_of(header.as_slice()),
            lines: current,
        };
        hunks.push(hunk);
        assert(hunk_texts(hunks@) =~= closed.push(state_after(all, all.len() as int).open->0));
    }
    hunks
}

/// The new-side numbers of the lines that a comment can be put on, hunk by
/// hunk and line by line.
pub fn commentable_lines(hunks: &[DiffHunk]) -> (numbers: Vec<u64>)
    ensures
        numbers@ == commentable_upto(hunk_texts(hunks@), hunks@.len() as int),
{
    let ghost all = hunk_texts(hunks@);
    let mut numbers: Vec<u64> = Vec::new();
    let mut m: usize = 0;
    while m < hunks.len()
        invariant
            m <= hunks@.len(),
            all == hunk_texts(hunks@),
            numbers@ == commentable_upto(all, m as int),
        decreases hunks@.len() - m,
    {
        let hunk = &hunks[m];
        let ghost shown = all[m as int].lines;
        assert(shown == line_texts(hunk.lines@));
        let ghost start = numbers@;
        let mut k: usize = 0;
        while k < hunk.lines.len()
            invariant
                k <= hunk.lines@.len(),
                shown == line_texts(hunk.lines@),
                numbers@ == start + commentable_in(shown, k as int),
            decreases hunk.lines@.len() - k,
        {
            let line = &hunk.lines[k];
            assert(shown[k as int] == line@);
            if line.commentable {
                match line.new_line {
                    Some(n) => {
                        numbers.push(n);
                        assert(numbers@ =~= start + commentable_in(shown, k + 1));
                    },
                    None => {},
                }
            }
            k += 1;
        }
        m += 1;
    }
    numbers
}

} // verus!
