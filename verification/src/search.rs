//! A search for a pattern in the lines of files, and the report of what
//! was found.

use vstd::prelude::*;
use crate::text::{
    byte_len, chars_of, contains, count_distinct, decimal, find, first_occurrence,
    is_first_occurrence, joined_with, lemma_joined_prefix, lines, lowercase, occurs_at, push_all,
    push_decimal, push_str, rows, slice_of, split_lines, text_of, text_pairs, texts, to_lowercase,
    width,
};

verus! {

/// A line that holds the pattern.
#[derive(Debug)]
pub struct SearchMatch {
    pub file: String,
    /// The number of the line in its file, from 1.
    pub line: usize,
    /// The place of the pattern in the line, in bytes and from 1; a place
    /// beyond the largest `usize` is given as that.
    pub column: usize,
    pub text: String,
    /// The lines before the match, nearest last.
    pub context_before: Vec<String>,
    /// The lines after the match, nearest first.
    pub context_after: Vec<String>,
}

/// What a match says.
pub struct MatchText {
    pub file: Seq<char>,
    pub line: nat,
    pub column: nat,
    pub text: Seq<char>,
    pub context_before: Seq<Seq<char>>,
    pub context_after: Seq<Seq<char>>,
}

impl View for SearchMatch {
    type V = MatchText;

    open spec fn view(&self) -> MatchText {
        MatchText {
            file: self.file@,
            line: self.line as nat,
            column: self.column as nat,
            text: self.text@,
            context_before: texts(self.context_before@),
            context_after: texts(self.context_after@),
        }
    }
}

impl SearchMatch {
    /// The lines of context lie within the file: there are no more lines
    /// before the match than its number allows, and the numbers of those
    /// after it can be counted.
    pub open spec fn wf(&self) -> bool {
        self.context_before@.len() <= self.line && self.line + self.context_after@.len()
            <= usize::MAX
    }
}

/// What each match says.
pub open spec fn match_texts(v: Seq<SearchMatch>) -> Seq<MatchText> {
    v.map_values(|m: SearchMatch| m@)
}

/// A count as `usize`: itself where it fits, else the largest `usize`.
pub open spec fn clipped(n: nat) -> nat {
    if n <= usize::MAX {
        n
    } else {
        usize::MAX as nat
    }
}

/// The text that a search compares: the text itself, or its lower-case
/// form where case does not count.
pub open spec fn folded(s: Seq<char>, case_sensitive: bool) -> Seq<char> {
    if case_sensitive {
        s
    } else {
        lowercase(s)
    }
}

/// Whether a line holds the pattern.
pub open spec fn is_hit(line: Seq<char>, pattern: Seq<char>, case_sensitive: bool) -> bool {
    contains(folded(line, case_sensitive), folded(pattern, case_sensitive))
}

/// The match on line `i` of a file: the line with up to `context` lines
/// on either side, and the byte at which the pattern first occurs in the
/// compared text.
pub open spec fn match_on(
    file: Seq<char>,
    all: Seq<Seq<char>>,
    i: int,
    pattern: Seq<char>,
    case_sensitive: bool,
    context: nat,
) -> MatchText {
    let hay = folded(all[i], case_sensitive);
    let start = if i >= context {
        i - context
    } else {
        0
    };
    let end = if i + context + 1 <= all.len() {
        i + context + 1
    } else {
        all.len() as int
    };
    MatchText {
        file,
        line: (i + 1) as nat,
        column: clipped(
            byte_len(hay, first_occurrence(hay, folded(pattern, case_sensitive))) + 1,
        ),
        text: all[i],
        context_before: all.subrange(start, i),
        context_after: all.subrange(i + 1, end),
    }
}

/// The matches on the first `n` lines of a file.
pub open spec fn matches_in(
    file: Seq<char>,
    all: Seq<Seq<char>>,
    n: int,
    pattern: Seq<char>,
    case_sensitive: bool,
    context: nat,
) -> Seq<MatchText>
    decreases n,
{
    if n <= 0 {
        Seq::empty()
    } else if is_hit(all[n - 1], pattern, case_sensitive) {
        matches_in(file, all, n - 1, pattern, case_sensitive, context).push(
            match_on(file, all, n - 1, pattern, case_sensitive, context),
        )
    } else {
        matches_in(file, all, n - 1, pattern, case_sensitive, context)
    }
}

/// The matches in the first `m` files.
pub open spec fn matches_upto(
    files: Seq<(Seq<char>, Seq<char>)>,
    m: int,
    pattern: Seq<char>,
    case_sensitive: bool,
    context: nat,
) -> Seq<MatchText>
    decreases m,
{
    if m <= 0 {
        Seq::empty()
    } else {
        matches_upto(files, m - 1, pattern, case_sensitive, context) + matches_in(
            files[m - 1].0,
            lines(files[m - 1].1),
            lines(files[m - 1].1).len() as int,
            pattern,
            case_sensitive,
            context,
        )
    }
}

/// The compared form of a text.
fn fold(s: &[char], case_sensitive: bool) -> (v: Vec<char>)
    ensures
        v@ == folded(s@, case_sensitive),
{
    if case_sensitive {
        let v = slice_of(s, 0, s.len());
        assert(v@ =~= s@);
        v
    } else {
        let t = text_of(s);
        let lower = to_lowercase(t.as_str());
        chars_of(lower.as_str())
    }
}

/// Copies of the lines `from..to` as strings.
fn strings_of(ls: &Vec<Vec<char>>, from: usize, to: usize) -> (v: Vec<String>)
    requires
        from <= to <= ls@.len(),
    ensures
        texts(v@) == rows(ls@).subrange(from as int, to as int),
{
    let mut v: Vec<String> = Vec::new();
    let mut k: usize = from;
    while k < to
        invariant
            from <= k <= to <= ls@.len(),
            v@.len() == k - from,
            forall|j: int| 0 <= j < k - from ==> (#[trigger] v@[j])@ == ls@[from + j]@,
        decreases to - k,
    {
        v.push(text_of(ls[k].as_slice()));
        k += 1;
    }
    assert(texts(v@) =~= rows(ls@).subrange(from as int, to as int));
    v
}

/// Appends the matches in the lines of one text.
pub(crate) fn grep_into(
    found: &mut Vec<SearchMatch>,
    file: &String,
    content: &str,
    needle: &[char],
    case_sensitive: bool,
    context_lines: usize,
    Ghost(pattern): Ghost<Seq<char>>,
)
    requires
        needle@ == folded(pattern, case_sensitive),
        forall|k: int| 0 <= k < old(found)@.len() ==> (#[trigger] old(found)@[k]).wf(),
    ensures
        match_texts(final(found)@) == match_texts(old(found)@) + matches_in(
            file@,
            lines(content@),
            lines(content@).len() as int,
            pattern,
            case_sensitive,
            context_lines as nat,
        ),
        forall|k: int| 0 <= k < final(found)@.len() ==> (#[trigger] final(found)@[k]).wf(),
{
    let text = chars_of(content);
    let ls = split_lines(text.as_slice());
    let ghost all = lines(content@);
    let ghost ctx = context_lines as nat;
    let ghost start = match_texts(found@);
    let total: usize = ls.len();
    let mut i: usize = 0;
    assert(match_texts(found@) =~= start + matches_in(file@, all, 0, pattern, case_sensitive, ctx));
    while i < total
        invariant
            i <= total,
            total == ls@.len(),
            rows(ls@) == all,
            ctx == context_lines,
            needle@ == folded(pattern, case_sensitive),
            match_texts(found@) == start + matches_in(
                file@,
                all,
                i as int,
                pattern,
                case_sensitive,
                ctx,
            ),
            forall|k: int| 0 <= k < found@.len() ==> (#[trigger] found@[k]).wf(),
        decreases total - i,
    {
        let line = ls[i].as_slice();
        assert(line@ == all[i as int]) by {
            assert(rows(ls@)[i as int] == ls@[i as int]@);
        }
        let hay = fold(line, case_sensitive);
        match find(hay.as_slice(), needle) {
            Some(at) => {
                proof {
                    let first = first_occurrence(hay@, needle@);
                    assert(is_first_occurrence(hay@, needle@, at as int));
                    assert(is_first_occurrence(hay@, needle@, first));
                    assert(first == at) by {
                        if first < at {
                            assert(!occurs_at(hay@, needle@, first));
                        }
                        if at < first {
                            assert(!occurs_at(hay@, needle@, at as int));
                        }
                    }
                }
                let mut bytes: u128 = 0;
                let mut k: usize = 0;
                while k < at
                    invariant
                        k <= at <= hay@.len(),
                        bytes == byte_len(hay@, k as int),
                        bytes <= 4 * k,
                    decreases at - k,
                {
                    bytes = bytes + width(hay[k]) as u128;
                    k += 1;
                }
                let column: usize = if bytes + 1 <= usize::MAX as u128 {
                    (bytes + 1) as usize
                } else {
                    usize::MAX
                };
                let from: usize = if i >= context_lines {
                    i - context_lines
                } else {
                    0
                };
                let to: usize = if context_lines < total - i - 1 {
                    i + context_lines + 1
                } else {
                    total
                };
                let ghost shown = match_texts(found@);
                let hit = SearchMatch {
                    file: file.clone(),
                    line: i + 1,
                    column,
                    text: text_of(line),
                    context_before: strings_of(&ls, from, i),
                    context_after: strings_of(&ls, i + 1, to),
                };
                assert(hit@ == match_on(file@, all, i as int, pattern, case_sensitive, ctx));
                assert(hit.wf()) by {
                    assert(texts(hit.context_before@).len() == i - from);
                    assert(texts(hit.context_after@).len() == to - i - 1);
                }
                let ghost kept = found@;
                found.push(hit);
                assert forall|k: int| 0 <= k < found@.len() implies (#[trigger] found@[k]).wf() by {
                    if k < kept.len() {
                        assert(found@[k] == kept[k]);
                    }
                }
                assert(match_texts(found@) =~= shown.push(
                    match_on(file@, all, i as int, pattern, case_sensitive, ctx),
                ));
            },
            None => {},
        }
        i += 1;
    }
}

/// The compared form of a pattern.
pub fn fold_pattern(pattern: &str, case_sensitive: bool) -> (needle: Vec<char>)
    ensures
        needle@ == folded(pattern@, case_sensitive),
{
    let given = chars_of(pattern);
    fold(given.as_slice(), case_sensitive)
}

/// The lines of the files that hold the pattern, file by file and line by
/// line, each with up to `context_lines` lines on either side. Without
/// `case_sensitive` the lower-case forms of line and pattern are compared.
pub fn grep_files(
    files: &[(String, String)],
    pattern: &str,
    case_sensitive: bool,
    context_lines: usize,
) -> (found: Vec<SearchMatch>)
    ensures
        match_texts(found@) == matches_upto(
            text_pairs(files@),
            files@.len() as int,
            pattern@,
            case_sensitive,
            context_lines as nat,
        ),
        forall|k: int| 0 <= k < found@.len() ==> (#[trigger] found@[k]).wf(),
{
    let needle = fold_pattern(pattern, case_sensitive);
    let ghost all_files = text_pairs(files@);
    let ghost ctx = context_lines as nat;
    let mut found: Vec<SearchMatch> = Vec::new();
    assert(match_texts(found@) =~= matches_upto(all_files, 0, pattern@, case_sensitive, ctx));
    let mut m: usize = 0;
    while m < files.len()
        invariant
            m <= files@.len(),
            all_files == text_pairs(files@),
            ctx == context_lines,
            needle@ == folded(pattern@, case_sensitive),
            match_texts(found@) == matches_upto(all_files, m as int, pattern@, case_sensitive, ctx),
            forall|k: int| 0 <= k < found@.len() ==> (#[trigger] found@[k]).wf(),
        decreases files@.len() - m,
    {
        assert(all_files[m as int] == (files@[m as int].0@, files@[m as int].1@));
        grep_into(
            &mut found,
            &files[m].0,
            files[m].1.as_str(),
            needle.as_slice(),
            case_sensitive,
            context_lines,
            Ghost(pattern@),
        );
        m += 1;
    }
    found
}

/// A line of the report: file, line number, a separator and the text.
pub open spec fn numbered(file: Seq<char>, number: nat, sep: Seq<char>, text: Seq<char>) -> Seq<
    char,
> {
    file + ":"@ + decimal(number) + sep + text
}

/// The first `n` lines of context as lines of the report, numbered from
/// `first`.
pub open spec fn context_rows(file: Seq<char>, first: int, context: Seq<Seq<char>>, n: int) -> Seq<
    Seq<char>,
>
    decreases n,
{
    if n <= 0 {
        Seq::empty()
    } else {
        context_rows(file, first, context, n - 1).push(
            numbered(file, (first + n - 1) as nat, "- "@, context[n - 1]),
        )
    }
}

/// The lines of the report for one match: the context before it, the
/// matching line, the context after it.
pub open spec fn match_rows(m: MatchText) -> Seq<Seq<char>> {
    context_rows(
        m.file,
        m.line - m.context_before.len(),
        m.context_before,
        m.context_before.len() as int,
    ).push(numbered(m.file, m.line, ":"@, m.text)) + context_rows(
        m.file,
        (m.line + 1) as int,
        m.context_after,
        m.context_after.len() as int,
    )
}

/// The lines of the report for the first `n` matches. An empty line stands
/// before the first match of each file but the first.
pub open spec fn report_rows(ms: Seq<MatchText>, n: int) -> Seq<Seq<char>>
    decreases n,
{
    if n <= 0 {
        Seq::empty()
    } else {
        let before = report_rows(ms, n - 1);
        let last_file = if n >= 2 {
            ms[n - 2].file
        } else {
            Seq::empty()
        };
        if ms[n - 1].file != last_file && before.len() > 0 {
            before.push(Seq::empty()) + match_rows(ms[n - 1])
        } else {
            before + match_rows(ms[n - 1])
        }
    }
}

/// The files of the matches, in order.
pub open spec fn matched_files(ms: Seq<MatchText>) -> Seq<Seq<char>> {
    ms.map_values(|m: MatchText| m.file)
}

/// The last line of the report: how many matches in how many files.
pub open spec fn summary(ms: Seq<MatchText>) -> Seq<char> {
    "\n"@ + decimal(ms.len()) + " matches across "@ + decimal(
        matched_files(ms).to_set().len(),
    ) + " files"@
}

/// The report of a search: a line for each match and each line of its
/// context, and the summary; or the notice that nothing was found.
pub open spec fn report(ms: Seq<MatchText>) -> Seq<char> {
    if ms.len() == 0 {
        "No matches found."@
    } else {
        let rows = report_rows(ms, ms.len() as int).push(summary(ms));
        joined_with(rows, "\n"@, rows.len() as int)
    }
}

/// Appends a row to the text of the rows before it.
fn push_row(out: &mut Vec<char>, row: &[char], any: bool, Ghost(rows): Ghost<Seq<Seq<char>>>)
    requires
        old(out)@ == joined_with(rows, "\n"@, rows.len() as int),
        any == (rows.len() > 0),
    ensures
        final(out)@ == joined_with(rows.push(row@), "\n"@, (rows.len() + 1) as int),
{
    let ghost longer = rows.push(row@);
    if any {
        assert(joined_with(longer, "\n"@, rows.len() as int) == joined_with(
            rows,
            "\n"@,
            rows.len() as int,
        )) by {
            lemma_joined_prefix(rows, longer, "\n"@, rows.len() as int);
        }
        push_str(out, "\n");
        push_all(out, row);
    } else {
        push_all(out, row);
        assert(out@ =~= row@);
    }
}

/// A row of the report.
fn row_of(file: &String, number: usize, sep: &str, text: &String) -> (row: Vec<char>)
    ensures
        row@ == numbered(file@, number as nat, sep@, text@),
{
    let mut row: Vec<char> = Vec::new();
    push_str(&mut row, file.as_str());
    push_str(&mut row, ":");
    push_decimal(&mut row, number as u64);
    push_str(&mut row, sep);
    push_str(&mut row, text.as_str());
    assert(row@ =~= numbered(file@, number as nat, sep@, text@));
    row
}

/// Appends the rows of some lines of context.
fn push_context(
    out: &mut Vec<char>,
    file: &String,
    first: usize,
    context: &Vec<String>,
    any: bool,
    Ghost(rows): Ghost<Seq<Seq<char>>>,
)
    requires
        old(out)@ == joined_with(rows, "\n"@, rows.len() as int),
        any == (rows.len() > 0),
        first + context@.len() <= usize::MAX + 1,
    ensures
        final(out)@ == joined_with(
            rows + context_rows(file@, first as int, texts(context@), context@.len() as int),
            "\n"@,
            (rows.len() + context@.len()) as int,
        ),
        context_rows(file@, first as int, texts(context@), context@.len() as int).len()
            == context@.len(),
{
    let ghost shown = texts(context@);
    let mut j: usize = 0;
    assert(rows + context_rows(file@, first as int, shown, 0) =~= rows);
    while j < context.len()
        invariant
            j <= context@.len(),
            first + context@.len() <= usize::MAX + 1,
            any == (rows.len() > 0),
            shown == texts(context@),
            context_rows(file@, first as int, shown, j as int).len() == j,
            out@ == joined_with(
                rows + context_rows(file@, first as int, shown, j as int),
                "\n"@,
                (rows.len() + j) as int,
            ),
        decreases context@.len() - j,
    {
        let row = row_of(file, first + j, "- ", &context[j]);
        let ghost so_far = rows + context_rows(file@, first as int, shown, j as int);
        push_row(out, row.as_slice(), any || j > 0, Ghost(so_far));
        assert(so_far.push(row@) =~= rows + context_rows(file@, first as int, shown, j + 1));
        j += 1;
    }
}

/// The number of different files among the matches.
fn count_files(matches: &[SearchMatch]) -> (n: usize)
    ensures
        n == matched_files(match_texts(matches@)).to_set().len(),
{
    let mut files: Vec<Vec<char>> = Vec::new();
    let mut i: usize = 0;
    while i < matches.len()
        invariant
            i <= matches@.len(),
            files@.len() == i,
            forall|k: int| 0 <= k < i ==> (#[trigger] files@[k])@ == matches@[k].file@,
        decreases matches@.len() - i,
    {
        files.push(chars_of(matches[i].file.as_str()));
        i += 1;
    }
    assert(rows(files@) =~= matched_files(match_texts(matches@)));
    count_distinct(&files)
}

/// The report of a search, as text.
pub fn format_matches(matches: &[SearchMatch]) -> (text: String)
    requires
        forall|k: int| 0 <= k < matches@.len() ==> (#[trigger] matches@[k]).wf(),
    ensures
        text@ == report(match_texts(matches@)),
{
    if matches.len() == 0 {
        let mut out: Vec<char> = Vec::new();
        push_str(&mut out, "No matches found.");
        assert(out@ =~= "No matches found."@);
        return text_of(out.as_slice());
    }
    let ghost ms = match_texts(matches@);
    let mut out: Vec<char> = Vec::new();
    let ghost mut rows: Seq<Seq<char>> = Seq::empty();
    let mut any = false;
    let mut i: usize = 0;
    while i < matches.len()
        invariant
            i <= matches@.len(),
            ms == match_texts(matches@),
            forall|k: int| 0 <= k < matches@.len() ==> (#[trigger] matches@[k]).wf(),
            rows == report_rows(ms, i as int),
            any == (rows.len() > 0),
            out@ == joined_with(rows, "\n"@, rows.len() as int),
        decreases matches@.len() - i,
    {
        let m = &matches[i];
        assert(ms[i as int] == m@);
        assert(m.wf());
        let same_file = if i >= 1 {
            assert(ms[i - 1] == matches@[i - 1]@);
            matches[i - 1].file == m.file
        } else {
            m.file.as_str().unicode_len() == 0
        };
        let ghost base = rows;
        if !same_file && any {
            let blank: Vec<char> = Vec::new();
            push_row(&mut out, blank.as_slice(), any, Ghost(rows));
            proof {
                assert(blank@ =~= Seq::<char>::empty());
                rows = rows.push(Seq::empty());
            }
        }
        let ghost head = rows;
        let ghost shown_before = texts(m.context_before@);
        let ghost shown_after = texts(m.context_after@);
        let first: usize = m.line - m.context_before.len();
        push_context(&mut out, &m.file, first, &m.context_before, any, Ghost(rows));
        proof {
            rows = rows + context_rows(
                m.file@,
                first as int,
                shown_before,
                shown_before.len() as int,
            );
        }
        let main = row_of(&m.file, m.line, ":", &m.text);
        push_row(&mut out, main.as_slice(), any || m.context_before.len() > 0, Ghost(rows));
        proof {
            rows = rows.push(main@);
        }
        if m.context_after.len() > 0 {
            push_context(&mut out, &m.file, m.line + 1, &m.context_after, true, Ghost(rows));
        }
        proof {
            rows = rows + context_rows(
                m.file@,
                m.line + 1,
                shown_after,
                shown_after.len() as int,
            );
            assert(rows =~= head + match_rows(m@));
            assert(rows == report_rows(ms, i + 1));
        }
        any = true;
        i += 1;
    }
    let files = count_files(matches);
    let mut last: Vec<char> = Vec::new();
    push_str(&mut last, "\n");
    push_decimal(&mut last, matches.len() as u64);
    push_str(&mut last, " matches across ");
    push_decimal(&mut last, files as u64);
    push_str(&mut last, " files");
    assert(last@ =~= summary(ms));
    push_row(&mut out, last.as_slice(), any, Ghost(rows));
    text_of(out.as_slice())
}

} // verus!
