//! The findings of a model's review: what counts as one, how the findings
//! of two passes are merged, and which of them are kept.

use vstd::prelude::*;
use crate::text::{opt_text, 
    chars_of, contains, decimal, has_prefix, is_last_occurrence, last_occurrence, lowercase,
    occurs_at,
    push_decimal, push_str, rfind, same, slice_of, starts_with, text_of, to_lowercase, trim, trimmed,
};

verus! {

/// One issue that a review found.
#[derive(Debug, Clone)]
pub struct Finding {
    pub issue: String,
    pub evidence: Option<String>,
    pub severity: Option<String>,
    pub file: Option<String>,
}

/// One entry of the list of issues in a model's answer.
#[derive(Debug, Clone)]
pub enum IssueValue {
    /// A text: the issue itself.
    Text(String),
    /// An object with the texts under its keys `issue`, `evidence`,
    /// `severity` and `file`, as far as it holds them.
    Object {
        issue: Option<String>,
        evidence: Option<String>,
        severity: Option<String>,
        file: Option<String>,
    },
    /// Anything else.
    Other,
}

/// What follows the first `n` characters of a text.
pub open spec fn skip(s: Seq<char>, n: int) -> Seq<char> {
    if 0 <= n <= s.len() {
        s.subrange(n, s.len() as int)
    } else {
        Seq::empty()
    }
}

/// A text without the code fence around it: what stands between an
/// opening fence, with or without the tag `json`, and the last fence after
/// it, or the end where no fence follows. A text that opens no fence is
/// itself. Whitespace around the result is dropped.
pub open spec fn unfenced(text: Seq<char>) -> Seq<char> {
    let t = trim(text);
    if starts_with(t, "```"@) {
        let after = skip(t, 3);
        let inner = if starts_with(after, "json"@) {
            skip(after, 4)
        } else {
            after
        };
        if contains(inner, "```"@) {
            trim(inner.subrange(0, last_occurrence(inner, "```"@)))
        } else {
            trim(inner)
        }
    } else {
        t
    }
}

/// A model's answer without the code fence around it.
pub fn strip_code_fences(text: &str) -> (r: String)
    ensures
        r@ == unfenced(text@),
{
    let all = chars_of(text);
    let t = trimmed(all.as_slice());
    proof {
        reveal_strlit("```");
        reveal_strlit("json");
    }
    if has_prefix(t.as_slice(), "```") {
        let after = slice_of(t.as_slice(), 3, t.len());
        let inner = if has_prefix(after.as_slice(), "json") {
            slice_of(after.as_slice(), 4, after.len())
        } else {
            after
        };
        let fence = chars_of("```");
        match rfind(inner.as_slice(), fence.as_slice()) {
            Some(end) => {
                proof {
                    let last = last_occurrence(inner@, fence@);
                    assert(is_last_occurrence(inner@, fence@, end as int));
                    assert(is_last_occurrence(inner@, fence@, last));
                    if last < end {
                        assert(!occurs_at(inner@, fence@, end as int));
                    }
                    if end < last {
                        assert(!occurs_at(inner@, fence@, last));
                    }
                }
                let body = slice_of(inner.as_slice(), 0, end);
                text_of(trimmed(body.as_slice()).as_slice())
            },
            None => text_of(trimmed(inner.as_slice()).as_slice()),
        }
    } else {
        text_of(t.as_slice())
    }
}

/// What a finding says.
pub struct FindingText {
    pub issue: Seq<char>,
    pub evidence: Option<Seq<char>>,
    pub severity: Option<Seq<char>>,
    pub file: Option<Seq<char>>,
}

impl View for Finding {
    type V = FindingText;

    open spec fn view(&self) -> FindingText {
        FindingText {
            issue: self.issue@,
            evidence: opt_text(self.evidence),
            severity: opt_text(self.severity),
            file: opt_text(self.file),
        }
    }
}

/// What each finding says.
pub open spec fn finding_texts(v: Seq<Finding>) -> Seq<FindingText> {
    v.map_values(|f: Finding| f@)
}

/// The finding that an entry stands for: a text is an issue without
/// evidence; an object is a finding if it holds an issue that is not empty;
/// anything else is none.
pub open spec fn finding_of(value: IssueValue) -> Option<FindingText> {
    match value {
        IssueValue::Text(s) => Some(
            FindingText { issue: s@, evidence: None, severity: None, file: None },
        ),
        IssueValue::Object { issue, evidence, severity, file } => match issue {
            Some(text) => if text@.len() > 0 {
                Some(
                    FindingText {
                        issue: text@,
                        evidence: opt_text(evidence),
                        severity: opt_text(severity),
                        file: opt_text(file),
                    },
                )
            } else {
                None
            },
            None => None,
        },
        IssueValue::Other => None,
    }
}

/// The findings among the first `n` entries, in order.
pub open spec fn findings_among(values: Seq<IssueValue>, n: int) -> Seq<FindingText>
    decreases n,
{
    if n <= 0 {
        Seq::empty()
    } else {
        match finding_of(values[n - 1]) {
            Some(f) => findings_among(values, n - 1).push(f),
            None => findings_among(values, n - 1),
        }
    }
}

/// The findings that a list of entries holds, in order.
pub fn findings_of(values: Vec<IssueValue>) -> (found: Vec<Finding>)
    ensures
        finding_texts(found@) == findings_among(values@, values@.len() as int),
{
    let mut found: Vec<Finding> = Vec::new();
    let ghost all = values@;
    assert(finding_texts(found@) =~= findings_among(all, 0));
    for value in it: values
        invariant
            it.seq() == all,
            finding_texts(found@) == findings_among(all, it.index() as int),
    {
        let ghost before = finding_texts(found@);
        match value {
            IssueValue::Text(s) => {
                found.push(Finding { issue: s, evidence: None, severity: None, file: None });
                assert(finding_texts(found@) =~= before.push(finding_of(value)->0));
            },
            IssueValue::Object { issue, evidence, severity, file } => {
                match issue {
                    Some(text) => {
                        if text.as_str().unicode_len() > 0 {
                            found.push(Finding { issue: text, evidence, severity, file });
                            assert(finding_texts(found@) =~= before.push(finding_of(value)->0));
                        }
                    },
                    None => {},
                }
            },
            IssueValue::Other => {},
        }
    }
    found
}

/// What tells two findings apart: the first 80 characters of the issue in
/// lower case.
pub open spec fn key_of(issue: Seq<char>) -> Seq<char> {
    let lower = lowercase(issue);
    if lower.len() <= 80 {
        lower
    } else {
        lower.subrange(0, 80)
    }
}

/// The finding at `i` says what an earlier one said.
pub open spec fn is_repeat(all: Seq<FindingText>, i: int) -> bool {
    exists|j: int| 0 <= j < i && key_of(#[trigger] all[j].issue) == key_of(all[i].issue)
}

/// The first `n` findings without those that repeat an earlier one.
pub open spec fn distinct_among(all: Seq<FindingText>, n: int) -> Seq<FindingText>
    decreases n,
{
    if n <= 0 {
        Seq::empty()
    } else if is_repeat(all, n - 1) {
        distinct_among(all, n - 1)
    } else {
        distinct_among(all, n - 1).push(all[n - 1])
    }
}

/// The findings of two passes as one list: those of the first pass, then
/// those of the second, each only where no earlier finding has its key.
pub fn merge_findings(first: Vec<Finding>, second: Vec<Finding>) -> (merged: Vec<Finding>)
    ensures
        finding_texts(merged@) == distinct_among(
            finding_texts(first@) + finding_texts(second@),
            (first@.len() + second@.len()) as int,
        ),
{
    let ghost all = finding_texts(first@) + finding_texts(second@);
    let ghost head = first@;
    let ghost tail = second@;
    let mut merged: Vec<Finding> = Vec::new();
    let mut seen: Vec<Vec<char>> = Vec::new();
    assert(finding_texts(merged@) =~= distinct_among(all, 0));
    for f in it: first
        invariant
            it.seq() == head,
            all == finding_texts(head) + finding_texts(tail),
            seen@.len() == it.index(),
            forall|j: int| 0 <= j < seen@.len() ==> (#[trigger] seen@[j])@ == key_of(all[j].issue),
            finding_texts(merged@) == distinct_among(all, it.index() as int),
    {
        let ghost i = it.index() as int;
        assert(all[i] == f@) by {
            assert(finding_texts(head)[i] == head[i]@);
        }
        let key = key(&f.issue);
        let repeat = is_seen(&seen, key.as_slice());
        assert(repeat == is_repeat(all, i)) by {
            if repeat {
                let j = choose|j: int| 0 <= j < seen@.len() && (#[trigger] seen@[j])@ == key@;
                assert(key_of(all[j].issue) == key_of(all[i].issue));
            }
            if is_repeat(all, i) {
                let j = choose|j: int|
                    0 <= j < i && key_of(#[trigger] all[j].issue) == key_of(all[i].issue);
                assert(seen@[j]@ == key@);
            }
        }
        seen.push(key);
        if !repeat {
            let ghost before = finding_texts(merged@);
            merged.push(f);
            assert(finding_texts(merged@) =~= before.push(all[i]));
        }
    }
    let ghost n = head.len() as int;
    for f in it: second
        invariant
            it.seq() == tail,
            n == head.len(),
            all == finding_texts(head) + finding_texts(tail),
            seen@.len() == n + it.index(),
            forall|j: int| 0 <= j < seen@.len() ==> (#[trigger] seen@[j])@ == key_of(all[j].issue),
            finding_texts(merged@) == distinct_among(all, n + it.index()),
    {
        let ghost i = n + it.index();
        assert(all[i] == f@) by {
            assert(finding_texts(tail)[i - n] == tail[i - n]@);
        }
        let key = key(&f.issue);
        let repeat = is_seen(&seen, key.as_slice());
        assert(repeat == is_repeat(all, i)) by {
            if repeat {
                let j = choose|j: int| 0 <= j < seen@.len() && (#[trigger] seen@[j])@ == key@;
                assert(key_of(all[j].issue) == key_of(all[i].issue));
            }
            if is_repeat(all, i) {
                let j = choose|j: int|
                    0 <= j < i && key_of(#[trigger] all[j].issue) == key_of(all[i].issue);
                assert(seen@[j]@ == key@);
            }
        }
        seen.push(key);
        if !repeat {
            let ghost before = finding_texts(merged@);
            merged.push(f);
            assert(finding_texts(merged@) =~= before.push(all[i]));
        }
    }
    merged
}

/// The key of an issue.
fn key(issue: &String) -> (k: Vec<char>)
    ensures
        k@ == key_of(issue@),
{
    let lower = to_lowercase(issue.as_str());
    let chars = chars_of(lower.as_str());
    if chars.len() <= 80 {
        chars
    } else {
        slice_of(chars.as_slice(), 0, 80)
    }
}

/// Whether `key` is one of `seen`.
fn is_seen(seen: &Vec<Vec<char>>, key: &[char]) -> (r: bool)
    ensures
        r == exists|j: int| 0 <= j < seen@.len() && (#[trigger] seen@[j])@ == key@,
{
    let mut j: usize = 0;
    while j < seen.len()
        invariant
            j <= seen@.len(),
            forall|x: int| 0 <= x < j ==> (#[trigger] seen@[x])@ != key@,
        decreases seen@.len() - j,
    {
        if same(seen[j].as_slice(), key) {
            return true;
        }
        j += 1;
    }
    false
}

/// Findings are checked by a second look only where there are more than
/// two of them.
pub fn needs_validation(findings: &[Finding]) -> (r: bool)
    ensures
        r == (findings@.len() > 2),
{
    findings.len() > 2
}

/// The first `max` of a list, or all of it where it is shorter.
pub open spec fn first_of<T>(s: Seq<T>, max: nat) -> Seq<T> {
    if s.len() <= max {
        s
    } else {
        s.subrange(0, max as int)
    }
}

/// The findings that a review ends with. Up to two findings are kept as
/// they are. Of more, the validated ones are kept where the validation
/// answered, the merged ones where it did not, and no more than
/// `max_findings` either way.
pub fn select_findings(
    merged: Vec<Finding>,
    validated: Option<Vec<Finding>>,
    max_findings: usize,
) -> (kept: Vec<Finding>)
    ensures
        kept@ == if merged@.len() <= 2 {
            merged@
        } else {
            match validated {
                Some(v) => first_of(v@, max_findings as nat),
                None => first_of(merged@, max_findings as nat),
            }
        },
{
    if merged.len() <= 2 {
        return merged;
    }
    let mut kept = match validated {
        Some(v) => v,
        None => merged,
    };
    if kept.len() > max_findings {
        kept.truncate(max_findings);
    }
    kept
}

/// The line of a candidate: its number, a full stop and the issue, and on
/// a line of its own the evidence where there is some.
pub open spec fn candidate_line(f: FindingText, number: nat) -> Seq<char> {
    let line = decimal(number) + ". "@ + f.issue;
    match f.evidence {
        Some(e) => line + "\n   Evidence: "@ + e,
        None => line,
    }
}

/// The lines of the first `n` candidates, numbered from 1, with a line
/// feed between each two.
pub open spec fn candidate_lines(all: Seq<FindingText>, n: int) -> Seq<char>
    decreases n,
{
    if n <= 0 {
        Seq::empty()
    } else if n == 1 {
        candidate_line(all[0], 1)
    } else {
        candidate_lines(all, n - 1) + "\n"@ + candidate_line(all[n - 1], n as nat)
    }
}

/// The candidates as the validation prompt lists them.
pub fn candidates_text(candidates: &[Finding]) -> (r: String)
    ensures
        r@ == candidate_lines(finding_texts(candidates@), candidates@.len() as int),
{
    let ghost all = finding_texts(candidates@);
    let mut out: Vec<char> = Vec::new();
    let mut i: usize = 0;
    while i < candidates.len()
        invariant
            i <= candidates@.len(),
            all == finding_texts(candidates@),
            out@ == candidate_lines(all, i as int),
        decreases candidates@.len() - i,
    {
        let f = &candidates[i];
        assert(all[i as int] == f@);
        let ghost before = out@;
        if i > 0 {
            push_str(&mut out, "\n");
        }
        let ghost start = out@;
        push_decimal(&mut out, (i + 1) as u64);
        push_str(&mut out, ". ");
        push_str(&mut out, f.issue.as_str());
        match &f.evidence {
            Some(e) => {
                push_str(&mut out, "\n   Evidence: ");
                push_str(&mut out, e.as_str());
            },
            None => {},
        }
        assert(out@ =~= start + candidate_line(all[i as int], (i + 1) as nat));
        if i == 0 {
            assert(out@ =~= candidate_line(all[0], 1));
        }
        i += 1;
    }
    text_of(out.as_slice())
}

} // verus!
