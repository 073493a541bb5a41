//! The review of one entity by a model: what the model is asked, and what
//! is made of its answer.

use vstd::prelude::*;
use crate::findings::skip;
use crate::text::{
    chars_of, decimal, digit, digit_char, ends_with, has_prefix, has_suffix, join, joined_with,
    push_all, push_decimal, push_str, rows, slice_of, starts_with, text_of, trim, trimmed,
};
use crate::types::EntityReview;

verus! {

/// What a model concludes of an entity.
#[derive(Debug, Clone, Copy, PartialEq, Eq, Structural)]
pub enum LlmVerdict {
    Approve,
    Comment,
    RequestChanges,
}

/// One issue that a model names.
#[derive(Debug, Clone)]
pub struct LlmIssue {
    /// `error`, `warning` or `info`.
    pub severity: String,
    pub description: String,
}

/// A model's answer, once it is read.
#[derive(Debug, Clone)]
pub struct LlmOutput {
    pub verdict: LlmVerdict,
    pub issues: Vec<LlmIssue>,
    pub summary: String,
}

/// The review of one entity by a model.
#[derive(Debug, Clone)]
pub struct EntityLlmReview {
    pub entity_name: String,
    pub file_path: String,
    pub verdict: LlmVerdict,
    pub issues: Vec<LlmIssue>,
    pub summary: String,
    pub tokens_used: u64,
}

/// The part of an answer that should hold the structured reply: what
/// stands between an opening fence, with or without the tag `json`, and a
/// fence at the very end; the whole answer where it is not fenced so.
/// Whitespace around it is dropped.
pub open spec fn payload(text: Seq<char>) -> Seq<char> {
    let t = trim(text);
    let opened = if starts_with(t, "```json"@) {
        Some(skip(t, 7))
    } else if starts_with(t, "```"@) {
        Some(skip(t, 3))
    } else {
        None
    };
    match opened {
        Some(s) => if ends_with(s, "```"@) {
            trim(s.subrange(0, s.len() - 3))
        } else {
            trim(text)
        },
        None => trim(text),
    }
}

/// The part of an answer that should hold the structured reply.
pub fn json_payload(text: &str) -> (r: String)
    ensures
        r@ == payload(text@),
{
    let all = chars_of(text);
    let t = trimmed(all.as_slice());
    proof {
        reveal_strlit("```json");
        reveal_strlit("```");
    }
    let opened: Option<Vec<char>> = if has_prefix(t.as_slice(), "```json") {
        Some(slice_of(t.as_slice(), 7, t.len()))
    } else if has_prefix(t.as_slice(), "```") {
        Some(slice_of(t.as_slice(), 3, t.len()))
    } else {
        None
    };
    match opened {
        Some(s) => {
            if has_suffix(s.as_slice(), "```") {
                let body = slice_of(s.as_slice(), 0, s.len() - 3);
                text_of(trimmed(body.as_slice()).as_slice())
            } else {
                text_of(t.as_slice())
            }
        },
        None => text_of(t.as_slice()),
    }
}

/// What is made of an answer that cannot be read: a comment that hands
/// the answer on as an issue of the severity `info`.
pub fn unparsed_output(text: &str) -> (out: LlmOutput)
    ensures
        out.verdict == LlmVerdict::Comment,
        out.issues@.len() == 1,
        out.issues@[0].severity@ == "info"@,
        out.issues@[0].description@ == text@,
        out.summary@ == "Could not parse structured response"@,
{
    let mut issues: Vec<LlmIssue> = Vec::new();
    issues.push(
        LlmIssue {
            severity: text_of(chars_of("info").as_slice()),
            description: text_of(chars_of(text).as_slice()),
        },
    );
    LlmOutput {
        verdict: LlmVerdict::Comment,
        issues,
        summary: text_of(chars_of("Could not parse structured response").as_slice()),
    }
}

/// The sum of two counts of tokens as `u64`; a sum beyond the largest
/// `u64` starts anew from 0.
pub open spec fn token_sum(a: u64, b: u64) -> u64 {
    if a + b <= u64::MAX {
        (a + b) as u64
    } else {
        (a + b - u64::MAX - 1) as u64
    }
}

/// The review of `entity` that a model's answer amounts to: the answer as
/// it was read, or the answer itself as a comment where it could not be
/// read, with the tokens spent on question and answer.
pub fn llm_review(
    entity: &EntityReview,
    output: Option<LlmOutput>,
    text: &str,
    input_tokens: u64,
    output_tokens: u64,
) -> (review: EntityLlmReview)
    ensures
        review.entity_name@ == entity.entity_name@,
        review.file_path@ == entity.file_path@,
        review.tokens_used == token_sum(input_tokens, output_tokens),
        output matches Some(o) ==> review.verdict == o.verdict && review.issues == o.issues
            && review.summary == o.summary,
        output is None ==> review.verdict == LlmVerdict::Comment && review.issues@.len() == 1
            && review.issues@[0].severity@ == "info"@ && review.issues@[0].description@ == text@
            && review.summary@ == "Could not parse structured response"@,
{
    let out = match output {
        Some(o) => o,
        None => unparsed_output(text),
    };
    EntityLlmReview {
        entity_name: entity.entity_name.clone(),
        file_path: entity.file_path.clone(),
        verdict: out.verdict,
        issues: out.issues,
        summary: out.summary,
        tokens_used: input_tokens.wrapping_add(output_tokens),
    }
}

/// A score in hundredths, rounded from millionths.
pub open spec fn hundredths(score: nat) -> nat {
    (score + 5000) / 10000
}

/// A score with two decimals.
pub open spec fn score_text(score: nat) -> Seq<char> {
    let h = hundredths(score);
    decimal(h / 100) + "."@ + seq![digit_char((h % 100) / 10), digit_char(h % 10)]
}

/// The line of a dependent in a prompt.
pub open spec fn dependent_row(entry: (String, String)) -> Seq<char> {
    "  "@ + entry.0@ + " ("@ + entry.1@ + ")"@
}

/// The lines of the first `n` dependents.
pub open spec fn dependent_rows(names: Seq<(String, String)>, n: int) -> Seq<Seq<char>>
    decreases n,
{
    if n <= 0 {
        Seq::empty()
    } else {
        dependent_rows(names, n - 1).push(dependent_row(names[n - 1]))
    }
}

/// How many dependents a prompt lists at most.
pub const LISTED_DEPENDENTS: usize = 10;

/// The number of dependents that a prompt lists.
pub open spec fn listed(names: Seq<(String, String)>) -> int {
    if names.len() <= LISTED_DEPENDENTS {
        names.len() as int
    } else {
        LISTED_DEPENDENTS as int
    }
}

/// The paragraphs of the prompt for an entity: what it is, where it
/// stands, how it changed and how it was rated; that it is public, if it
/// is; its first dependents, if it has any; and its content before and
/// after the change, as far as there is one.
pub open spec fn prompt_parts(entity: EntityReview) -> Seq<Seq<char>> {
    let base = seq![
        "Entity: "@ + entity.entity_name@ + " ("@ + entity.entity_type@ + ")"@,
        "File: "@ + entity.file_path@,
        "Change: "@ + entity.change_type.name_spec(),
        "Classification: "@ + entity.classification.label_spec(),
        "Risk: "@ + entity.risk_level.label_spec() + " (score "@ + score_text(
            entity.risk_score as nat,
        ) + ")"@,
        "Blast radius: "@ + decimal(entity.blast_radius as nat) + ", Dependents: "@ + decimal(
            entity.dependent_count as nat,
        ),
    ];
    let with_public = if entity.is_public_api {
        base.push("Public API: yes"@)
    } else {
        base
    };
    let with_dependents = if entity.dependent_names@.len() > 0 {
        with_public.push(
            "Dependents:\n"@ + joined_with(
                dependent_rows(entity.dependent_names@, listed(entity.dependent_names@)),
                "\n"@,
                listed(entity.dependent_names@),
            ),
        )
    } else {
        with_public
    };
    let with_before = match entity.before_content {
        Some(b) => with_dependents.push("BEFORE:\n```\n"@ + b@ + "\n```"@),
        None => with_dependents,
    };
    match entity.after_content {
        Some(a) => with_before.push("AFTER:\n```\n"@ + a@ + "\n```"@),
        None => with_before,
    }
}

/// The prompt for the review of an entity.
pub open spec fn prompt_of(entity: EntityReview) -> Seq<char> {
    joined_with(prompt_parts(entity), "\n\n"@, prompt_parts(entity).len() as int)
}

/// Appends a score with two decimals.
fn push_score(out: &mut Vec<char>, score: u64)
    ensures
        final(out)@ == old(out)@ + score_text(score as nat),
{
    let h: u128 = (score as u128 + 5000) / 10000;
    let whole: u64 = (h / 100) as u64;
    push_decimal(out, whole);
    push_str(out, ".");
    out.push(digit(((h % 100) / 10) as u8));
    out.push(digit((h % 10) as u8));
    assert(out@ =~= old(out)@ + score_text(score as nat));
}

/// The prompt for the review of an entity.
pub fn build_prompt(entity: &EntityReview) -> (r: String)
    ensures
        r@ == prompt_of(*entity),
{
    let mut parts: Vec<Vec<char>> = Vec::new();
    let mut p: Vec<char> = Vec::new();
    push_str(&mut p, "Entity: ");
    push_str(&mut p, entity.entity_name.as_str());
    push_str(&mut p, " (");
    push_str(&mut p, entity.entity_type.as_str());
    push_str(&mut p, ")");
    parts.push(p);
    let mut p: Vec<char> = Vec::new();
    push_str(&mut p, "File: ");
    push_str(&mut p, entity.file_path.as_str());
    parts.push(p);
    let mut p: Vec<char> = Vec::new();
    push_str(&mut p, "Change: ");
    push_str(&mut p, entity.change_type.name());
    parts.push(p);
    let mut p: Vec<char> = Vec::new();
    push_str(&mut p, "Classification: ");
    push_str(&mut p, entity.classification.label());
    parts.push(p);
    let mut p: Vec<char> = Vec::new();
    push_str(&mut p, "Risk: ");
    push_str(&mut p, entity.risk_level.label());
    push_str(&mut p, " (score ");
    push_score(&mut p, entity.risk_score);
    push_str(&mut p, ")");
    parts.push(p);
    let mut p: Vec<char> = Vec::new();
    push_str(&mut p, "Blast radius: ");
    push_decimal(&mut p, entity.blast_radius as u64);
    push_str(&mut p, ", Dependents: ");
    push_decimal(&mut p, entity.dependent_count as u64);
    parts.push(p);
    let ghost base = rows(parts@);
    assert(base =~= seq![
        "Entity: "@ + entity.entity_name@ + " ("@ + entity.entity_type@ + ")"@,
        "File: "@ + entity.file_path@,
        "Change: "@ + entity.change_type.name_spec(),
        "Classification: "@ + entity.classification.label_spec(),
        "Risk: "@ + entity.risk_level.label_spec() + " (score "@ + score_text(
            entity.risk_score as nat,
        ) + ")"@,
        "Blast radius: "@ + decimal(entity.blast_radius as nat) + ", Dependents: "@ + decimal(
            entity.dependent_count as nat,
        ),
    ]);
    if entity.is_public_api {
        let ghost before = rows(parts@);
        parts.push(chars_of("Public API: yes"));
        assert(rows(parts@) =~= before.push("Public API: yes"@));
    }
    let ghost with_public = rows(parts@);
    assert(with_public == if entity.is_public_api {
        base.push("Public API: yes"@)
    } else {
        base
    });
    if entity.dependent_names.len() > 0 {
        let count: usize = if entity.dependent_names.len() <= LISTED_DEPENDENTS {
            entity.dependent_names.len()
        } else {
            LISTED_DEPENDENTS
        };
        let mut lines: Vec<Vec<char>> = Vec::new();
        let mut k: usize = 0;
        while k < count
            invariant
                k <= count <= entity.dependent_names@.len(),
                lines@.len() == k,
                rows(lines@) == dependent_rows(entity.dependent_names@, k as int),
            decreases count - k,
        {
            let entry = &entity.dependent_names[k];
            let mut line: Vec<char> = Vec::new();
            push_str(&mut line, "  ");
            push_str(&mut line, entry.0.as_str());
            push_str(&mut line, " (");
            push_str(&mut line, entry.1.as_str());
            push_str(&mut line, ")");
            assert(line@ =~= dependent_row(entity.dependent_names@[k as int]));
            let ghost before = rows(lines@);
            lines.push(line);
            assert(rows(lines@) =~= before.push(dependent_row(entity.dependent_names@[k as int])));
            k += 1;
        }
        let mut p: Vec<char> = Vec::new();
        push_str(&mut p, "Dependents:\n");
        push_all(&mut p, join(&lines, "\n").as_slice());
        let ghost before = rows(parts@);
        let ghost row = p@;
        assert(count == listed(entity.dependent_names@));
        assert(row == "Dependents:\n"@ + joined_with(
            dependent_rows(entity.dependent_names@, listed(entity.dependent_names@)),
            "\n"@,
            listed(entity.dependent_names@),
        ));
        parts.push(p);
        assert(rows(parts@) =~= before.push(row));
    }
    let ghost with_dependents = rows(parts@);
    assert(with_dependents == if entity.dependent_names@.len() > 0 {
        with_public.push(
            "Dependents:\n"@ + joined_with(
                dependent_rows(entity.dependent_names@, listed(entity.dependent_names@)),
                "\n"@,
                listed(entity.dependent_names@),
            ),
        )
    } else {
        with_public
    });
    match &entity.before_content {
        Some(b) => {
            let mut p: Vec<char> = Vec::new();
            push_str(&mut p, "BEFORE:\n```\n");
            push_str(&mut p, b.as_str());
            push_str(&mut p, "\n```");
            let ghost before = rows(parts@);
            let ghost row = p@;
            parts.push(p);
            assert(rows(parts@) =~= before.push(row));
        },
        None => {},
    }
    let ghost with_before = rows(parts@);
    assert(with_before == match entity.before_content {
        Some(b) => with_dependents.push("BEFORE:\n```\n"@ + b@ + "\n```"@),
        None => with_dependents,
    });
    match &entity.after_content {
        Some(a) => {
            let mut p: Vec<char> = Vec::new();
            push_str(&mut p, "AFTER:\n```\n");
            push_str(&mut p, a.as_str());
            push_str(&mut p, "\n```");
            let ghost before = rows(parts@);
            let ghost row = p@;
            parts.push(p);
            assert(rows(parts@) =~= before.push(row));
        },
        None => {},
    }
    assert(rows(parts@) == prompt_parts(*entity));
    text_of(join(&parts, "\n\n").as_slice())
}

} // verus!
