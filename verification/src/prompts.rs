//! What a model is asked when it reviews a pull request: the prompt texts,
//! the cut of a diff that is too long for them, and the findings that come
//! back.

use vstd::prelude::*;
use crate::order::{is_ranking, lemma_ranking_is_unique, rank_order, ranks, SortKey};
use crate::risk::first_line;
use crate::types::{ChangeType, EntityReview};
use crate::text::{
    byte_len, byte_length, chars_of, contains, count_of, find, has_infix, join, joined_with, lines,
    lowercase, occurrences, pieces, push_all, push_str, replace_all, replaced, rows, same_as,
    slice_of, split_lines, split_on, text_of, to_lowercase, trim, trimmed, width,
};

verus! {

/// The system text of the review pass.
pub const SYSTEM_REVIEW: &'static str = "You are a precise code inspector. Only report real bugs you are confident about. Always respond with valid JSON.";

/// The system text of the validation pass.
pub const SYSTEM_VALIDATE: &'static str = "You are a precise inspector. Verify each issue against the actual diff. Only keep confirmed bugs. Always respond with valid JSON.";

/// The review prompt, with places for title, triage and diff.
pub const PROMPT_DEEP: &'static str = r#"You are a world-class code inspector. Review this PR and find ONLY real, concrete bugs.

PR Title: {pr_title}

{triage_section}

PR Diff:
{diff}

Look specifically for these categories of issues:
1. Logic errors: wrong conditions, off-by-one, incorrect algorithms, broken control flow, inverted booleans
2. Concurrency bugs: race conditions, missing locks, unsafe shared state, deadlocks, unhandled async promises
3. Null/undefined safety: missing null checks, possible NPE, Optional.get() without isPresent(), uninitialized variables
4. Error handling: swallowed exceptions, missing error propagation, wrong error types
5. Data correctness: wrong translations, wrong constants, incorrect mappings, copy-paste errors, stale cache data
6. Security: SSRF, XSS, injection, auth bypass, exposed secrets, unsafe deserialization, origin validation bypass
7. Type mismatches: wrong return types, incompatible casts, API contract violations, schema errors
8. Breaking changes: removed public APIs without migration, changed behavior silently
9. State consistency: asymmetric cache trust, orphaned data, inconsistent updates across related fields
10. Naming/contract bugs: method name typos that break interfaces, property names that don't match expected contracts

Rules:
- ONLY report issues you are highly confident about (>90% sure)
- Be specific: name the file, function/variable, and exactly what's wrong
- Naming typos ARE bugs if they would cause a runtime error or break an API contract
- Do NOT report: style preferences, missing tests, docs, "could be improved"
- Do NOT report issues about code that was only deleted/removed
- Maximum 10 issues. Quality over quantity.

For each issue, provide it as a JSON object with "issue" (description) and "evidence" (quote the specific code lines from the diff that prove this is a bug).

Respond with ONLY a JSON object:
{{"issues": [{{"issue": "description", "evidence": "the specific code"}}]}}"#;

/// The validation prompt, with places for title, diff and candidates.
pub const PROMPT_VALIDATE: &'static str = r#"You are a senior code inspector doing final validation. You have the PR diff and candidate issues.

PR Title: {pr_title}

PR Diff (for verification):
{diff}

Candidate Issues:
{candidates}

For each candidate, verify against the actual diff:
1. Can you find the specific code that's buggy? If yes, keep it.
2. Is this a real bug that would cause incorrect behavior in production? If yes, keep it.
3. Is this about deleted/removed code being replaced? If so, DROP it.
4. Is this speculative or theoretical ("could potentially...")? If so, DROP it.
5. Is this about style, naming conventions, or missing tests? If so, DROP it.

Return ONLY the issues that are verified real bugs with evidence in the diff.

Respond with ONLY a JSON object:
{{"issues": ["verified issue 1", "verified issue 2", ...]}}"#;

/// A template with its three places filled one after the other; a place
/// that an earlier filling brought in is filled as well.
pub open spec fn filled_template(
    template: Seq<char>,
    first: (Seq<char>, Seq<char>),
    second: (Seq<char>, Seq<char>),
    third: (Seq<char>, Seq<char>),
) -> Seq<char> {
    replaced(replaced(replaced(template, first.0, first.1), second.0, second.1), third.0, third.1)
}

/// Fills the three places of a template, one after the other.
fn fill_template(template: &str, first: (&str, &str), second: (&str, &str), third: (&str, &str)) -> (r:
    String)
    requires
        first.0@.len() > 0,
        second.0@.len() > 0,
        third.0@.len() > 0,
    ensures
        r@ == filled_template(
            template@,
            (first.0@, first.1@),
            (second.0@, second.1@),
            (third.0@, third.1@),
        ),
{
    let t = chars_of(template);
    let a = replace_all(t.as_slice(), chars_of(first.0).as_slice(), chars_of(first.1).as_slice());
    let b = replace_all(a.as_slice(), chars_of(second.0).as_slice(), chars_of(second.1).as_slice());
    let c = replace_all(b.as_slice(), chars_of(third.0).as_slice(), chars_of(third.1).as_slice());
    text_of(c.as_slice())
}

/// The review prompt for a pull request.
pub fn format_deep_prompt(pr_title: &str, triage_section: &str, diff: &str) -> (r: String)
    ensures
        r@ == filled_template(
            PROMPT_DEEP@,
            ("{pr_title}"@, pr_title@),
            ("{triage_section}"@, triage_section@),
            ("{diff}"@, diff@),
        ),
{
    proof {
        reveal_strlit("{pr_title}");
        reveal_strlit("{triage_section}");
        reveal_strlit("{diff}");
    }
    fill_template(
        PROMPT_DEEP,
        ("{pr_title}", pr_title),
        ("{triage_section}", triage_section),
        ("{diff}", diff),
    )
}

/// The validation prompt for the candidate issues of a pull request.
pub fn format_validate_prompt(pr_title: &str, diff: &str, candidates: &str) -> (r: String)
    ensures
        r@ == filled_template(
            PROMPT_VALIDATE@,
            ("{pr_title}"@, pr_title@),
            ("{diff}"@, diff@),
            ("{candidates}"@, candidates@),
        ),
{
    proof {
        reveal_strlit("{pr_title}");
        reveal_strlit("{diff}");
        reveal_strlit("{candidates}");
    }
    fill_template(
        PROMPT_VALIDATE,
        ("{pr_title}", pr_title),
        ("{diff}", diff),
        ("{candidates}", candidates),
    )
}

/// The number of bytes that a text takes in UTF-8.
pub open spec fn size(s: Seq<char>) -> nat {
    byte_len(s, s.len() as int)
}

/// How many characters from index `k` on can be taken before the text
/// outgrows `max` bytes.
pub open spec fn cut_at(s: Seq<char>, max: nat, k: int) -> int
    decreases s.len() - k,
{
    if 0 <= k < s.len() && byte_len(s, k + 1) <= max {
        cut_at(s, max, k + 1)
    } else {
        k
    }
}

/// The longest beginning of a text that takes no more than `max` bytes.
pub open spec fn head(s: Seq<char>, max: nat) -> Seq<char> {
    let k = cut_at(s, max, 0);
    if 0 <= k <= s.len() {
        s.subrange(0, k)
    } else {
        s
    }
}

/// One count less another, and 0 where that is negative.
pub open spec fn less(a: nat, b: nat) -> nat {
    if a >= b {
        (a - b) as nat
    } else {
        0
    }
}

/// The added lines of the diff of one file: the lines that begin with `+`,
/// without the line of the new path.
pub open spec fn added_lines(part: Seq<char>) -> nat {
    less(
        count_of(part, "\n+"@, part.len() as int),
        count_of(part, "\n+++"@, part.len() as int),
    )
}

/// The deleted lines of the diff of one file: the lines that begin with
/// `-`, without the line of the old path.
pub open spec fn deleted_lines(part: Seq<char>) -> nat {
    less(
        count_of(part, "\n-"@, part.len() as int),
        count_of(part, "\n---"@, part.len() as int),
    )
}

/// The size of the change to one file: its added and deleted lines, with
/// two more for each line that was replaced.
pub open spec fn change_size(part: Seq<char>) -> nat {
    let adds = added_lines(part);
    let dels = deleted_lines(part);
    adds + dels + 2 * if adds <= dels {
        adds
    } else {
        dels
    }
}

/// A path of tests.
pub open spec fn names_tests(line: Seq<char>) -> bool {
    ||| contains(line, "test"@)
    ||| contains(line, "spec"@)
    ||| contains(line, "mock"@)
    ||| contains(line, "__test__"@)
    ||| contains(line, "fixture"@)
}

/// A path of documentation.
pub open spec fn names_docs(line: Seq<char>) -> bool {
    ||| contains(line, ".md"@)
    ||| contains(line, ".adoc"@)
    ||| contains(line, ".txt"@)
    ||| contains(line, ".rst"@)
    ||| contains(line, "changelog"@)
    ||| contains(line, "readme"@)
}

/// A path of a snapshot or a lockfile.
pub open spec fn names_snapshots(line: Seq<char>) -> bool {
    ||| contains(line, ".snap"@)
    ||| contains(line, ".lock"@)
    ||| contains(line, "package-lock"@)
    ||| contains(line, "yarn.lock"@)
}

/// A path of configuration.
pub open spec fn names_config(line: Seq<char>) -> bool {
    ||| contains(line, ".json"@)
    ||| contains(line, ".yaml"@)
    ||| contains(line, ".yml"@)
    ||| contains(line, ".toml"@)
    ||| contains(line, ".xml"@)
}

/// How much a file counts, in ten-thousandths, by the lower-case first
/// line of its diff: tests three tenths, documentation two, snapshots and
/// lockfiles one, configuration five, and the product where several hold.
pub open spec fn weight(line: Seq<char>) -> nat {
    (if names_tests(line) {
        3nat
    } else {
        10nat
    }) * (if names_docs(line) {
        2nat
    } else {
        10nat
    }) * (if names_snapshots(line) {
        1nat
    } else {
        10nat
    }) * (if names_config(line) {
        5nat
    } else {
        10nat
    })
}

/// The priority of the diff of one file, in ten-thousandths.
pub open spec fn priority(part: Seq<char>) -> nat {
    change_size(part) * weight(lowercase(first_line(part)))
}

/// Those of the first `n` parts that hold more than whitespace, in order.
pub open spec fn solid_parts(parts: Seq<Seq<char>>, n: int) -> Seq<Seq<char>>
    decreases n,
{
    if n <= 0 {
        Seq::empty()
    } else if trim(parts[n - 1]).len() > 0 {
        solid_parts(parts, n - 1).push(parts[n - 1])
    } else {
        solid_parts(parts, n - 1)
    }
}

/// What ranks each part: its priority alone.
pub open spec fn part_ranks(parts: Seq<Seq<char>>) -> Seq<(nat, Seq<char>)> {
    parts.map_values(|p: Seq<char>| (priority(p), Seq::<char>::empty()))
}

/// The ranking of the parts: by falling priority, parts of one priority in
/// the order of the diff.
pub open spec fn part_order(parts: Seq<Seq<char>>) -> Seq<usize> {
    choose|order: Seq<usize>| is_ranking(part_ranks(parts), order)
}

/// The text of the first `k` parts of the ranking under their headers, as
/// far as it stays within `max` bytes: the first part that does not fit
/// ends it. The flag tells whether it has ended.
pub open spec fn packed(parts: Seq<Seq<char>>, order: Seq<usize>, max: nat, k: int) -> (
    Seq<char>,
    bool,
)
    decreases k,
{
    if k <= 0 {
        (Seq::empty(), false)
    } else {
        let (text, ended) = packed(parts, order, max, k - 1);
        let next = "diff --git "@ + parts[order[k - 1] as int];
        if ended || size(text) + size(next) > max {
            (text, true)
        } else {
            (text + next, false)
        }
    }
}

/// A diff cut to `max_chars` bytes.
///
/// A diff that fits is kept whole. One that does not is split into the
/// diffs of its files, and the files are taken by falling priority until
/// one does not fit. Where not even the first fits, the beginning of the
/// diff is taken as far as it fits.
pub open spec fn truncated(diff: Seq<char>, max_chars: nat) -> Seq<char> {
    if size(diff) <= max_chars {
        diff
    } else {
        let all = pieces(diff, "diff --git "@);
        let parts = solid_parts(all, all.len() as int);
        let text = packed(parts, part_order(parts), max_chars, parts.len() as int).0;
        if text.len() == 0 {
            head(diff, max_chars)
        } else {
            text
        }
    }
}

/// The bytes of a text add up over its parts.
proof fn lemma_size_adds(a: Seq<char>, b: Seq<char>, n: int)
    requires
        0 <= n <= b.len(),
    ensures
        byte_len(a + b, a.len() + n) == size(a) + byte_len(b, n),
    decreases n,
{
    if n > 0 {
        lemma_size_adds(a, b, n - 1);
        assert((a + b)[a.len() + n - 1] == b[n - 1]);
    } else {
        lemma_size_prefix(a + b, a, a.len() as int);
    }
}

/// The bytes of the first `n` characters rest on those characters alone.
proof fn lemma_size_prefix(a: Seq<char>, b: Seq<char>, n: int)
    requires
        0 <= n <= a.len(),
        n <= b.len(),
        forall|k: int| 0 <= k < n ==> a[k] == b[k],
    ensures
        byte_len(a, n) == byte_len(b, n),
    decreases n,
{
    if n > 0 {
        lemma_size_prefix(a, b, n - 1);
    }
}

/// The size of the change to one file, and how much the file counts.
fn rate(part: &[char]) -> (r: u128)
    ensures
        r == priority(part@),
{
    let adds_all = occurrences(part, chars_of("\n+").as_slice());
    let adds_path = occurrences(part, chars_of("\n+++").as_slice());
    let dels_all = occurrences(part, chars_of("\n-").as_slice());
    let dels_path = occurrences(part, chars_of("\n---").as_slice());
    let adds: u128 = if adds_all >= adds_path {
        (adds_all - adds_path) as u128
    } else {
        0
    };
    let dels: u128 = if dels_all >= dels_path {
        (dels_all - dels_path) as u128
    } else {
        0
    };
    let both: u128 = if adds <= dels {
        adds
    } else {
        dels
    };
    let change: u128 = adds + dels + 2 * both;
    let ls = split_lines(part);
    let first: Vec<char> = if ls.len() > 0 {
        assert(rows(ls@)[0] == ls@[0]@);
        slice_of(ls[0].as_slice(), 0, ls[0].len())
    } else {
        Vec::new()
    };
    assert(first@ =~= first_line(part@));
    let lower = to_lowercase(text_of(first.as_slice()).as_str());
    let line = chars_of(lower.as_str());
    let l = line.as_slice();
    let tests: u128 = if has_infix(l, "test") || has_infix(l, "spec") || has_infix(l, "mock")
        || has_infix(l, "__test__") || has_infix(l, "fixture") {
        3
    } else {
        10
    };
    let docs: u128 = if has_infix(l, ".md") || has_infix(l, ".adoc") || has_infix(l, ".txt")
        || has_infix(l, ".rst") || has_infix(l, "changelog") || has_infix(l, "readme") {
        2
    } else {
        10
    };
    let snapshots: u128 = if has_infix(l, ".snap") || has_infix(l, ".lock") || has_infix(
        l,
        "package-lock",
    ) || has_infix(l, "yarn.lock") {
        1
    } else {
        10
    };
    let config: u128 = if has_infix(l, ".json") || has_infix(l, ".yaml") || has_infix(l, ".yml")
        || has_infix(l, ".toml") || has_infix(l, ".xml") {
        5
    } else {
        10
    };
    let w: u128 = tests * docs * snapshots * config;
    assert(w == weight(line@)) by (nonlinear_arith)
        requires
            tests == (if names_tests(line@) { 3nat } else { 10nat }),
            docs == (if names_docs(line@) { 2nat } else { 10nat }),
            snapshots == (if names_snapshots(line@) { 1nat } else { 10nat }),
            config == (if names_config(line@) { 5nat } else { 10nat }),
            w == tests * docs * snapshots * config,
            weight(line@) == (if names_tests(line@) { 3nat } else { 10nat }) * (if names_docs(line@) { 2nat } else { 10nat }) * (if names_snapshots(line@) { 1nat } else { 10nat }) * (if names_config(line@) { 5nat } else { 10nat }),
    ;
    assert(w <= 10000) by (nonlinear_arith)
        requires
            tests <= 10,
            docs <= 10,
            snapshots <= 10,
            config <= 10,
            w == tests * docs * snapshots * config,
    ;
    assert(change * w <= 0x4_0000_0000_0000_0000 * 10000) by (nonlinear_arith)
        requires
            change <= 0x4_0000_0000_0000_0000,
            w <= 10000,
    ;
    change * w
}

/// A diff cut to `max_chars` bytes, with the files that matter most kept.
pub fn truncate_diff(diff: &str, max_chars: usize) -> (r: String)
    ensures
        r@ == truncated(diff@, max_chars as nat),
{
    let text = chars_of(diff);
    let d = text.as_slice();
    if byte_length(d) <= max_chars as u128 {
        let whole = text_of(d);
        return whole;
    }
    let ghost max = max_chars as nat;
    let sep = chars_of("diff --git ");
    proof {
        reveal_strlit("diff --git ");
    }
    let all = split_on(d, sep.as_slice());
    let ghost all_parts = pieces(diff@, "diff --git "@);
    // The parts that hold something, and their priorities.
    let mut parts: Vec<Vec<char>> = Vec::new();
    let mut keys: Vec<SortKey> = Vec::new();
    let mut i: usize = 0;
    while i < all.len()
        invariant
            i <= all@.len(),
            rows(all@) == all_parts,
            rows(parts@) == solid_parts(all_parts, i as int),
            keys@.len() == parts@.len(),
            forall|k: int|
                0 <= k < keys@.len() ==> (#[trigger] keys@[k]).major == priority(parts@[k]@)
                    && keys@[k].minor@ == Seq::<char>::empty(),
        decreases all@.len() - i,
    {
        let part = all[i].as_slice();
        assert(part@ == all_parts[i as int]) by {
            assert(rows(all@)[i as int] == all@[i as int]@);
        }
        if trimmed(part).len() > 0 {
            let ghost before = rows(parts@);
            let p = rate(part);
            let copy = slice_of(part, 0, part.len());
            assert(copy@ =~= part@);
            parts.push(copy);
            assert(rows(parts@) =~= before.push(part@));
            let minor: Vec<char> = Vec::new();
            assert(minor@ =~= Seq::<char>::empty());
            keys.push(SortKey { major: p, minor });
        }
        i += 1;
    }
    let ghost solid = solid_parts(all_parts, all_parts.len() as int);
    assert(ranks(keys@) =~= part_ranks(solid)) by {
        assert forall|k: int| 0 <= k < keys@.len()
            implies ranks(keys@)[k] == part_ranks(solid)[k] by {
            assert(rows(parts@)[k] == parts@[k]@);
        }
    }
    let order = rank_order(&keys);
    proof {
        lemma_ranking_is_unique(part_ranks(solid), order@, part_order(solid));
    }
    // The parts in the order of their ranking, as far as they fit.
    let head_text = chars_of("diff --git ");
    let mut out: Vec<char> = Vec::new();
    let mut used: u128 = 0;
    let mut k: usize = 0;
    let mut ended = false;
    while k < order.len() && !ended
        invariant
            k <= order@.len(),
            order@.len() == parts@.len(),
            rows(parts@) == solid,
            forall|q: int| 0 <= q < order@.len() ==> (#[trigger] order@[q]) < parts@.len(),
            head_text@ == "diff --git "@,
            used == size(out@),
            used <= max,
            max == max_chars,
            (out@, ended) == packed(solid, order@, max, k as int),
        decreases order@.len() - k + if ended { 0int } else { 1int },
    {
        let part = parts[order[k]].as_slice();
        assert(part@ == solid[order@[k as int] as int]) by {
            assert(rows(parts@)[order@[k as int] as int] == parts@[order@[k as int] as int]@);
        }
        let ghost next = "diff --git "@ + part@;
        let part_len: usize = part.len();
        let head_len: usize = head_text.len();
        let need: u128 = byte_length(head_text.as_slice()) + byte_length(part);
        proof {
            lemma_size_adds(head_text@, part@, part@.len() as int);
            assert((head_text@ + part@).len() == head_text@.len() + part@.len());
            assert(need == size(next));
        }
        if used + need > max_chars as u128 {
            ended = true;
        } else {
            let ghost before = out@;
            push_all(&mut out, head_text.as_slice());
            push_all(&mut out, part);
            proof {
                assert(out@ =~= before + next);
                lemma_size_adds(before, next, next.len() as int);
                assert((before + next).len() == before.len() + next.len());
            }
            used = used + need;
        }
        k += 1;
    }
    proof {
        lemma_packed_ended(solid, order@, max, k as int, order@.len() as int);
    }
    if out.len() == 0 {
        // Not even the first part fits: the beginning of the diff.
        let n: usize = d.len();
        let mut cut: usize = 0;
        let mut bytes: u128 = 0;
        while cut < n && bytes + width(d[cut]) as u128 <= max_chars as u128
            invariant
                cut <= n,
                n == d@.len(),
                bytes == byte_len(d@, cut as int),
                bytes <= 4 * cut,
                cut_at(d@, max_chars as nat, 0) == cut_at(d@, max_chars as nat, cut as int),
            decreases n - cut,
        {
            bytes = bytes + width(d[cut]) as u128;
            cut += 1;
        }
        text_of(slice_of(d, 0, cut).as_slice())
    } else {
        text_of(out.as_slice())
    }
}

/// Once the packing has ended it takes no further part.
proof fn lemma_packed_ended(parts: Seq<Seq<char>>, order: Seq<usize>, max: nat, k: int, n: int)
    requires
        0 <= k <= n,
        packed(parts, order, max, k).1 || k == n,
    ensures
        packed(parts, order, max, n).0 == packed(parts, order, max, k).0,
    decreases n - k,
{
    if k < n {
        assert(packed(parts, order, max, k + 1) == (packed(parts, order, max, k).0, true));
        lemma_packed_ended(parts, order, max, k + 1, n);
    }
}

/// How many entities a triage lists at most.
pub const LISTED_ENTITIES: usize = 20;

/// An entity that a triage may list: one that was added or modified, and
/// that is no mere chunk of a file.
pub open spec fn is_listable(e: EntityReview) -> bool {
    (e.change_type == ChangeType::Modified || e.change_type == ChangeType::Added) && e.entity_type@
        != "chunk"@
}

/// The listable ones among the first `n` entities, in order.
pub open spec fn listable(entities: Seq<EntityReview>, n: int) -> Seq<EntityReview>
    decreases n,
{
    if n <= 0 {
        Seq::empty()
    } else if is_listable(entities[n - 1]) {
        listable(entities, n - 1).push(entities[n - 1])
    } else {
        listable(entities, n - 1)
    }
}

/// What ranks each entity: its score alone.
pub open spec fn score_ranks(entities: Seq<EntityReview>) -> Seq<(nat, Seq<char>)> {
    entities.map_values(|e: EntityReview| (e.risk_score as nat, Seq::<char>::empty()))
}

/// The entities that a triage lists: the listable ones by falling score,
/// those of one score in the order given, and no more than twenty.
pub open spec fn listed_entities(entities: Seq<EntityReview>) -> Seq<EntityReview> {
    let all = listable(entities, entities.len() as int);
    let order = choose|order: Seq<usize>| is_ranking(score_ranks(all), order);
    Seq::new(
        if all.len() <= LISTED_ENTITIES {
            all.len()
        } else {
            LISTED_ENTITIES as nat
        },
        |p: int| all[order[p] as int],
    )
}

/// The line of an entity in a triage.
pub open spec fn entity_row(e: EntityReview) -> Seq<char> {
    "  - "@ + e.entity_name@ + " ("@ + e.entity_type@ + ", "@ + e.change_type.name_spec() + ", "@
        + e.classification.label_spec() + ")"@ + if e.is_public_api {
        " [PUBLIC API]"@
    } else {
        Seq::empty()
    }
}

/// The lines of those of the first `n` entities that stand in `file`.
pub open spec fn rows_in_file(top: Seq<EntityReview>, file: Seq<char>, n: int) -> Seq<Seq<char>>
    decreases n,
{
    if n <= 0 {
        Seq::empty()
    } else if top[n - 1].file_path@ == file {
        rows_in_file(top, file, n - 1).push(entity_row(top[n - 1]))
    } else {
        rows_in_file(top, file, n - 1)
    }
}

/// The entity at `i` is the first of its file.
pub open spec fn opens_file(top: Seq<EntityReview>, i: int) -> bool {
    forall|j: int| 0 <= j < i ==> (#[trigger] top[j]).file_path@ != top[i].file_path@
}

/// The lines of a triage as far as the files of the first `n` entities
/// go: the title, and for each file, as its first entity comes, the file
/// and all its entities.
pub open spec fn triage_rows(top: Seq<EntityReview>, n: int) -> Seq<Seq<char>>
    decreases n,
{
    if n <= 0 {
        seq!["## Entity-level triage (highest-risk changes):"@]
    } else if opens_file(top, n - 1) {
        triage_rows(top, n - 1).push("\n**"@ + top[n - 1].file_path@ + "**:"@) + rows_in_file(
            top,
            top[n - 1].file_path@,
            top.len() as int,
        )
    } else {
        triage_rows(top, n - 1)
    }
}

/// The triage section of a prompt: the listed entities file by file, the
/// files in the order of their riskiest entity. Without listed entities
/// there is no section.
pub open spec fn triage_of(entities: Seq<EntityReview>) -> Seq<char> {
    let top = listed_entities(entities);
    if top.len() == 0 {
        Seq::empty()
    } else {
        joined_with(
            triage_rows(top, top.len() as int),
            "\n"@,
            triage_rows(top, top.len() as int).len() as int,
        )
    }
}

/// The line of an entity in a triage.
fn row_of_entity(e: &EntityReview) -> (row: Vec<char>)
    ensures
        row@ == entity_row(*e),
{
    let mut row: Vec<char> = Vec::new();
    push_str(&mut row, "  - ");
    push_str(&mut row, e.entity_name.as_str());
    push_str(&mut row, " (");
    push_str(&mut row, e.entity_type.as_str());
    push_str(&mut row, ", ");
    push_str(&mut row, e.change_type.name());
    push_str(&mut row, ", ");
    push_str(&mut row, e.classification.label());
    push_str(&mut row, ")");
    if e.is_public_api {
        push_str(&mut row, " [PUBLIC API]");
    }
    assert(row@ =~= entity_row(*e));
    row
}

/// The triage section of a prompt.
pub fn build_rich_triage(entities: &[EntityReview]) -> (r: String)
    ensures
        r@ == triage_of(entities@),
{
    // The listable entities, by their place in `entities`.
    let mut places: Vec<usize> = Vec::new();
    let mut keys: Vec<SortKey> = Vec::new();
    let ghost mut all: Seq<EntityReview> = Seq::empty();
    let mut i: usize = 0;
    while i < entities.len()
        invariant
            i <= entities@.len(),
            all == listable(entities@, i as int),
            places@.len() == all.len(),
            keys@.len() == all.len(),
            forall|k: int|
                0 <= k < places@.len() ==> (#[trigger] places@[k]) < entities@.len()
                    && entities@[places@[k] as int] == all[k],
            forall|k: int|
                0 <= k < keys@.len() ==> (#[trigger] keys@[k]).major == all[k].risk_score
                    && keys@[k].minor@ == Seq::<char>::empty(),
        decreases entities@.len() - i,
    {
        let e = &entities[i];
        let listable_type = !same_as(chars_of(e.entity_type.as_str()).as_slice(), "chunk");
        let listable_change = match e.change_type {
            ChangeType::Modified => true,
            ChangeType::Added => true,
            _ => false,
        };
        if listable_change && listable_type {
            places.push(i);
            let minor: Vec<char> = Vec::new();
            assert(minor@ =~= Seq::<char>::empty());
            keys.push(SortKey { major: e.risk_score as u128, minor });
            proof {
                all = all.push(*e);
            }
        }
        i += 1;
    }
    assert(ranks(keys@) =~= score_ranks(all));
    let order = rank_order(&keys);
    proof {
        let chosen = choose|order: Seq<usize>| is_ranking(score_ranks(all), order);
        lemma_ranking_is_unique(score_ranks(all), order@, chosen);
    }
    let count: usize = if places.len() <= LISTED_ENTITIES {
        places.len()
    } else {
        LISTED_ENTITIES
    };
    if count == 0 {
        return String::new();
    }
    // The listed entities, by their place in `entities`.
    let mut top: Vec<usize> = Vec::new();
    let ghost listed = listed_entities(entities@);
    let mut p: usize = 0;
    while p < count
        invariant
            p <= count,
            count == listed.len(),
            count <= places@.len(),
            places@.len() == all.len(),
            order@.len() == places@.len(),
            forall|q: int| 0 <= q < order@.len() ==> (#[trigger] order@[q]) < places@.len(),
            forall|k: int|
                0 <= k < places@.len() ==> (#[trigger] places@[k]) < entities@.len()
                    && entities@[places@[k] as int] == all[k],
            forall|q: int| 0 <= q < count ==> (#[trigger] listed[q]) == all[order@[q] as int],
            top@.len() == p,
            forall|q: int|
                0 <= q < p ==> (#[trigger] top@[q]) < entities@.len() && entities@[top@[q] as int]
                    == listed[q],
        decreases count - p,
    {
        top.push(places[order[p]]);
        p += 1;
    }
    let mut rows: Vec<Vec<char>> = Vec::new();
    rows.push(chars_of("## Entity-level triage (highest-risk changes):"));
    assert(crate::text::rows(rows@) =~= triage_rows(listed, 0));
    let mut n: usize = 0;
    while n < count
        invariant
            n <= count,
            count == listed.len(),
            top@.len() == count,
            forall|q: int|
                0 <= q < count ==> (#[trigger] top@[q]) < entities@.len() && entities@[top@[q] as int]
                    == listed[q],
            crate::text::rows(rows@) == triage_rows(listed, n as int),
        decreases count - n,
    {
        let first = &entities[top[n]];
        assert(*first == listed[n as int]);
        let mut opens = true;
        let mut j: usize = 0;
        while j < n && opens
            invariant
                j <= n < count,
                count == listed.len(),
                top@.len() == count,
                forall|q: int|
                    0 <= q < count ==> (#[trigger] top@[q]) < entities@.len() && entities@[top@[q] as int]
                        == listed[q],
                *first == listed[n as int],
                opens ==> forall|x: int|
                    0 <= x < j ==> (#[trigger] listed[x]).file_path@ != first.file_path@,
                !opens ==> !opens_file(listed, n as int),
            decreases n - j + if opens { 1int } else { 0int },
        {
            if entities[top[j]].file_path == first.file_path {
                assert(listed[j as int].file_path@ == listed[n as int].file_path@);
                opens = false;
            } else {
                j += 1;
            }
        }
        if opens {
            let mut header: Vec<char> = Vec::new();
            push_str(&mut header, "\n**");
            push_str(&mut header, first.file_path.as_str());
            push_str(&mut header, "**:");
            let ghost before = crate::text::rows(rows@);
            let ghost head = header@;
            rows.push(header);
            assert(crate::text::rows(rows@) =~= before.push(head));
            let ghost start = crate::text::rows(rows@);
            let mut k: usize = 0;
            assert(crate::text::rows(rows@) =~= start + rows_in_file(listed, first.file_path@, 0));
            while k < count
                invariant
                    k <= count,
                    count == listed.len(),
                    top@.len() == count,
                    forall|q: int|
                        0 <= q < count ==> (#[trigger] top@[q]) < entities@.len()
                            && entities@[top@[q] as int] == listed[q],
                    crate::text::rows(rows@) == start + rows_in_file(
                        listed,
                        first.file_path@,
                        k as int,
                    ),
                decreases count - k,
            {
                let e = &entities[top[k]];
                assert(*e == listed[k as int]);
                if e.file_path == first.file_path {
                    let row = row_of_entity(e);
                    let ghost shown = crate::text::rows(rows@);
                    let ghost text = row@;
                    rows.push(row);
                    assert(crate::text::rows(rows@) =~= shown.push(text));
                    assert(crate::text::rows(rows@) =~= start + rows_in_file(
                        listed,
                        first.file_path@,
                        k + 1,
                    ));
                }
                k += 1;
            }
        }
        n += 1;
    }
    text_of(join(&rows, "\n").as_slice())
}

} // verus!
