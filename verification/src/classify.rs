//! The classifier: which dimensions of an entity a change touches.

use vstd::prelude::*;
use crate::text::{
    chars_of, contains, has_infix, has_prefix, lines, rows, same, split_lines, starts_with, trim,
    trimmed,
};
use crate::types::{ChangeClassification, SemanticChange};

verus! {

/// The text of an optional content; an absent content counts as empty.
pub open spec fn content(c: Option<String>) -> Seq<char> {
    match c {
        Some(s) => s@,
        None => Seq::empty(),
    }
}

/// A line that opens or continues a comment. An attribute (`#[`) is none.
pub open spec fn opens_comment(line: Seq<char>) -> bool {
    ||| starts_with(line, "//"@)
    ||| starts_with(line, "/*"@)
    ||| starts_with(line, "*"@)
    ||| starts_with(line, "///"@)
    ||| starts_with(line, "/**"@)
    ||| starts_with(line, "\"\"\""@)
    ||| (starts_with(line, "#"@) && !starts_with(line, "#["@))
}

/// A line that begins with a declaration keyword or holds a token of a
/// type signature.
pub open spec fn shows_syntax(line: Seq<char>) -> bool {
    ||| starts_with(line, "fn "@)
    ||| starts_with(line, "pub fn "@)
    ||| starts_with(line, "pub(crate) fn "@)
    ||| starts_with(line, "def "@)
    ||| starts_with(line, "class "@)
    ||| starts_with(line, "struct "@)
    ||| starts_with(line, "enum "@)
    ||| starts_with(line, "trait "@)
    ||| starts_with(line, "impl "@)
    ||| starts_with(line, "interface "@)
    ||| starts_with(line, "type "@)
    ||| starts_with(line, "pub struct "@)
    ||| starts_with(line, "pub enum "@)
    ||| starts_with(line, "pub trait "@)
    ||| starts_with(line, "async fn "@)
    ||| starts_with(line, "pub async fn "@)
    ||| starts_with(line, "function "@)
    ||| starts_with(line, "export function "@)
    ||| starts_with(line, "export default "@)
    ||| contains(line, "->"@)
    ||| contains(line, "=> "@)
    ||| contains(line, ": &"@)
    ||| contains(line, ": Vec<"@)
    ||| contains(line, ": Option<"@)
    ||| contains(line, ": Result<"@)
}

/// `line` is what line `k` of `s` holds between its leading and trailing
/// whitespace, and is not empty.
pub open spec fn significant_at(s: Seq<char>, k: int, line: Seq<char>) -> bool {
    0 <= k < lines(s).len() && trim(lines(s)[k]) == line && line.len() > 0
}

/// `line` is one of the non-empty trimmed lines of `s`.
pub open spec fn has_line(s: Seq<char>, line: Seq<char>) -> bool {
    exists|k: int| significant_at(s, k, line)
}

/// `line` is a non-empty trimmed line of exactly one of the two texts.
pub open spec fn differs_by(before: Seq<char>, after: Seq<char>, line: Seq<char>) -> bool {
    has_line(before, line) != has_line(after, line)
}

/// Some comment line stands on one side only.
pub open spec fn text_differs(before: Seq<char>, after: Seq<char>) -> bool {
    exists|line: Seq<char>| #[trigger] differs_by(before, after, line) && opens_comment(line)
}

/// Some declaration or signature line stands on one side only.
pub open spec fn syntax_differs(before: Seq<char>, after: Seq<char>) -> bool {
    exists|line: Seq<char>|
        #[trigger] differs_by(before, after, line) && !opens_comment(line) && shows_syntax(
            line,
        )
}

/// Some other line stands on one side only.
pub open spec fn function_differs(before: Seq<char>, after: Seq<char>) -> bool {
    exists|line: Seq<char>|
        #[trigger] differs_by(before, after, line) && !opens_comment(line) && !shows_syntax(
            line,
        )
}

/// The classification of a change from `before` to `after`.
///
/// A change that the differ found to be cosmetic is text. One with an empty
/// side is functional. Otherwise the lines that stand on one side only
/// decide; where no line does, the change is functional if the two texts
/// differ by more than surrounding whitespace, and text if not.
pub open spec fn classify(
    before: Seq<char>,
    after: Seq<char>,
    structural_change: Option<bool>,
) -> ChangeClassification {
    if structural_change == Some(false) {
        ChangeClassification::Text
    } else if before.len() == 0 || after.len() == 0 {
        ChangeClassification::Functional
    } else if !text_differs(before, after) && !syntax_differs(before, after) && !function_differs(
        before,
        after,
    ) {
        if trim(before) != trim(after) {
            ChangeClassification::Functional
        } else {
            ChangeClassification::Text
        }
    } else {
        ChangeClassification::of_dimensions(
            text_differs(before, after),
            syntax_differs(before, after),
            function_differs(before, after),
        )
    }
}

/// Whether a trimmed line opens or continues a comment.
pub fn is_comment_line(line: &[char]) -> (r: bool)
    ensures
        r == opens_comment(line@),
{
    has_prefix(line, "//") || has_prefix(line, "/*") || has_prefix(line, "*") || has_prefix(
        line,
        "///",
    ) || has_prefix(line, "/**") || has_prefix(line, "\"\"\"") || (has_prefix(line, "#")
        && !has_prefix(line, "#["))
}

/// Whether a trimmed line declares something or holds a type signature.
pub fn is_syntax_line(line: &[char]) -> (r: bool)
    ensures
        r == shows_syntax(line@),
{
    has_prefix(line, "fn ") || has_prefix(line, "pub fn ") || has_prefix(line, "pub(crate) fn ")
        || has_prefix(line, "def ") || has_prefix(line, "class ") || has_prefix(line, "struct ")
        || has_prefix(line, "enum ") || has_prefix(line, "trait ") || has_prefix(line, "impl ")
        || has_prefix(line, "interface ") || has_prefix(line, "type ") || has_prefix(
        line,
        "pub struct ",
    ) || has_prefix(line, "pub enum ") || has_prefix(line, "pub trait ") || has_prefix(
        line,
        "async fn ",
    ) || has_prefix(line, "pub async fn ") || has_prefix(line, "function ") || has_prefix(
        line,
        "export function ",
    ) || has_prefix(line, "export default ") || has_infix(line, "->") || has_infix(line, "=> ")
        || has_infix(line, ": &") || has_infix(line, ": Vec<") || has_infix(line, ": Option<")
        || has_infix(line, ": Result<")
}

/// Marks the dimension that a line stands for: text for a comment, else
/// syntax for a declaration or signature, else function.
pub fn categorize_line(
    line: &[char],
    has_text: &mut bool,
    has_syntax: &mut bool,
    has_functional: &mut bool,
)
    ensures
        *final(has_text) == (*old(has_text) || opens_comment(line@)),
        *final(has_syntax) == (*old(has_syntax) || (!opens_comment(line@) && shows_syntax(
            line@,
        ))),
        *final(has_functional) == (*old(has_functional) || (!opens_comment(line@)
            && !shows_syntax(line@))),
{
    if is_comment_line(line) {
        *has_text = true;
    } else if is_syntax_line(line) {
        *has_syntax = true;
    } else {
        *has_functional = true;
    }
}

/// The non-empty trimmed lines of a text, in order.
fn significant_lines(s: &[char]) -> (v: Vec<Vec<char>>)
    ensures
        forall|line: Seq<char>| #[trigger] rows(v@).contains(line) <==> has_line(s@, line),
{
    let ls = split_lines(s);
    let mut v: Vec<Vec<char>> = Vec::new();
    let mut i: usize = 0;
    while i < ls.len()
        invariant
            i <= ls@.len(),
            rows(ls@) == lines(s@),
            forall|line: Seq<char>| #[trigger]
                rows(v@).contains(line) <==> exists|k: int|
                    0 <= k < i && significant_at(s@, k, line),
        decreases ls@.len() - i,
    {
        let t = trimmed(ls[i].as_slice());
        assert(t@ == trim(lines(s@)[i as int])) by {
            assert(rows(ls@)[i as int] == ls@[i as int]@);
        }
        let ghost before = rows(v@);
        if t.len() > 0 {
            v.push(t);
            assert(rows(v@) =~= before.push(t@));
            assert forall|line: Seq<char>| #[trigger]
                rows(v@).contains(line) <==> exists|k: int|
                    0 <= k < i + 1 && significant_at(s@, k, line) by {
                if rows(v@).contains(line) {
                    let j = choose|j: int| 0 <= j < rows(v@).len() && rows(v@)[j] == line;
                    if j < before.len() {
                        assert(before.contains(line));
                        let k = choose|k: int| 0 <= k < i && significant_at(s@, k, line);
                        assert(0 <= k < i + 1 && significant_at(s@, k, line));
                    } else {
                        assert(significant_at(s@, i as int, line));
                    }
                }
                if exists|k: int| 0 <= k < i + 1 && significant_at(s@, k, line) {
                    let k = choose|k: int| 0 <= k < i + 1 && significant_at(s@, k, line);
                    if k < i {
                        assert(before.contains(line));
                        let j = choose|j: int| 0 <= j < before.len() && before[j] == line;
                        assert(rows(v@)[j] == line);
                    } else {
                        assert(rows(v@)[before.len() as int] == line);
                    }
                }
            }
        } else {
            assert forall|line: Seq<char>| #[trigger]
                rows(v@).contains(line) <==> exists|k: int|
                    0 <= k < i + 1 && significant_at(s@, k, line) by {
                if rows(v@).contains(line) {
                    let k = choose|k: int| 0 <= k < i && significant_at(s@, k, line);
                    assert(0 <= k < i + 1 && significant_at(s@, k, line));
                }
                if exists|k: int| 0 <= k < i + 1 && significant_at(s@, k, line) {
                    let k = choose|k: int| 0 <= k < i + 1 && significant_at(s@, k, line);
                    assert(k < i);
                }
            }
        }
        i += 1;
    }
    assert forall|line: Seq<char>| #[trigger] rows(v@).contains(line) <==> has_line(s@, line) by {
        if rows(v@).contains(line) {
            let k = choose|k: int| 0 <= k < i && significant_at(s@, k, line);
            assert(significant_at(s@, k, line));
        }
        if has_line(s@, line) {
            let k = choose|k: int| significant_at(s@, k, line);
            assert(0 <= k < i && significant_at(s@, k, line));
        }
    }
    v
}

/// Whether `line` is one of `set`.
fn holds(set: &Vec<Vec<char>>, line: &[char]) -> (r: bool)
    ensures
        r == rows(set@).contains(line@),
{
    let mut i: usize = 0;
    while i < set.len()
        invariant
            i <= set@.len(),
            forall|j: int| 0 <= j < i ==> rows(set@)[j] != line@,
        decreases set@.len() - i,
    {
        if same(set[i].as_slice(), line) {
            assert(rows(set@)[i as int] == line@);
            return true;
        }
        i += 1;
    }
    false
}

/// Some line of `a` that is no line of `b` is a comment (`kind` 0), a
/// declaration (1) or something else (2).
spec fn lone_line(a: Seq<Seq<char>>, b: Seq<Seq<char>>, n: int, kind: int) -> bool {
    exists|k: int| 0 <= k < n && !b.contains(#[trigger] a[k]) && marks(a[k], kind)
}

/// Marks the dimensions of the lines of `a` that are no lines of `b`.
fn mark_lone_lines(
    a: &Vec<Vec<char>>,
    b: &Vec<Vec<char>>,
    has_text: &mut bool,
    has_syntax: &mut bool,
    has_functional: &mut bool,
)
    ensures
        *final(has_text) == (*old(has_text) || lone_line(rows(a@), rows(b@), a@.len() as int, 0)),
        *final(has_syntax) == (*old(has_syntax) || lone_line(
            rows(a@),
            rows(b@),
            a@.len() as int,
            1,
        )),
        *final(has_functional) == (*old(has_functional) || lone_line(
            rows(a@),
            rows(b@),
            a@.len() as int,
            2,
        )),
{
    let mut i: usize = 0;
    while i < a.len()
        invariant
            i <= a@.len(),
            *has_text == (*old(has_text) || lone_line(rows(a@), rows(b@), i as int, 0)),
            *has_syntax == (*old(has_syntax) || lone_line(rows(a@), rows(b@), i as int, 1)),
            *has_functional == (*old(has_functional) || lone_line(rows(a@), rows(b@), i as int, 2)),
        decreases a@.len() - i,
    {
        let ghost ra = rows(a@);
        let ghost rb = rows(b@);
        assert(ra[i as int] == a@[i as int]@);
        let lone = !holds(b, a[i].as_slice());
        if lone {
            categorize_line(a[i].as_slice(), has_text, has_syntax, has_functional);
        }
        proof {
            assert forall|kind: int| 0 <= kind <= 2 implies (#[trigger] lone_line(
                ra,
                rb,
                i + 1,
                kind,
            ) <==> lone_line(ra, rb, i as int, kind) || (lone && marks(ra[i as int], kind))) by {
                if lone_line(ra, rb, i + 1, kind) {
                    let k = choose|k: int|
                        0 <= k < i + 1 && !rb.contains(#[trigger] ra[k]) && marks(ra[k], kind);
                    if k < i {
                        assert(lone_line(ra, rb, i as int, kind));
                    }
                }
                if lone_line(ra, rb, i as int, kind) {
                    let k = choose|k: int|
                        0 <= k < i && !rb.contains(#[trigger] ra[k]) && marks(ra[k], kind);
                    assert(0 <= k < i + 1);
                }
            }
            assert(lone_line(ra, rb, i + 1, 0) <==> lone_line(ra, rb, i as int, 0) || (lone
                && marks(ra[i as int], 0)));
            assert(lone_line(ra, rb, i + 1, 1) <==> lone_line(ra, rb, i as int, 1) || (lone
                && marks(ra[i as int], 1)));
            assert(lone_line(ra, rb, i + 1, 2) <==> lone_line(ra, rb, i as int, 2) || (lone
                && marks(ra[i as int], 2)));
        }
        i += 1;
    }
}

/// Classifies a change by the dimensions it touches.
pub fn classify_change(change: &SemanticChange) -> (r: ChangeClassification)
    ensures
        r == classify(
            content(change.before_content),
            content(change.after_content),
            change.structural_change,
        ),
        change.structural_change == Some(false) ==> r == ChangeClassification::Text,
{
    let before: Vec<char> = match &change.before_content {
        Some(s) => chars_of(s.as_str()),
        None => Vec::new(),
    };
    let after: Vec<char> = match &change.after_content {
        Some(s) => chars_of(s.as_str()),
        None => Vec::new(),
    };
    match change.structural_change {
        Some(false) => {
            return ChangeClassification::Text;
        },
        _ => {},
    }
    if before.len() == 0 || after.len() == 0 {
        return ChangeClassification::Functional;
    }
    let bl = significant_lines(before.as_slice());
    let al = significant_lines(after.as_slice());
    let mut has_text = false;
    let mut has_syntax = false;
    let mut has_functional = false;
    mark_lone_lines(&bl, &al, &mut has_text, &mut has_syntax, &mut has_functional);
    mark_lone_lines(&al, &bl, &mut has_text, &mut has_syntax, &mut has_functional);
    proof {
        lemma_lone_lines(before@, after@, rows(bl@), rows(al@));
    }
    if !has_text && !has_syntax && !has_functional {
        let tb = trimmed(before.as_slice());
        let ta = trimmed(after.as_slice());
        if !same(tb.as_slice(), ta.as_slice()) {
            ChangeClassification::Functional
        } else {
            ChangeClassification::Text
        }
    } else {
        ChangeClassification::from_dimensions(has_text, has_syntax, has_functional)
    }
}

/// With the non-empty trimmed lines of both texts at hand, a dimension
/// differs exactly if a line of one side that the other side lacks marks it.
proof fn lemma_lone_lines(
    before: Seq<char>,
    after: Seq<char>,
    bl: Seq<Seq<char>>,
    al: Seq<Seq<char>>,
)
    requires
        forall|line: Seq<char>| #[trigger] bl.contains(line) <==> has_line(before, line),
        forall|line: Seq<char>| #[trigger] al.contains(line) <==> has_line(after, line),
    ensures
        text_differs(before, after) == (lone_line(bl, al, bl.len() as int, 0) || lone_line(
            al,
            bl,
            al.len() as int,
            0,
        )),
        syntax_differs(before, after) == (lone_line(bl, al, bl.len() as int, 1) || lone_line(
            al,
            bl,
            al.len() as int,
            1,
        )),
        function_differs(before, after) == (lone_line(bl, al, bl.len() as int, 2) || lone_line(
            al,
            bl,
            al.len() as int,
            2,
        )),
{
    lemma_lone_lines_kind(before, after, bl, al, 0);
    lemma_lone_lines_kind(before, after, bl, al, 1);
    lemma_lone_lines_kind(before, after, bl, al, 2);
}

/// What a line must be to mark the dimension `kind`.
spec fn marks(line: Seq<char>, kind: int) -> bool {
    if kind == 0 {
        opens_comment(line)
    } else if kind == 1 {
        !opens_comment(line) && shows_syntax(line)
    } else {
        !opens_comment(line) && !shows_syntax(line)
    }
}

proof fn lemma_lone_lines_kind(
    before: Seq<char>,
    after: Seq<char>,
    bl: Seq<Seq<char>>,
    al: Seq<Seq<char>>,
    kind: int,
)
    requires
        forall|line: Seq<char>| #[trigger] bl.contains(line) <==> has_line(before, line),
        forall|line: Seq<char>| #[trigger] al.contains(line) <==> has_line(after, line),
    ensures
        (exists|line: Seq<char>| #[trigger] differs_by(before, after, line) && marks(line, kind))
            == (lone_line(bl, al, bl.len() as int, kind) || lone_line(
            al,
            bl,
            al.len() as int,
            kind,
        )),
{
    if exists|line: Seq<char>| #[trigger] differs_by(before, after, line) && marks(line, kind) {
        let line = choose|line: Seq<char>| #[trigger]
            differs_by(before, after, line) && marks(line, kind);
        if has_line(before, line) {
            assert(bl.contains(line));
            let k = choose|k: int| 0 <= k < bl.len() && bl[k] == line;
            assert(!al.contains(bl[k]));
            assert(lone_line(bl, al, bl.len() as int, kind));
        } else {
            assert(al.contains(line));
            let k = choose|k: int| 0 <= k < al.len() && al[k] == line;
            assert(!bl.contains(al[k]));
            assert(lone_line(al, bl, al.len() as int, kind));
        }
    }
    if lone_line(bl, al, bl.len() as int, kind) {
        let k = choose|k: int|
            0 <= k < bl.len() && !al.contains(#[trigger] bl[k]) && marks(bl[k], kind);
        assert(bl.contains(bl[k]));
        assert(differs_by(before, after, bl[k]));
    }
    if lone_line(al, bl, al.len() as int, kind) {
        let k = choose|k: int|
            0 <= k < al.len() && !bl.contains(#[trigger] al[k]) && marks(al[k], kind);
        assert(al.contains(al[k]));
        assert(differs_by(before, after, al[k]));
    }
}

/// A change with text on both sides whose lines differ in comments or in
/// nothing at all, and whose texts agree but for surrounding whitespace
/// where no line differs.
pub open spec fn differs_in_text_at_most(before: Seq<char>, after: Seq<char>) -> bool {
    &&& before.len() > 0
    &&& after.len() > 0
    &&& !syntax_differs(before, after)
    &&& !function_differs(before, after)
    &&& text_differs(before, after) || trim(before) == trim(after)
}

/// Where the differ has compared the structure of the two sides, a change
/// is classified as text only if the differ found it cosmetic. Left out are
/// the changes that the differ calls structural although they show in
/// comments or surrounding whitespace alone: those are text all the same.
pub proof fn lemma_text_means_cosmetic(
    before: Seq<char>,
    after: Seq<char>,
    structural_change: Option<bool>,
)
    requires
        structural_change is Some,
        !(structural_change == Some(true) && differs_in_text_at_most(before, after)),
    ensures
        classify(before, after, structural_change) == ChangeClassification::Text
            ==> structural_change == Some(false),
        structural_change == Some(false) ==> classify(before, after, structural_change)
            == ChangeClassification::Text,
{
}

} // verus!
