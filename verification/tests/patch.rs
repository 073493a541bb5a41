use inspect::patch::{commentable_lines, parse_hunk_header, parse_patch, parse_range};

fn chars(s: &str) -> Vec<char> {
    s.chars().collect()
}

#[test]
fn test_parse_simple_patch() {
    let patch = "@@ -10,3 +10,4 @@ some context\n old line\n-removed\n+added1\n+added2\n unchanged";
    let hunks = parse_patch(patch);
    assert_eq!(hunks.len(), 1);
    assert_eq!(hunks[0].old_start, 10);
    assert_eq!(hunks[0].new_start, 10);
    assert_eq!(hunks[0].lines.len(), 5);

    let commentable = commentable_lines(&hunks);
    assert_eq!(commentable, vec![10, 11, 12, 13]);
}

#[test]
fn test_multiple_hunks() {
    let patch = "@@ -1,3 +1,3 @@\n context\n-old\n+new\n context\n@@ -20,2 +20,3 @@\n ctx\n+inserted\n end";
    let hunks = parse_patch(patch);
    assert_eq!(hunks.len(), 2);
    assert_eq!(hunks[0].new_start, 1);
    assert_eq!(hunks[1].new_start, 20);

    let cl = commentable_lines(&hunks);
    assert!(cl.contains(&2));
    assert!(cl.contains(&21));
}

#[test]
fn test_addition_only() {
    let patch = "@@ -0,0 +1,3 @@\n+line1\n+line2\n+line3";
    let hunks = parse_patch(patch);
    assert_eq!(hunks.len(), 1);
    let cl = commentable_lines(&hunks);
    assert_eq!(cl, vec![1, 2, 3]);
}

#[test]
fn every_line_of_a_hunk_with_its_numbers() {
    let patch = "@@ -10,3 +10,4 @@ some context\n old line\n-removed\n+added1\n+added2\n unchanged";
    let hunks = parse_patch(patch);
    let h = &hunks[0];
    assert_eq!((h.old_start, h.old_count, h.new_start, h.new_count), (10, 3, 10, 4));
    assert_eq!(h.header, "@@ -10,3 +10,4 @@ some context");
    let seen: Vec<(Option<u64>, Option<u64>, &str, &str, bool)> = h
        .lines
        .iter()
        .map(|l| (l.old_line, l.new_line, l.kind.as_str(), l.content.as_str(), l.commentable))
        .collect();
    assert_eq!(
        seen,
        vec![
            (Some(10), Some(10), "context", "old line", true),
            (Some(11), None, "delete", "removed", false),
            (None, Some(11), "add", "added1", true),
            (None, Some(12), "add", "added2", true),
            (Some(12), Some(13), "context", "unchanged", true),
        ]
    );
}

#[test]
fn what_stands_before_the_first_hunk_is_passed_over() {
    let patch = "diff --git a/x b/x\n--- a/x\n+++ b/x\n@@ -1 +1 @@\n-a\n+b\n";
    let hunks = parse_patch(patch);
    assert_eq!(hunks.len(), 1);
    assert_eq!((hunks[0].old_start, hunks[0].old_count), (1, 1));
    assert_eq!((hunks[0].new_start, hunks[0].new_count), (1, 1));
    assert_eq!(hunks[0].lines.len(), 2);
    assert!(parse_patch("").is_empty());
    assert!(parse_patch("+a\n-b\n c").is_empty());
}

#[test]
fn lines_without_a_marker_are_context_as_they_stand() {
    let hunks = parse_patch("@@ -5,2 +7,2 @@\nplain\n\n  two\r\n\\ No newline at end of file");
    let seen: Vec<(Option<u64>, Option<u64>, &str)> =
        hunks[0].lines.iter().map(|l| (l.old_line, l.new_line, l.content.as_str())).collect();
    assert_eq!(
        seen,
        vec![
            (Some(5), Some(7), "plain"),
            (Some(6), Some(8), ""),
            (Some(7), Some(9), " two"),
            (Some(8), Some(10), "\\ No newline at end of file"),
        ]
    );
}

#[test]
fn hunk_headers_by_their_second_and_third_word() {
    assert_eq!(parse_hunk_header(&chars("@@ -10,3 +10,4 @@ fn a()")), (10, 3, 10, 4));
    assert_eq!(parse_hunk_header(&chars("@@ -7 +8 @@")), (7, 1, 8, 1));
    assert_eq!(parse_hunk_header(&chars("@@")), (0, 0, 0, 0));
    assert_eq!(parse_hunk_header(&chars("@@ -3,2")), (3, 2, 0, 0));
    assert_eq!(parse_hunk_header(&chars("@@   -1,2 \t +3,4   @@")), (1, 2, 3, 4));
    assert_eq!(parse_hunk_header(&chars("@@ x1,2 y3,4 @@")), (1, 2, 3, 4));
    assert_eq!(parse_hunk_header(&chars("@@ -a,b +c,d @@")), (0, 0, 0, 0));
    assert_eq!(parse_hunk_header(&chars("@@ - + @@")), (0, 1, 0, 1));
    assert_eq!(
        parse_hunk_header(&chars("@@ -18446744073709551615,1 +18446744073709551616,1 @@")),
        (u64::MAX, 1, 0, 1)
    );
}

#[test]
fn ranges_with_and_without_count() {
    assert_eq!(parse_range(&chars("10,3")), (10, 3));
    assert_eq!(parse_range(&chars("10")), (10, 1));
    assert_eq!(parse_range(&chars("")), (0, 1));
    assert_eq!(parse_range(&chars(",")), (0, 0));
    assert_eq!(parse_range(&chars("1,2,3")), (1, 0));
    assert_eq!(parse_range(&chars("+5,+6")), (5, 6));
    assert_eq!(parse_range(&chars("-5,6")), (0, 6));
    assert_eq!(parse_range(&chars(" 5,6 ")), (0, 0));
    assert_eq!(parse_range(&chars("007,08")), (7, 8));
}

#[test]
fn line_numbers_start_anew_after_the_largest() {
    let hunks = parse_patch("@@ -18446744073709551615 +18446744073709551615 @@\n a\n b");
    let seen: Vec<(Option<u64>, Option<u64>)> =
        hunks[0].lines.iter().map(|l| (l.old_line, l.new_line)).collect();
    assert_eq!(seen, vec![(Some(u64::MAX), Some(u64::MAX)), (Some(0), Some(0))]);
}

#[test]
fn commentable_lines_are_those_of_the_new_side() {
    let hunks = parse_patch("@@ -1,2 +1,1 @@\n-a\n-b\n+c\n@@ -9 +8 @@\n x");
    assert_eq!(commentable_lines(&hunks), vec![1, 8]);
    assert!(commentable_lines(&[]).is_empty());
}
