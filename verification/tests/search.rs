use inspect::search::{format_matches, grep_files, SearchMatch};

fn file(path: &str, content: &str) -> (String, String) {
    (path.to_string(), content.to_string())
}

fn seen(m: &SearchMatch) -> (&str, usize, usize, &str, Vec<&str>, Vec<&str>) {
    (
        m.file.as_str(),
        m.line,
        m.column,
        m.text.as_str(),
        m.context_before.iter().map(|s| s.as_str()).collect(),
        m.context_after.iter().map(|s| s.as_str()).collect(),
    )
}

const MAIN: &str = "fn main() {\n    let x = 1;\n    println!(\"x\");\n}\n";

#[test]
fn matching_lines_with_their_context() {
    let found = grep_files(&[file("a.rs", MAIN)], "x", true, 1);
    assert_eq!(found.len(), 2);
    assert_eq!(
        seen(&found[0]),
        ("a.rs", 2, 9, "    let x = 1;", vec!["fn main() {"], vec!["    println!(\"x\");"])
    );
    assert_eq!(
        seen(&found[1]),
        ("a.rs", 3, 15, "    println!(\"x\");", vec!["    let x = 1;"], vec!["}"])
    );
}

#[test]
fn context_stops_at_the_ends_of_the_file() {
    let found = grep_files(&[file("a.rs", MAIN)], "main", true, 5);
    assert_eq!(found.len(), 1);
    assert_eq!(
        seen(&found[0]),
        (
            "a.rs",
            1,
            4,
            "fn main() {",
            vec![],
            vec!["    let x = 1;", "    println!(\"x\");", "}"]
        )
    );
    let found = grep_files(&[file("a.rs", MAIN)], "}", true, usize::MAX);
    assert_eq!(found[0].context_before.len(), 3);
    assert!(found[0].context_after.is_empty());
    let found = grep_files(&[file("a.rs", MAIN)], "let", true, 0);
    assert!(found[0].context_before.is_empty());
    assert!(found[0].context_after.is_empty());
}

#[test]
fn case_counts_only_where_asked() {
    assert!(grep_files(&[file("a.rs", MAIN)], "MAIN", true, 0).is_empty());
    let found = grep_files(&[file("a.rs", MAIN)], "MAIN", false, 0);
    assert_eq!(found.len(), 1);
    assert_eq!((found[0].line, found[0].column), (1, 4));
    let found = grep_files(&[file("a.rs", "Let X = 1\nlet x = 2")], "let x", false, 0);
    assert_eq!(found.len(), 2);
    assert_eq!(found[0].text, "Let X = 1");
}

#[test]
fn the_column_counts_bytes_from_one() {
    let found = grep_files(&[file("a.txt", "\u{e9} x\n\u{4e2d}\u{1f600}x")], "x", true, 0);
    assert_eq!(found.len(), 2);
    assert_eq!(found[0].column, 4);
    assert_eq!(found[1].column, 8);
    let found = grep_files(&[file("a.txt", "abc")], "", true, 0);
    assert_eq!((found.len(), found[0].column), (1, 1));
}

#[test]
fn files_in_order_and_lines_in_order() {
    let files = [file("b.rs", "x\ny\nx"), file("a.rs", "y"), file("c.rs", "xx\r\n\nx")];
    let found = grep_files(&files, "x", true, 0);
    let places: Vec<(&str, usize)> = found.iter().map(|m| (m.file.as_str(), m.line)).collect();
    assert_eq!(places, vec![("b.rs", 1), ("b.rs", 3), ("c.rs", 1), ("c.rs", 3)]);
    assert_eq!(found[2].text, "xx");
    assert!(grep_files(&[], "x", true, 3).is_empty());
    assert!(grep_files(&[file("a", "")], "", true, 3).is_empty());
}

#[test]
fn the_report_of_no_matches() {
    assert_eq!(format_matches(&[]), "No matches found.");
}

#[test]
fn the_report_lists_context_and_matches_and_counts_them() {
    let found = grep_files(&[file("a.rs", MAIN)], "x", true, 1);
    assert_eq!(
        format_matches(&found),
        "a.rs:1- fn main() {\na.rs:2:    let x = 1;\na.rs:3-     println!(\"x\");\n\
         a.rs:2-     let x = 1;\na.rs:3:    println!(\"x\");\na.rs:4- }\n\n2 matches across 1 files"
    );
}

#[test]
fn the_report_parts_files_by_an_empty_line() {
    let files = [file("b.rs", "x\ny\nx"), file("a.rs", "x")];
    let found = grep_files(&files, "x", true, 0);
    assert_eq!(
        format_matches(&found),
        "b.rs:1:x\nb.rs:3:x\n\na.rs:1:x\n\n3 matches across 2 files"
    );
    let mixed = vec![
        SearchMatch {
            file: "a".into(),
            line: 10,
            column: 1,
            text: "t".into(),
            context_before: vec!["p".into(), "q".into()],
            context_after: vec!["r".into()],
        },
        SearchMatch {
            file: "b".into(),
            line: 1,
            column: 1,
            text: "u".into(),
            context_before: vec![],
            context_after: vec![],
        },
        SearchMatch {
            file: "a".into(),
            line: 12,
            column: 3,
            text: "v".into(),
            context_before: vec![],
            context_after: vec![],
        },
    ];
    assert_eq!(
        format_matches(&mixed),
        "a:8- p\na:9- q\na:10:t\na:11- r\n\nb:1:u\n\na:12:v\n\n3 matches across 2 files"
    );
}

#[test]
fn a_first_match_in_a_file_without_name_opens_no_gap() {
    let found = vec![
        SearchMatch {
            file: "".into(),
            line: 1,
            column: 1,
            text: "t".into(),
            context_before: vec![],
            context_after: vec![],
        },
        SearchMatch {
            file: "".into(),
            line: 2,
            column: 1,
            text: "u".into(),
            context_before: vec![],
            context_after: vec![],
        },
    ];
    assert_eq!(format_matches(&found), ":1:t\n:2:u\n\n2 matches across 1 files");
}
