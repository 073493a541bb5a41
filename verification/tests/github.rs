use inspect::github::{
    attach_patches, contents_path, decode_content, map_change_type, parse_raw_diff, search_matches,
    search_url, split_repo, CodeSearchItem, CodeSearchRepo, CodeSearchResponse, GitHubError,
    PrFile, PullRequest, TextMatch, TextMatchLocation,
};

#[test]
fn the_hosts_words_for_a_change() {
    let cases = [
        ("ADDED", "added"),
        ("DELETED", "removed"),
        ("REMOVED", "removed"),
        ("MODIFIED", "modified"),
        ("CHANGED", "modified"),
        ("RENAMED", "renamed"),
        ("COPIED", "copied"),
        ("Added", "added"),
        ("deleted", "deleted"),
        ("Something ELSE", "something else"),
        ("", ""),
    ];
    for (given, expected) in cases {
        assert_eq!(map_change_type(given), expected);
    }
}

#[test]
fn owner_and_name_of_a_repository() {
    assert_eq!(split_repo("owner/repo").unwrap(), ("owner", "repo"));
    assert_eq!(split_repo("a/b/c").unwrap(), ("a", "b/c"));
    assert_eq!(split_repo("/").unwrap(), ("", ""));
    assert_eq!(split_repo("\u{e9}/\u{4e2d}").unwrap(), ("\u{e9}", "\u{4e2d}"));
    match split_repo("norepo") {
        Err(GitHubError::Parse(m)) => assert_eq!(m, "Repository must be owner/repo, got: norepo"),
        _ => panic!("a parse error was expected"),
    }
    assert!(matches!(split_repo(""), Err(GitHubError::Parse(_))));
}

#[test]
fn the_words_of_the_errors() {
    assert_eq!(GitHubError::Auth("no token".into()).message(), "auth error: no token");
    assert_eq!(GitHubError::Api("404".into()).message(), "GitHub API error: 404");
    assert_eq!(GitHubError::Parse("eof".into()).message(), "parse error: eof");
}

const RAW: &str = "diff --git a/src/a.rs b/src/a.rs\nindex 111..222 100644\n--- a/src/a.rs\n+++ b/src/a.rs\n@@ -1,2 +1,2 @@\n fn a() {\n-    1\n+    2\ndiff --git a/b.txt b/b.txt\nnew file mode 100644\n--- /dev/null\n+++ b/b.txt\n@@ -0,0 +1 @@\n+hello\ndiff --git a/gone.rs b/gone.rs\ndeleted file mode 100644\n--- a/gone.rs\n+++ /dev/null\n@@ -1 +0,0 @@\n-bye\n";

fn pairs(v: &[(&str, &str)]) -> Vec<(String, String)> {
    v.iter().map(|(a, b)| (a.to_string(), b.to_string())).collect()
}

#[test]
fn the_patch_of_each_file_of_a_raw_diff() {
    assert_eq!(
        parse_raw_diff(RAW),
        pairs(&[
            ("src/a.rs", "@@ -1,2 +1,2 @@\n fn a() {\n-    1\n+    2"),
            ("b.txt", "@@ -0,0 +1 @@\n+hello"),
        ])
    );
    assert!(parse_raw_diff("").is_empty());
    assert!(parse_raw_diff("@@ -1 +1 @@\n-a\n+b").is_empty());
}

#[test]
fn header_lines_are_no_part_of_a_patch() {
    let raw = "+++ b/x\nindex 1\nnew file\ndeleted file\nold mode\nnew mode\nsimilarity 9\nrename from\n--- a\n+++ c\n@@ -1 +1 @@\n kept\n--- dropped\n@@ index kept\n";
    assert_eq!(parse_raw_diff(raw), pairs(&[("x", "@@ -1 +1 @@\n kept\n@@ index kept")]));
}

#[test]
fn of_two_patches_for_one_path_the_later_stays() {
    let raw = "diff --git 1\n+++ b/x\n+one\ndiff --git 2\n+++ b/y\n+two\ndiff --git 3\n+++ b/x\n+three\n";
    assert_eq!(parse_raw_diff(raw), pairs(&[("x", "+three"), ("y", "+two")]));
    let renamed_midway = "+++ b/x\n+one\n+++ b/y\n+two\n";
    assert_eq!(parse_raw_diff(renamed_midway), pairs(&[("y", "+one\n+two")]));
    let empty_first = "+++ b/x\n\n+one\n\n";
    assert_eq!(parse_raw_diff(empty_first), pairs(&[("x", "+one\n")]));
}

fn pr_file(name: &str, patch: Option<&str>) -> PrFile {
    PrFile {
        filename: name.into(),
        status: "modified".into(),
        additions: 1,
        deletions: 2,
        patch: patch.map(String::from),
    }
}

#[test]
fn files_get_the_patches_that_the_raw_diff_holds_for_them() {
    let files = vec![pr_file("b.txt", None), pr_file("other.rs", Some("kept")), pr_file("src/a.rs", Some("old"))];
    let patched = attach_patches(files, RAW);
    let seen: Vec<(&str, Option<&str>)> =
        patched.iter().map(|f| (f.filename.as_str(), f.patch.as_deref())).collect();
    assert_eq!(
        seen,
        vec![
            ("b.txt", Some("@@ -0,0 +1 @@\n+hello")),
            ("other.rs", Some("kept")),
            ("src/a.rs", Some("@@ -1,2 +1,2 @@\n fn a() {\n-    1\n+    2")),
        ]
    );
    assert_eq!((patched[0].additions, patched[0].deletions), (1, 2));
    assert_eq!(patched[0].status, "modified");
    let pr = PullRequest {
        number: 1,
        title: "t".into(),
        body: None,
        state: "OPEN".into(),
        additions: 1,
        deletions: 1,
        changed_files: 1,
        head_ref: "h".into(),
        base_ref: "b".into(),
        head_sha: "s".into(),
        files: patched,
    };
    assert_eq!(pr.files.len(), 3);
}

#[test]
fn the_content_of_a_file_as_the_host_sends_it() {
    assert_eq!(decode_content("aGVsbG8=").unwrap(), "hello");
    assert_eq!(decode_content("aGVs\nbG8g\r\n d29y bGQ=\n").unwrap(), "hello world");
    assert_eq!(decode_content("").unwrap(), "");
    assert_eq!(decode_content(" \n ").unwrap(), "");
    assert_eq!(decode_content("w6l0w6k=").unwrap(), "\u{e9}t\u{e9}");
    match decode_content("not base64!") {
        Err(GitHubError::Parse(m)) => assert!(m.starts_with("base64 decode: "), "{}", m),
        _ => panic!("a parse error was expected"),
    }
    match decode_content("aGVsbG8") {
        Err(GitHubError::Parse(m)) => assert!(m.starts_with("base64 decode: "), "{}", m),
        _ => panic!("a parse error was expected"),
    }
    match decode_content("/w==") {
        Err(GitHubError::Parse(m)) => assert!(m.starts_with("utf8: "), "{}", m),
        _ => panic!("a parse error was expected"),
    }
}

#[test]
fn the_address_of_a_files_content() {
    assert_eq!(
        contents_path("o/r", "src/a b.rs", "main"),
        "/repos/o/r/contents/src%2Fa%20b.rs?ref=main"
    );
    assert_eq!(contents_path("o/r", "Az09-_.~", "v1"), "/repos/o/r/contents/Az09-_.~?ref=v1");
    assert_eq!(contents_path("o/r", "\u{e9}+%", "x y"), "/repos/o/r/contents/%C3%A9%2B%25?ref=x y");
    assert_eq!(contents_path("", "", ""), "/repos//contents/?ref=");
}

#[test]
fn the_address_of_a_code_search() {
    assert_eq!(
        search_url("https://api.github.com", "o/r", "foo bar", Some("src")),
        "https://api.github.com/search/code?q=foo%20bar%20repo%3Ao%2Fr%20path%3Asrc&per_page=100"
    );
    assert_eq!(
        search_url("http://h", "o/r", "x", None),
        "http://h/search/code?q=x%20repo%3Ao%2Fr&per_page=100"
    );
}

fn item(path: &str, fragments: Option<Vec<&str>>) -> CodeSearchItem {
    CodeSearchItem {
        name: "n".into(),
        path: path.into(),
        repository: CodeSearchRepo { full_name: "o/r".into() },
        html_url: "u".into(),
        text_matches: fragments.map(|fs| {
            fs.into_iter()
                .map(|f| TextMatch {
                    fragment: f.into(),
                    matches: vec![TextMatchLocation { indices: vec![0, 1] }],
                })
                .collect()
        }),
    }
}

#[test]
fn what_a_code_search_adds_to_the_matches() {
    let response = CodeSearchResponse {
        total_count: 5,
        items: vec![
            item("src/known.rs", Some(vec!["let x = 1;"])),
            item("Cargo.lock", Some(vec!["x"])),
            item("src/new.rs", Some(vec!["a\nlet X = 1;\nx", "y", "  x"])),
            item("src/none.rs", None),
            item("src/late.rs", Some(vec![])),
            item("lib/z.rs", Some(vec!["\u{e9}x"])),
        ],
    };
    let pr_files = vec!["src/known.rs".to_string()];
    let found = search_matches(&response, &pr_files, "x", true);
    let seen: Vec<(&str, usize, usize, &str)> =
        found.iter().map(|m| (m.file.as_str(), m.line, m.column, m.text.as_str())).collect();
    assert_eq!(
        seen,
        vec![("src/new.rs", 3, 1, "x"), ("src/new.rs", 1, 3, "  x"), ("lib/z.rs", 1, 3, "\u{e9}x")]
    );
    for m in &found {
        assert!(m.context_before.is_empty());
        assert!(m.context_after.is_empty());
    }
    let found = search_matches(&response, &pr_files, "X", false);
    assert_eq!(found.len(), 4);
    assert_eq!((found[0].line, found[0].column), (2, 5));
    let none = CodeSearchResponse { total_count: 0, items: vec![] };
    assert!(search_matches(&none, &pr_files, "x", true).is_empty());
}
