//! What the library shares with a client of a code host: the shapes of a
//! pull request and of its files, and the text work on what the host sends.

use vstd::prelude::*;
use vstd::utf8::{decode_utf8, encode_utf8, valid_utf8};
use crate::noise::{is_noise, is_noise_file};
use crate::search::{
    fold_pattern, grep_into, match_texts, matches_in, MatchText, SearchMatch,
};
use crate::text::{opt_slice, opt_text, text_pairs, 
    chars_of, has_prefix, index_of, is_whitespace, lines, lowercase, position_of, push_all,
    push_str, rows, same_as, slice_of, split_lines, starts_with, text_of, texts, to_lowercase,
    whitespace,
};

verus! {

/// `base64::DecodeError`: why a text is no base64. Only its words are
/// read.
#[verifier::external_type_specification]
#[verifier::external_body]
pub struct ExDecodeError(base64::DecodeError);

/// `std::string::FromUtf8Error`: why bytes are no UTF-8. Only its words
/// are read.
#[verifier::external_type_specification]
#[verifier::external_body]
pub struct ExFromUtf8Error(std::string::FromUtf8Error);

/// What went wrong with the code host.
#[derive(Debug)]
pub enum GitHubError {
    /// No token, or one that cannot be sent.
    Auth(String),
    /// The host refused or could not be reached.
    Api(String),
    /// The host's answer could not be read.
    Parse(String),
}

impl GitHubError {
    /// The text that stands for the error.
    pub open spec fn message_spec(self) -> Seq<char> {
        match self {
            GitHubError::Auth(m) => "auth error: "@ + m@,
            GitHubError::Api(m) => "GitHub API error: "@ + m@,
            GitHubError::Parse(m) => "parse error: "@ + m@,
        }
    }

    /// The text that stands for the error.
    pub fn message(&self) -> (r: String)
        ensures
            r@ == self.message_spec(),
    {
        let mut out: Vec<char> = Vec::new();
        match self {
            GitHubError::Auth(m) => {
                push_str(&mut out, "auth error: ");
                push_str(&mut out, m.as_str());
            },
            GitHubError::Api(m) => {
                push_str(&mut out, "GitHub API error: ");
                push_str(&mut out, m.as_str());
            },
            GitHubError::Parse(m) => {
                push_str(&mut out, "parse error: ");
                push_str(&mut out, m.as_str());
            },
        }
        text_of(out.as_slice())
    }
}

/// A pull request with its changed files.
#[derive(Debug, Clone)]
pub struct PullRequest {
    pub number: u64,
    pub title: String,
    pub body: Option<String>,
    pub state: String,
    pub additions: u64,
    pub deletions: u64,
    pub changed_files: u64,
    pub head_ref: String,
    pub base_ref: String,
    pub head_sha: String,
    pub files: Vec<PrFile>,
}

/// A changed file of a pull request.
#[derive(Debug, Clone)]
pub struct PrFile {
    pub filename: String,
    /// One of `added`, `modified`, `removed`, `renamed`, `copied`.
    pub status: String,
    pub additions: u64,
    pub deletions: u64,
    pub patch: Option<String>,
}

/// A changed file of a pull request with its content on both sides.
#[derive(Debug, Clone)]
pub struct FilePair {
    pub filename: String,
    /// One of `added`, `modified`, `removed`, `renamed`, `copied`.
    pub status: String,
    pub before_content: Option<String>,
    pub after_content: Option<String>,
}

/// The answer of the host's code search.
#[derive(Debug)]
pub struct CodeSearchResponse {
    pub total_count: u64,
    pub items: Vec<CodeSearchItem>,
}

/// One file that the code search found.
#[derive(Debug)]
pub struct CodeSearchItem {
    pub name: String,
    pub path: String,
    pub repository: CodeSearchRepo,
    pub html_url: String,
    pub text_matches: Option<Vec<TextMatch>>,
}

/// The repository of a file that the code search found.
#[derive(Debug)]
pub struct CodeSearchRepo {
    pub full_name: String,
}

/// A fragment of a file around what the code search matched.
#[derive(Debug)]
pub struct TextMatch {
    pub fragment: String,
    pub matches: Vec<TextMatchLocation>,
}

/// Where in a fragment the code search matched.
#[derive(Debug)]
pub struct TextMatchLocation {
    pub indices: Vec<u64>,
}

/// The status of a file by the host's word for its change: the known words
/// in lower case, with `removed` for a deletion and `modified` for a
/// change; any other word in its lower-case form.
pub open spec fn change_word(ct: Seq<char>) -> Seq<char> {
    if ct == "ADDED"@ {
        "added"@
    } else if ct == "DELETED"@ || ct == "REMOVED"@ {
        "removed"@
    } else if ct == "MODIFIED"@ || ct == "CHANGED"@ {
        "modified"@
    } else if ct == "RENAMED"@ {
        "renamed"@
    } else if ct == "COPIED"@ {
        "copied"@
    } else {
        lowercase(ct)
    }
}

/// The status of a file by the host's word for its change.
pub fn map_change_type(ct: &str) -> (r: String)
    ensures
        r@ == change_word(ct@),
{
    let c = chars_of(ct);
    let c = c.as_slice();
    let fixed: Option<&str> = if same_as(c, "ADDED") {
        Some("added")
    } else if same_as(c, "DELETED") || same_as(c, "REMOVED") {
        Some("removed")
    } else if same_as(c, "MODIFIED") || same_as(c, "CHANGED") {
        Some("modified")
    } else if same_as(c, "RENAMED") {
        Some("renamed")
    } else if same_as(c, "COPIED") {
        Some("copied")
    } else {
        None
    };
    match fixed {
        Some(word) => text_of(chars_of(word).as_slice()),
        None => to_lowercase(ct),
    }
}

/// Owner and name of a repository `owner/name`: what stands before and
/// after the first `/`. A text without `/` names no repository.
pub fn split_repo<'a>(repo: &'a str) -> (r: Result<(&'a str, &'a str), GitHubError>)
    ensures
        r is Ok <==> index_of(repo@, '/', 0) < repo@.len(),
        r matches Ok(parts) ==> parts.0@ == repo@.subrange(0, index_of(repo@, '/', 0)) && parts.1@
            == repo@.subrange(index_of(repo@, '/', 0) + 1, repo@.len() as int),
        r matches Err(e) ==> e matches GitHubError::Parse(m) && m@
            == "Repository must be owner/repo, got: "@ + repo@,
{
    let chars = chars_of(repo);
    let at = position_of(chars.as_slice(), '/');
    if at < chars.len() {
        let total = repo.unicode_len();
        Ok((repo.substring_char(0, at), repo.substring_char(at + 1, total)))
    } else {
        let mut out: Vec<char> = Vec::new();
        push_str(&mut out, "Repository must be owner/repo, got: ");
        push_str(&mut out, repo);
        Err(GitHubError::Parse(text_of(out.as_slice())))
    }
}

/// Where the reading of a raw diff stands: the patches found, the file at
/// hand if its path has been read, and its patch so far.
pub struct DiffState {
    pub patches: Seq<(Seq<char>, Seq<char>)>,
    pub file: Option<Seq<char>>,
    pub patch: Seq<char>,
}

/// The first index at or after `i` that holds no line feed, or the length.
pub open spec fn skip_feeds(s: Seq<char>, i: int) -> int
    decreases s.len() - i,
{
    if 0 <= i < s.len() && s[i] == '\n' {
        skip_feeds(s, i + 1)
    } else {
        i
    }
}

/// A text without the line feeds it begins with.
pub open spec fn without_leading_feeds(s: Seq<char>) -> Seq<char> {
    let k = skip_feeds(s, 0);
    if 0 <= k <= s.len() {
        s.subrange(k, s.len() as int)
    } else {
        s
    }
}

/// The index of the first of the first `n` entries that is filed under
/// `file`, or `n`.
pub open spec fn entry_of(patches: Seq<(Seq<char>, Seq<char>)>, file: Seq<char>, n: int) -> int
    decreases n,
{
    if n <= 0 {
        0
    } else {
        let before = entry_of(patches, file, n - 1);
        if before < n - 1 {
            before
        } else if patches[n - 1].0 == file {
            n - 1
        } else {
            n
        }
    }
}

/// The patches with `patch` filed under `file`: in place of the patch that
/// was filed under it, or at the end.
pub open spec fn filed(
    patches: Seq<(Seq<char>, Seq<char>)>,
    file: Seq<char>,
    patch: Seq<char>,
) -> Seq<(Seq<char>, Seq<char>)> {
    let at = entry_of(patches, file, patches.len() as int);
    if 0 <= at < patches.len() {
        patches.update(at, (file, patch))
    } else {
        patches.push((file, patch))
    }
}

/// The patches once the file at hand is closed: its patch is filed under
/// its path unless it is empty.
pub open spec fn closed(state: DiffState) -> Seq<(Seq<char>, Seq<char>)> {
    match state.file {
        Some(f) => if state.patch.len() > 0 {
            filed(state.patches, f, without_leading_feeds(state.patch))
        } else {
            state.patches
        },
        None => state.patches,
    }
}

/// A line of a file's header that is no part of its patch.
pub open spec fn is_header_line(line: Seq<char>) -> bool {
    ||| starts_with(line, "--- "@)
    ||| starts_with(line, "+++ "@)
    ||| starts_with(line, "index "@)
    ||| starts_with(line, "new file"@)
    ||| starts_with(line, "deleted file"@)
    ||| starts_with(line, "old mode"@)
    ||| starts_with(line, "new mode"@)
    ||| starts_with(line, "similarity"@)
    ||| starts_with(line, "rename "@)
}

/// The state after one more line of the raw diff.
///
/// A line `diff --git ...` closes the file at hand. A line `+++ b/<path>`
/// names the file at hand. Once the file is named, hunk headers and all
/// lines that are no header lines are its patch.
pub open spec fn read_diff_line(state: DiffState, line: Seq<char>) -> DiffState {
    if starts_with(line, "diff --git "@) {
        DiffState { patches: closed(state), file: None, patch: Seq::empty() }
    } else if starts_with(line, "+++ b/"@) {
        DiffState { file: Some(line.subrange(6, line.len() as int)), ..state }
    } else if state.file is Some && (starts_with(line, "@@"@) || !is_header_line(line)) {
        DiffState {
            patch: if state.patch.len() > 0 {
                state.patch + "\n"@ + line
            } else {
                line
            },
            ..state
        }
    } else {
        state
    }
}

/// The state after the first `n` lines of a raw diff.
pub open spec fn diff_state(all: Seq<Seq<char>>, n: int) -> DiffState
    decreases n,
{
    if n <= 0 {
        DiffState { patches: Seq::empty(), file: None, patch: Seq::empty() }
    } else {
        read_diff_line(diff_state(all, n - 1), all[n - 1])
    }
}

/// The patch of each file of a raw diff, filed under the file's new path.
pub open spec fn patches_of(raw: Seq<char>) -> Seq<(Seq<char>, Seq<char>)> {
    closed(diff_state(lines(raw), lines(raw).len() as int))
}

/// Files `patch` under `file`.
fn file_patch(patches: &mut Vec<(String, String)>, file: &[char], patch: &[char])
    ensures
        text_pairs(final(patches)@) == filed(text_pairs(old(patches)@), file@, patch@),
{
    let ghost given = text_pairs(patches@);
    let total: usize = patches.len();
    let mut at: usize = 0;
    while at < total && !crate::text::same(chars_of(patches[at].0.as_str()).as_slice(), file)
        invariant
            at <= total,
            total == patches@.len(),
            given == text_pairs(patches@),
            entry_of(given, file@, at as int) == at,
        decreases total - at,
    {
        assert(given[at as int].0 == patches@[at as int].0@);
        at += 1;
    }
    let entry = (text_of(file), text_of(patch));
    if at < total {
        assert(given[at as int].0 == patches@[at as int].0@);
        proof {
            lemma_entry_found(given, file@, at as int, total as int);
        }
        patches.set(at, entry);
        assert(text_pairs(patches@) =~= given.update(at as int, (file@, patch@)));
    } else {
        patches.push(entry);
        assert(text_pairs(patches@) =~= given.push((file@, patch@)));
    }
}

/// An entry that is the first under its path among the first `k + 1`
/// entries is the first among all.
proof fn lemma_entry_found(patches: Seq<(Seq<char>, Seq<char>)>, file: Seq<char>, k: int, n: int)
    requires
        0 <= k < n <= patches.len(),
        entry_of(patches, file, k) == k,
        patches[k].0 == file,
    ensures
        entry_of(patches, file, n) == k,
    decreases n - k,
{
    if n > k + 1 {
        lemma_entry_found(patches, file, k, n - 1);
    }
}

/// The patch of each file of a raw diff, filed under the file's new path.
/// Of two patches under one path the later stays.
pub fn parse_raw_diff(raw: &str) -> (patches: Vec<(String, String)>)
    ensures
        text_pairs(patches@) == patches_of(raw@),
{
    let text = chars_of(raw);
    let ls = split_lines(text.as_slice());
    let ghost all = lines(raw@);
    let mut patches: Vec<(String, String)> = Vec::new();
    let mut named = false;
    let mut file: Vec<char> = Vec::new();
    let mut patch: Vec<char> = Vec::new();
    let mut i: usize = 0;
    assert(text_pairs(patches@) =~= diff_state(all, 0).patches);
    while i < ls.len()
        invariant
            i <= ls@.len(),
            rows(ls@) == all,
            text_pairs(patches@) == diff_state(all, i as int).patches,
            named == (diff_state(all, i as int).file is Some),
            named ==> diff_state(all, i as int).file->0 == file@,
            patch@ == diff_state(all, i as int).patch,
        decreases ls@.len() - i,
    {
        let line = ls[i].as_slice();
        assert(line@ == all[i as int]) by {
            assert(rows(ls@)[i as int] == ls@[i as int]@);
        }
        proof {
            reveal_strlit("+++ b/");
        }
        if has_prefix(line, "diff --git ") {
            if named && patch.len() > 0 {
                let body = strip_feeds(patch.as_slice());
                file_patch(&mut patches, file.as_slice(), body.as_slice());
            }
            named = false;
            patch = Vec::new();
        } else if has_prefix(line, "+++ b/") {
            file = slice_of(line, 6, line.len());
            named = true;
        } else if named && (has_prefix(line, "@@") || !is_header(line)) {
            if patch.len() > 0 {
                push_str(&mut patch, "\n");
            }
            push_all(&mut patch, line);
        }
        i += 1;
    }
    if named && patch.len() > 0 {
        let body = strip_feeds(patch.as_slice());
        file_patch(&mut patches, file.as_slice(), body.as_slice());
    }
    patches
}

/// Whether a line belongs to a file's header.
fn is_header(line: &[char]) -> (r: bool)
    ensures
        r == is_header_line(line@),
{
    has_prefix(line, "--- ") || has_prefix(line, "+++ ") || has_prefix(line, "index ")
        || has_prefix(line, "new file") || has_prefix(line, "deleted file") || has_prefix(
        line,
        "old mode",
    ) || has_prefix(line, "new mode") || has_prefix(line, "similarity") || has_prefix(
        line,
        "rename ",
    )
}

/// A text without the line feeds it begins with.
fn strip_feeds(s: &[char]) -> (v: Vec<char>)
    ensures
        v@ == without_leading_feeds(s@),
{
    let n: usize = s.len();
    let mut k: usize = 0;
    while k < n && s[k] == '\n'
        invariant
            k <= n,
            n == s@.len(),
            skip_feeds(s@, 0) == skip_feeds(s@, k as int),
        decreases n - k,
    {
        k += 1;
    }
    slice_of(s, k, n)
}

/// The patch filed under `file`, if there is one.
pub open spec fn patch_for(patches: Seq<(Seq<char>, Seq<char>)>, file: Seq<char>) -> Option<
    Seq<char>,
> {
    let at = entry_of(patches, file, patches.len() as int);
    if 0 <= at < patches.len() {
        Some(patches[at].1)
    } else {
        None
    }
}

/// The files of a pull request, each with the patch that the raw diff
/// holds for it; a file without one keeps the patch it has.
pub fn attach_patches(files: Vec<PrFile>, raw_diff: &str) -> (patched: Vec<PrFile>)
    ensures
        patched@.len() == files@.len(),
        forall|i: int|
            0 <= i < files@.len() ==> {
                let given = files@[i];
                let found = patch_for(patches_of(raw_diff@), given.filename@);
                &&& (#[trigger] patched@[i]).filename == given.filename
                &&& patched@[i].status == given.status
                &&& patched@[i].additions == given.additions
                &&& patched@[i].deletions == given.deletions
                &&& opt_text(patched@[i].patch) == if found is Some {
                    found
                } else {
                    opt_text(given.patch)
                }
            },
{
    let patches = parse_raw_diff(raw_diff);
    let ghost known = text_pairs(patches@);
    let ghost all = files@;
    let mut patched: Vec<PrFile> = Vec::new();
    for f in it: files
        invariant
            it.seq() == all,
            known == text_pairs(patches@),
            known == patches_of(raw_diff@),
            patched@.len() == it.index(),
            forall|i: int|
                0 <= i < patched@.len() ==> {
                    let given = all[i];
                    let found = patch_for(known, given.filename@);
                    &&& (#[trigger] patched@[i]).filename == given.filename
                    &&& patched@[i].status == given.status
                    &&& patched@[i].additions == given.additions
                    &&& patched@[i].deletions == given.deletions
                    &&& opt_text(patched@[i].patch) == if found is Some {
                        found
                    } else {
                        opt_text(given.patch)
                    }
                },
    {
        let total: usize = patches.len();
        let mut at: usize = 0;
        while at < total && !(patches[at].0 == f.filename)
            invariant
                at <= total,
                total == patches@.len(),
                known == text_pairs(patches@),
                entry_of(known, f.filename@, at as int) == at,
            decreases total - at,
        {
            assert(known[at as int].0 == patches@[at as int].0@);
            at += 1;
        }
        let patch = if at < total {
            assert(known[at as int] == (patches@[at as int].0@, patches@[at as int].1@));
            proof {
                lemma_entry_found(known, f.filename@, at as int, total as int);
            }
            Some(patches[at].1.clone())
        } else {
            f.patch
        };
        patched.push(
            PrFile {
                filename: f.filename,
                status: f.status,
                additions: f.additions,
                deletions: f.deletions,
                patch,
            },
        );
    }
    patched
}

/// What base64 text decodes to under the standard alphabet with
/// padding, if it decodes at all.
pub uninterp spec fn base64_decoded(text: Seq<char>) -> Option<Seq<u8>>;

/// `Engine::decode` of `base64` on the engine `STANDARD`: the bytes that
/// the text stands for, or the error where it stands for none. The result
/// depends on the text alone.
#[verifier::external_body]
fn decode_base64(text: &str) -> (r: Result<Vec<u8>, base64::DecodeError>)
    ensures
        r is Ok <==> base64_decoded(text@) is Some,
        r matches Ok(bytes) ==> base64_decoded(text@) == Some(bytes@),
{
    base64::Engine::decode(&base64::engine::general_purpose::STANDARD, text)
}

/// The words of a `base64::DecodeError`, as its `Display` gives them.
#[verifier::external_body]
fn decode_error_text(e: &base64::DecodeError) -> (r: String) {
    e.to_string()
}

/// `String::from_utf8`: the text that the bytes encode, where they are
/// valid UTF-8, and the error where they are not.
#[verifier::external_body]
fn text_from_utf8(bytes: Vec<u8>) -> (r: Result<String, std::string::FromUtf8Error>)
    ensures
        r is Ok <==> valid_utf8(bytes@),
        r matches Ok(s) ==> s@ == decode_utf8(bytes@),
{
    String::from_utf8(bytes)
}

/// The words of a `FromUtf8Error`, as its `Display` gives them.
#[verifier::external_body]
fn utf8_error_text(e: &std::string::FromUtf8Error) -> (r: String) {
    e.to_string()
}

/// The first `n` characters of a text without the whitespace among them.
pub open spec fn without_whitespace(s: Seq<char>, n: int) -> Seq<char>
    decreases n,
{
    if n <= 0 {
        Seq::empty()
    } else if is_whitespace(s[n - 1]) {
        without_whitespace(s, n - 1)
    } else {
        without_whitespace(s, n - 1).push(s[n - 1])
    }
}

/// The content of a file as the host sends it: base64 text, broken into
/// lines, of the file's UTF-8 text.
///
/// The whitespace is dropped and the rest decoded. Text that is no base64
/// and bytes that are no UTF-8 are errors of reading.
pub fn decode_content(encoded: &str) -> (r: Result<String, GitHubError>)
    ensures
        ({
            let cleaned = without_whitespace(encoded@, encoded@.len() as int);
            match base64_decoded(cleaned) {
                Some(bytes) => if valid_utf8(bytes) {
                    r matches Ok(s) && s@ == decode_utf8(bytes)
                } else {
                    r matches Err(GitHubError::Parse(m)) && starts_with(m@, "utf8: "@)
                },
                None => r matches Err(GitHubError::Parse(m)) && starts_with(
                    m@,
                    "base64 decode: "@,
                ),
            }
        }),
{
    let chars = chars_of(encoded);
    let mut cleaned: Vec<char> = Vec::new();
    let mut i: usize = 0;
    while i < chars.len()
        invariant
            i <= chars@.len(),
            chars@ == encoded@,
            cleaned@ == without_whitespace(encoded@, i as int),
        decreases chars@.len() - i,
    {
        if !whitespace(chars[i]) {
            cleaned.push(chars[i]);
        }
        i += 1;
    }
    let text = text_of(cleaned.as_slice());
    match decode_base64(text.as_str()) {
        Ok(bytes) => match text_from_utf8(bytes) {
            Ok(s) => Ok(s),
            Err(e) => {
                let mut out: Vec<char> = Vec::new();
                push_str(&mut out, "utf8: ");
                let ghost head = out@;
                push_str(&mut out, utf8_error_text(&e).as_str());
                assert(out@.subrange(0, head.len() as int) =~= head);
                Err(GitHubError::Parse(text_of(out.as_slice())))
            },
        },
        Err(e) => {
            let mut out: Vec<char> = Vec::new();
            push_str(&mut out, "base64 decode: ");
            let ghost head = out@;
            push_str(&mut out, decode_error_text(&e).as_str());
            assert(out@.subrange(0, head.len() as int) =~= head);
            Err(GitHubError::Parse(text_of(out.as_slice())))
        },
    }
}

/// A byte that stands for itself in a URL: a letter, a digit, `-`, `.`,
/// `_` or `~`.
pub open spec fn is_unreserved(b: u8) -> bool {
    ||| 0x30 <= b <= 0x39
    ||| 0x41 <= b <= 0x5A
    ||| 0x61 <= b <= 0x7A
    ||| b == 0x2D
    ||| b == 0x2E
    ||| b == 0x5F
    ||| b == 0x7E
}

/// The upper-case hexadecimal digit of a number below 16.
pub open spec fn hex_digit(d: int) -> char {
    if d < 10 {
        (0x30 + d) as char
    } else {
        (0x41 + d - 10) as char
    }
}

/// The first `n` bytes in percent-encoding: unreserved bytes as they are,
/// every other byte as `%` and its two hexadecimal digits.
pub open spec fn percent_encoded(bytes: Seq<u8>, n: int) -> Seq<char>
    decreases n,
{
    if n <= 0 {
        Seq::empty()
    } else {
        let b = bytes[n - 1];
        if is_unreserved(b) {
            percent_encoded(bytes, n - 1).push(b as char)
        } else {
            percent_encoded(bytes, n - 1) + seq!['%', hex_digit(b as int / 16), hex_digit(b as int % 16)]
        }
    }
}

/// A text in percent-encoding of its UTF-8 bytes.
pub open spec fn url_encoded(s: Seq<char>) -> Seq<char> {
    percent_encoded(encode_utf8(s), encode_utf8(s).len() as int)
}

/// `urlencoding::encode`: the text with every byte of its UTF-8 form
/// percent-encoded but letters, digits, `-`, `.`, `_` and `~`.
#[verifier::external_body]
fn url_encode(s: &str) -> (r: String)
    ensures
        r@ == url_encoded(s@),
{
    urlencoding::encode(s).into_owned()
}

/// The path under which the host serves the content of a file at a ref.
pub fn contents_path(repo: &str, path: &str, git_ref: &str) -> (r: String)
    ensures
        r@ == "/repos/"@ + repo@ + "/contents/"@ + url_encoded(path@) + "?ref="@ + git_ref@,
{
    let mut out: Vec<char> = Vec::new();
    push_str(&mut out, "/repos/");
    push_str(&mut out, repo);
    push_str(&mut out, "/contents/");
    push_str(&mut out, url_encode(path).as_str());
    push_str(&mut out, "?ref=");
    push_str(&mut out, git_ref);
    assert(out@ =~= "/repos/"@ + repo@ + "/contents/"@ + url_encoded(path@) + "?ref="@ + git_ref@);
    text_of(out.as_slice())
}

/// The query of a code search in one repository, under a path where one
/// is given.
pub open spec fn search_query(
    repo: Seq<char>,
    query: Seq<char>,
    path_prefix: Option<Seq<char>>,
) -> Seq<char> {
    let q = query + " repo:"@ + repo;
    match path_prefix {
        Some(p) => q + " path:"@ + p,
        None => q,
    }
}

/// The address of a code search on the host at `base_url`.
pub fn search_url(base_url: &str, repo: &str, query: &str, path_prefix: Option<&str>) -> (r: String)
    ensures
        r@ == base_url@ + "/search/code?q="@ + url_encoded(
            search_query(repo@, query@, opt_slice(path_prefix)),
        ) + "&per_page=100"@,
{
    let mut q: Vec<char> = Vec::new();
    push_str(&mut q, query);
    push_str(&mut q, " repo:");
    push_str(&mut q, repo);
    match path_prefix {
        Some(p) => {
            push_str(&mut q, " path:");
            push_str(&mut q, p);
        },
        None => {},
    }
    assert(q@ =~= search_query(repo@, query@, opt_slice(path_prefix)));
    let encoded = url_encode(text_of(q.as_slice()).as_str());
    let mut out: Vec<char> = Vec::new();
    push_str(&mut out, base_url);
    push_str(&mut out, "/search/code?q=");
    push_str(&mut out, encoded.as_str());
    push_str(&mut out, "&per_page=100");
    assert(out@ =~= base_url@ + "/search/code?q="@ + url_encoded(
        search_query(repo@, query@, opt_slice(path_prefix)),
    ) + "&per_page=100"@);
    text_of(out.as_slice())
}

/// The matches in the first `n` fragments of a file that the code search
/// found: each line of a fragment that holds the pattern, numbered within
/// its fragment and without context.
pub open spec fn fragment_matches(
    path: Seq<char>,
    fragments: Seq<TextMatch>,
    n: int,
    pattern: Seq<char>,
    case_sensitive: bool,
) -> Seq<MatchText>
    decreases n,
{
    if n <= 0 {
        Seq::empty()
    } else {
        fragment_matches(path, fragments, n - 1, pattern, case_sensitive) + matches_in(
            path,
            lines(fragments[n - 1].fragment@),
            lines(fragments[n - 1].fragment@).len() as int,
            pattern,
            case_sensitive,
            0,
        )
    }
}

/// Whether a file that the code search found adds to what is known: it is
/// none of the files of the pull request, and no noise.
pub open spec fn is_new_item(item: CodeSearchItem, pr_files: Seq<Seq<char>>) -> bool {
    !pr_files.contains(item.path@) && !is_noise(item.path@)
}

/// The matches in the first `m` files that the code search found.
pub open spec fn item_matches(
    items: Seq<CodeSearchItem>,
    m: int,
    pr_files: Seq<Seq<char>>,
    pattern: Seq<char>,
    case_sensitive: bool,
) -> Seq<MatchText>
    decreases m,
{
    if m <= 0 {
        Seq::empty()
    } else {
        let item = items[m - 1];
        let before = item_matches(items, m - 1, pr_files, pattern, case_sensitive);
        if is_new_item(item, pr_files) && item.text_matches is Some {
            before + fragment_matches(
                item.path@,
                item.text_matches->0@,
                item.text_matches->0@.len() as int,
                pattern,
                case_sensitive,
            )
        } else {
            before
        }
    }
}

/// What a code search adds to the matches in the files of a pull request:
/// the matching lines of the fragments of every file it found that is
/// neither a file of the pull request nor noise.
pub fn search_matches(
    response: &CodeSearchResponse,
    pr_files: &[String],
    pattern: &str,
    case_sensitive: bool,
) -> (found: Vec<SearchMatch>)
    ensures
        match_texts(found@) == item_matches(
            response.items@,
            response.items@.len() as int,
            texts(pr_files@),
            pattern@,
            case_sensitive,
        ),
        forall|k: int| 0 <= k < found@.len() ==> (#[trigger] found@[k]).wf(),
{
    let needle = fold_pattern(pattern, case_sensitive);
    let ghost known = texts(pr_files@);
    let mut found: Vec<SearchMatch> = Vec::new();
    assert(match_texts(found@) =~= item_matches(response.items@, 0, known, pattern@, case_sensitive));
    let mut m: usize = 0;
    while m < response.items.len()
        invariant
            m <= response.items@.len(),
            known == texts(pr_files@),
            needle@ == crate::search::folded(pattern@, case_sensitive),
            match_texts(found@) == item_matches(
                response.items@,
                m as int,
                known,
                pattern@,
                case_sensitive,
            ),
            forall|k: int| 0 <= k < found@.len() ==> (#[trigger] found@[k]).wf(),
        decreases response.items@.len() - m,
    {
        let item = &response.items[m];
        let mut listed = false;
        let mut j: usize = 0;
        while j < pr_files.len() && !listed
            invariant
                j <= pr_files@.len(),
                known == texts(pr_files@),
                listed ==> known.contains(item.path@),
                !listed ==> forall|x: int| 0 <= x < j ==> known[x] != item.path@,
            decreases pr_files@.len() - j + if listed { 0int } else { 1int },
        {
            if pr_files[j] == item.path {
                assert(known[j as int] == item.path@);
                listed = true;
            } else {
                j += 1;
            }
        }
        if !listed && !is_noise_file(item.path.as_str()) {
            match &item.text_matches {
                Some(fragments) => {
                    let ghost start = match_texts(found@);
                    let mut n: usize = 0;
                    assert(match_texts(found@) =~= start + fragment_matches(
                        item.path@,
                        fragments@,
                        0,
                        pattern@,
                        case_sensitive,
                    ));
                    while n < fragments.len()
                        invariant
                            n <= fragments@.len(),
                            needle@ == crate::search::folded(pattern@, case_sensitive),
                            match_texts(found@) == start + fragment_matches(
                                item.path@,
                                fragments@,
                                n as int,
                                pattern@,
                                case_sensitive,
                            ),
                            forall|k: int| 0 <= k < found@.len() ==> (#[trigger] found@[k]).wf(),
                        decreases fragments@.len() - n,
                    {
                        grep_into(
                            &mut found,
                            &item.path,
                            fragments[n].fragment.as_str(),
                            needle.as_slice(),
                            case_sensitive,
                            0,
                            Ghost(pattern@),
                        );
                        n += 1;
                    }
                },
                None => {},
            }
        }
        m += 1;
    }
    found
}

} // verus!
