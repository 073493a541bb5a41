//! The semantic differ of `sem_core`, and what the review keeps of its
//! report.

use vstd::prelude::*;
use sem_core::git::types;
use sem_core::model::change;
use sem_core::parser::differ;
use sem_core::parser::plugins::create_default_registry;
use crate::github::FilePair;
use crate::text::{chars_of, copy_opt, opt_text, same_as};
use crate::types::{ChangeType, SemanticChange};

verus! {

/// `sem_core::parser::differ::DiffResult`: the report of the differ. The
/// changes that it holds are named by `diff_changes`.
#[verifier::external_type_specification]
#[verifier::external_body]
pub struct ExDiffResult(sem_core::parser::differ::DiffResult);

/// What happened to a file between the two snapshots.
#[derive(Debug, Clone, Copy, PartialEq, Eq, Structural)]
pub enum FileStatus {
    Added,
    Modified,
    Deleted,
    Renamed,
}

/// A file with its content on both sides of the diff.
#[derive(Debug, Clone)]
pub struct FileChange {
    pub file_path: String,
    pub status: FileStatus,
    pub old_file_path: Option<String>,
    pub before_content: Option<String>,
    pub after_content: Option<String>,
}

/// The kinds of change that the differ tells apart.
#[derive(Debug, Clone, Copy, PartialEq, Eq, Structural)]
pub enum ChangeKind {
    Added,
    Modified,
    Deleted,
    Moved,
    Renamed,
    Reordered,
}

/// One change as the differ reports it.
#[derive(Debug, Clone)]
pub struct RawChange {
    pub entity_id: String,
    pub kind: ChangeKind,
    pub entity_type: String,
    pub entity_name: String,
    pub file_path: String,
    pub old_file_path: Option<String>,
    pub before_content: Option<String>,
    pub after_content: Option<String>,
    pub structural_change: Option<bool>,
}

/// What a change of the differ's report says.
pub struct RawChangeText {
    pub entity_id: Seq<char>,
    pub kind: ChangeKind,
    pub entity_type: Seq<char>,
    pub entity_name: Seq<char>,
    pub file_path: Seq<char>,
    pub old_file_path: Option<Seq<char>>,
    pub before_content: Option<Seq<char>>,
    pub after_content: Option<Seq<char>>,
    pub structural_change: Option<bool>,
}

impl View for RawChange {
    type V = RawChangeText;

    open spec fn view(&self) -> RawChangeText {
        RawChangeText {
            entity_id: self.entity_id@,
            kind: self.kind,
            entity_type: self.entity_type@,
            entity_name: self.entity_name@,
            file_path: self.file_path@,
            old_file_path: opt_text(self.old_file_path),
            before_content: opt_text(self.before_content),
            after_content: opt_text(self.after_content),
            structural_change: self.structural_change,
        }
    }
}

/// What each change of a report says.
pub open spec fn raw_texts(v: Seq<RawChange>) -> Seq<RawChangeText> {
    v.map_values(|r: RawChange| r@)
}

/// The changes that a report of the differ holds, in order.
pub uninterp spec fn diff_changes(d: differ::DiffResult) -> Seq<RawChangeText>;

/// A file that gives the differ nothing to compare: an added file without
/// content after, a deleted file without content before, any other file
/// without content on one of its sides.
pub open spec fn lacks_content(file: FileChange) -> bool {
    match file.status {
        FileStatus::Added => file.after_content is None,
        FileStatus::Deleted => file.before_content is None,
        _ => file.before_content is None || file.after_content is None,
    }
}

/// None of the files gives the differ anything to compare.
pub open spec fn all_lack_content(files: Seq<FileChange>) -> bool {
    forall|i: int| 0 <= i < files.len() ==> lacks_content(#[trigger] files[i])
}

/// The sides that a change of a kind carries: an addition the content
/// after, a deletion the content before, a reordering neither, and every
/// other kind both.
pub open spec fn carries(kind: ChangeKind, has_before: bool, has_after: bool) -> bool {
    match kind {
        ChangeKind::Added => !has_before && has_after,
        ChangeKind::Deleted => has_before && !has_after,
        ChangeKind::Reordered => !has_before && !has_after,
        _ => has_before && has_after,
    }
}

/// `compute_semantic_diff` with the default registry of parsers, without
/// commit or author. Which changes it finds rests on the parsers, and on
/// caches and switches outside the arguments; two things hold of every
/// report. Files that lack the content to compare are passed over before
/// anything is parsed, so where all files do, the report holds no change.
/// And every change is built by `make_change` or as a change outside
/// entities, both of which give it the sides of its kind: an addition the
/// content after, a deletion the content before, a reordering neither, a
/// modification, move or renaming both.
#[verifier::external_body]
fn diff_files(files: &Vec<FileChange>) -> (diff: differ::DiffResult)
    ensures
        all_lack_content(files@) ==> diff_changes(diff).len() == 0,
        forall|k: int|
            0 <= k < diff_changes(diff).len() ==> carries(
                (#[trigger] diff_changes(diff)[k]).kind,
                diff_changes(diff)[k].before_content is Some,
                diff_changes(diff)[k].after_content is Some,
            ),
{
    let given: Vec<types::FileChange> = files.iter().map(|f| types::FileChange {
        file_path: f.file_path.clone(),
        status: match f.status {
            FileStatus::Added => types::FileStatus::Added,
            FileStatus::Modified => types::FileStatus::Modified,
            FileStatus::Deleted => types::FileStatus::Deleted,
            FileStatus::Renamed => types::FileStatus::Renamed,
        },
        old_file_path: f.old_file_path.clone(),
        before_content: f.before_content.clone(),
        after_content: f.after_content.clone(),
    }).collect();
    differ::compute_semantic_diff(&given, &create_default_registry(), None, None)
}

/// The field `changes` of a `DiffResult`: the changes that the report
/// holds, in order, each with the fields that the review reads.
#[verifier::external_body]
fn reported_changes(diff: &differ::DiffResult) -> (changes: Vec<RawChange>)
    ensures
        raw_texts(changes@) == diff_changes(*diff),
{
    diff.changes.iter().map(|c| RawChange {
        entity_id: c.entity_id.clone(), entity_type: c.entity_type.clone(),
        entity_name: c.entity_name.clone(), file_path: c.file_path.clone(),
        old_file_path: c.old_file_path.clone(), before_content: c.before_content.clone(),
        after_content: c.after_content.clone(), structural_change: c.structural_change,
        kind: match c.change_type {
            change::ChangeType::Added => ChangeKind::Added,
            change::ChangeType::Modified => ChangeKind::Modified,
            change::ChangeType::Deleted => ChangeKind::Deleted,
            change::ChangeType::Moved => ChangeKind::Moved,
            change::ChangeType::Renamed => ChangeKind::Renamed,
            change::ChangeType::Reordered => ChangeKind::Reordered,
        },
    }).collect()
}

/// The change type of a kind; a reordering has none.
pub open spec fn change_type_of(kind: ChangeKind) -> Option<ChangeType> {
    match kind {
        ChangeKind::Added => Some(ChangeType::Added),
        ChangeKind::Modified => Some(ChangeType::Modified),
        ChangeKind::Deleted => Some(ChangeType::Deleted),
        ChangeKind::Moved => Some(ChangeType::Moved),
        ChangeKind::Renamed => Some(ChangeType::Renamed),
        ChangeKind::Reordered => None,
    }
}

/// The change that a report of a known kind stands for.
pub open spec fn change_of(raw: RawChange) -> SemanticChange {
    SemanticChange {
        entity_id: raw.entity_id,
        change_type: change_type_of(raw.kind).unwrap(),
        entity_type: raw.entity_type,
        entity_name: raw.entity_name,
        file_path: raw.file_path,
        old_file_path: raw.old_file_path,
        before_content: raw.before_content,
        after_content: raw.after_content,
        structural_change: raw.structural_change,
    }
}

/// The changes among the first `n` reports, in order: every report but
/// those of a reordering.
pub open spec fn kept_changes(raw: Seq<RawChange>, n: int) -> Seq<SemanticChange>
    decreases n,
{
    if n <= 0 {
        Seq::empty()
    } else if change_type_of(raw[n - 1].kind) is Some {
        kept_changes(raw, n - 1).push(change_of(raw[n - 1]))
    } else {
        kept_changes(raw, n - 1)
    }
}

/// The changes that a report holds: each entity that was added, modified,
/// deleted, moved or renamed. An entity that only changed its place among
/// its neighbours is no change to review.
pub fn known_changes(raw: Vec<RawChange>) -> (changes: Vec<SemanticChange>)
    ensures
        changes@ == kept_changes(raw@, raw@.len() as int),
{
    let mut changes: Vec<SemanticChange> = Vec::new();
    let ghost all = raw@;
    for r in it: raw
        invariant
            it.seq() == all,
            changes@ == kept_changes(all, it.index() as int),
    {
        let change_type = match r.kind {
            ChangeKind::Added => Some(ChangeType::Added),
            ChangeKind::Modified => Some(ChangeType::Modified),
            ChangeKind::Deleted => Some(ChangeType::Deleted),
            ChangeKind::Moved => Some(ChangeType::Moved),
            ChangeKind::Renamed => Some(ChangeType::Renamed),
            ChangeKind::Reordered => None,
        };
        match change_type {
            Some(change_type) => {
                changes.push(
                    SemanticChange {
                        entity_id: r.entity_id,
                        change_type,
                        entity_type: r.entity_type,
                        entity_name: r.entity_name,
                        file_path: r.file_path,
                        old_file_path: r.old_file_path,
                        before_content: r.before_content,
                        after_content: r.after_content,
                        structural_change: r.structural_change,
                    },
                );
            },
            None => {},
        }
    }
    changes
}

/// A change carries the sides of its type: an addition the content after,
/// a deletion the content before, and every other change both.
pub open spec fn has_its_sides(change: SemanticChange) -> bool {
    match change.change_type {
        ChangeType::Added => change.before_content is None && change.after_content is Some,
        ChangeType::Deleted => change.before_content is Some && change.after_content is None,
        _ => change.before_content is Some && change.after_content is Some,
    }
}

/// Where every report carries the sides of its kind, every change that is
/// kept of them carries the sides of its type, and there are no more
/// changes than reports.
proof fn lemma_kept_have_their_sides(raw: Seq<RawChange>, n: int)
    requires
        0 <= n <= raw.len(),
        forall|j: int|
            0 <= j < n ==> carries(
                (#[trigger] raw[j]).kind,
                raw[j].before_content is Some,
                raw[j].after_content is Some,
            ),
    ensures
        kept_changes(raw, n).len() <= n,
        forall|i: int|
            0 <= i < kept_changes(raw, n).len() ==> has_its_sides(
                #[trigger] kept_changes(raw, n)[i],
            ),
    decreases n,
{
    if n > 0 {
        lemma_kept_have_their_sides(raw, n - 1);
    }
}

/// The entity-level changes between the two sides of `files`, as the
/// differ of `sem_core` finds them with its default parsers: what the
/// differ reports, without the reorderings.
///
/// Which changes there are is for the differ to say. Whatever it reports,
/// every change carries the sides of its type, and files that lack the
/// content to compare give no change.
pub fn semantic_changes(files: &Vec<FileChange>) -> (changes: Vec<SemanticChange>)
    ensures
        forall|i: int| 0 <= i < changes@.len() ==> has_its_sides(#[trigger] changes@[i]),
        all_lack_content(files@) ==> changes@.len() == 0,
{
    let diff = diff_files(files);
    let raw = reported_changes(&diff);
    proof {
        assert forall|j: int| 0 <= j < raw@.len() implies carries(
            (#[trigger] raw@[j]).kind,
            raw@[j].before_content is Some,
            raw@[j].after_content is Some,
        ) by {
            assert(raw_texts(raw@)[j] == raw@[j]@);
        }
        lemma_kept_have_their_sides(raw@, raw@.len() as int);
    }
    known_changes(raw)
}

/// The status that a host's word for it stands for: `added`, `removed`
/// and `renamed` by name, every other word as a modification.
pub open spec fn status_of(word: Seq<char>) -> FileStatus {
    if word == "added"@ {
        FileStatus::Added
    } else if word == "removed"@ {
        FileStatus::Deleted
    } else if word == "renamed"@ {
        FileStatus::Renamed
    } else {
        FileStatus::Modified
    }
}

/// `change` says of a file what `pair` says of it.
pub open spec fn is_change_of(change: FileChange, pair: FilePair) -> bool {
    &&& change.file_path@ == pair.filename@
    &&& change.status == status_of(pair.status@)
    &&& change.old_file_path is None
    &&& opt_text(change.before_content) == opt_text(pair.before_content)
    &&& opt_text(change.after_content) == opt_text(pair.after_content)
}

/// The files of a remote diff as the differ takes them, one for each pair
/// and in the same order.
pub fn file_changes_of(pairs: &[FilePair]) -> (changes: Vec<FileChange>)
    ensures
        changes@.len() == pairs@.len(),
        forall|i: int| 0 <= i < pairs@.len() ==> is_change_of(#[trigger] changes@[i], pairs@[i]),
{
    let mut changes: Vec<FileChange> = Vec::new();
    let mut i: usize = 0;
    while i < pairs.len()
        invariant
            i <= pairs@.len(),
            changes@.len() == i,
            forall|j: int| 0 <= j < i ==> is_change_of(#[trigger] changes@[j], pairs@[j]),
        decreases pairs@.len() - i,
    {
        let pair = &pairs[i];
        let word = chars_of(pair.status.as_str());
        let status = if same_as(word.as_slice(), "added") {
            FileStatus::Added
        } else if same_as(word.as_slice(), "removed") {
            FileStatus::Deleted
        } else if same_as(word.as_slice(), "renamed") {
            FileStatus::Renamed
        } else {
            FileStatus::Modified
        };
        changes.push(
            FileChange {
                file_path: pair.filename.clone(),
                status,
                old_file_path: None,
                before_content: copy_opt(&pair.before_content),
                after_content: copy_opt(&pair.after_content),
            },
        );
        i += 1;
    }
    changes
}

} // verus!
