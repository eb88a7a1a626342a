//! The changed files of a pull request, as the hosting service lists them.

use vstd::prelude::*;
use vstd::std_specs::convert::FromSpecImpl;

verus! {

/// One changed file, with the fields of its patch laid flat beside its own.
#[derive(Debug, PartialEq, Eq)]
pub struct FileDetail {
    pub sha: String,
    pub filename: String,
    pub additions: i32,
    pub deletions: i32,
    pub raw_url: String,
    pub diff: String,
    pub old_path: String,
    pub new_path: String,
    pub new_file: bool,
    pub renamed_file: bool,
    pub deleted_file: bool,
}

/// One changed file in the shape of the listing: the patch is a record of its own.
#[derive(Debug, PartialEq, Eq)]
pub struct FileChange {
    pub sha: String,
    pub filename: String,
    pub additions: i32,
    pub deletions: i32,
    pub raw_url: String,
    pub patch: Patch,
}

/// The patch of one changed file.
#[derive(Debug, PartialEq, Eq)]
pub struct Patch {
    pub diff: String,
    pub old_path: String,
    pub new_path: String,
    pub new_file: bool,
    pub renamed_file: bool,
    pub deleted_file: bool,
}

/// What a `FileDetail` holds, its texts as sequences of characters.
pub struct FileDetailView {
    pub sha: Seq<char>,
    pub filename: Seq<char>,
    pub additions: i32,
    pub deletions: i32,
    pub raw_url: Seq<char>,
    pub diff: Seq<char>,
    pub old_path: Seq<char>,
    pub new_path: Seq<char>,
    pub new_file: bool,
    pub renamed_file: bool,
    pub deleted_file: bool,
}

/// What a `Patch` holds.
pub struct PatchView {
    pub diff: Seq<char>,
    pub old_path: Seq<char>,
    pub new_path: Seq<char>,
    pub new_file: bool,
    pub renamed_file: bool,
    pub deleted_file: bool,
}

/// What a `FileChange` holds.
pub struct FileChangeView {
    pub sha: Seq<char>,
    pub filename: Seq<char>,
    pub additions: i32,
    pub deletions: i32,
    pub raw_url: Seq<char>,
    pub patch: PatchView,
}

impl View for FileDetail {
    type V = FileDetailView;

    open spec fn view(&self) -> FileDetailView {
        FileDetailView {
            sha: self.sha@,
            filename: self.filename@,
            additions: self.additions,
            deletions: self.deletions,
            raw_url: self.raw_url@,
            diff: self.diff@,
            old_path: self.old_path@,
            new_path: self.new_path@,
            new_file: self.new_file,
            renamed_file: self.renamed_file,
            deleted_file: self.deleted_file,
        }
    }
}

impl View for Patch {
    type V = PatchView;

    open spec fn view(&self) -> PatchView {
        PatchView {
            diff: self.diff@,
            old_path: self.old_path@,
            new_path: self.new_path@,
            new_file: self.new_file,
            renamed_file: self.renamed_file,
            deleted_file: self.deleted_file,
        }
    }
}

impl View for FileChange {
    type V = FileChangeView;

    open spec fn view(&self) -> FileChangeView {
        FileChangeView {
            sha: self.sha@,
            filename: self.filename@,
            additions: self.additions,
            deletions: self.deletions,
            raw_url: self.raw_url@,
            patch: self.patch@,
        }
    }
}

/// The flat record of a listed change: every field is kept, those of the patch
/// move up one level.
pub open spec fn flattened(change: FileChangeView) -> FileDetailView {
    FileDetailView {
        sha: change.sha,
        filename: change.filename,
        additions: change.additions,
        deletions: change.deletions,
        raw_url: change.raw_url,
        diff: change.patch.diff,
        old_path: change.patch.old_path,
        new_path: change.patch.new_path,
        new_file: change.patch.new_file,
        renamed_file: change.patch.renamed_file,
        deleted_file: change.patch.deleted_file,
    }
}

/// The views of a list of files, in order.
pub open spec fn file_views(files: Seq<FileDetail>) -> Seq<FileDetailView> {
    files.map_values(|f: FileDetail| f@)
}

impl From<FileChange> for FileDetail {
    fn from(file_change: FileChange) -> (detail: FileDetail)
        ensures
            detail@ == flattened(file_change@),
    {
        FileDetail {
            sha: file_change.sha,
            filename: file_change.filename,
            additions: file_change.additions,
            deletions: file_change.deletions,
            raw_url: file_change.raw_url,
            diff: file_change.patch.diff,
            old_path: file_change.patch.old_path,
            new_path: file_change.patch.new_path,
            new_file: file_change.patch.new_file,
            renamed_file: file_change.patch.renamed_file,
            deleted_file: file_change.patch.deleted_file,
        }
    }
}

impl FromSpecImpl<FileChange> for FileDetail {
    open spec fn obeys_from_spec() -> bool {
        true
    }

    open spec fn from_spec(file_change: FileChange) -> FileDetail {
        FileDetail {
            sha: file_change.sha,
            filename: file_change.filename,
            additions: file_change.additions,
            deletions: file_change.deletions,
            raw_url: file_change.raw_url,
            diff: file_change.patch.diff,
            old_path: file_change.patch.old_path,
            new_path: file_change.patch.new_path,
            new_file: file_change.patch.new_file,
            renamed_file: file_change.patch.renamed_file,
            deleted_file: file_change.patch.deleted_file,
        }
    }
}

/// Flattens a whole listing, keeping its order.
pub fn details_of(changes: Vec<FileChange>) -> (details: Vec<FileDetail>)
    ensures
        details@.len() == changes@.len(),
        forall|i: int| 0 <= i < changes@.len() ==> (#[trigger] details@[i])@ == flattened(changes@[i]@),
{
    let mut details: Vec<FileDetail> = Vec::new();
    let ghost all = changes@;
    for change in it: changes
        invariant
            it.seq() == all,
            details@.len() == it.index(),
            forall|i: int| 0 <= i < details@.len() ==> (#[trigger] details@[i])@ == flattened(all[i]@),
    {
        let detail = FileDetail::from(change);
        details.push(detail);
    }
    details
}

} // verus!
