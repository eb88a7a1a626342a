//! Which changed files are worth a review: a file is left out when its name ends
//! with one of a fixed list of suffixes.

use crate::files::{FileDetail, FileDetailView};
use crate::text::ends_with;
use vstd::prelude::*;

verus! {

/// The suffixes of file names that are not reviewed. Matching is by exact
/// characters, so `.MD` is not on the list.
pub open spec fn denied_suffixes() -> Seq<Seq<char>> {
    seq![".md"@, ".js"@, ".css"@, ".html"@, ".htm"@]
}

/// Whether `name` ends with one of `suffixes`.
pub open spec fn ends_with_any(name: Seq<char>, suffixes: Seq<Seq<char>>) -> bool {
    exists|i: int| 0 <= i < suffixes.len() && (#[trigger] suffixes[i]).is_suffix_of(name)
}

/// A file name is eligible for review unless it ends with a denied suffix.
pub open spec fn eligible_name(name: Seq<char>) -> bool {
    !ends_with_any(name, denied_suffixes())
}

/// The files of `files` that are eligible for review, in their order.
pub open spec fn reviewable(files: Seq<FileDetailView>) -> Seq<FileDetailView> {
    files.filter(|f: FileDetailView| eligible_name(f.filename))
}

/// The list of denied suffixes, as data.
pub fn denylist() -> (list: Vec<&'static str>)
    ensures
        list@.map_values(|s: &'static str| s@) == denied_suffixes(),
{
    let list = vec![".md", ".js", ".css", ".html", ".htm"];
    assert(list@.map_values(|s: &'static str| s@) =~= denied_suffixes());
    list
}

/// Whether `name` ends with one of the suffixes in `suffixes`.
pub fn matches_any_suffix(name: &str, suffixes: &Vec<&str>) -> (b: bool)
    ensures
        b == ends_with_any(name@, suffixes@.map_values(|s: &str| s@)),
{
    let ghost views = suffixes@.map_values(|s: &str| s@);
    let mut i: usize = 0;
    while i < suffixes.len()
        invariant
            i <= suffixes.len(),
            views == suffixes@.map_values(|s: &str| s@),
            forall|j: int| 0 <= j < i ==> !(#[trigger] views[j]).is_suffix_of(name@),
        decreases suffixes.len() - i,
    {
        if ends_with(name, suffixes[i]) {
            assert(views[i as int].is_suffix_of(name@));
            return true;
        }
        i = i + 1;
    }
    false
}

/// Whether the file called `filename` is eligible for review.
///
/// It is not exactly when the name ends with `.md`, `.js`, `.css`, `.html` or
/// `.htm`.
pub fn eligible(filename: &str) -> (b: bool)
    ensures
        b == eligible_name(filename@),
        b == !(".md"@.is_suffix_of(filename@) || ".js"@.is_suffix_of(filename@)
            || ".css"@.is_suffix_of(filename@) || ".html"@.is_suffix_of(filename@)
            || ".htm"@.is_suffix_of(filename@)),
{
    proof {
        lemma_eligible_name(filename@);
    }
    let list = denylist();
    !matches_any_suffix(filename, &list)
}

/// `eligible_name` spelled out: the name ends with none of the five suffixes.
pub proof fn lemma_eligible_name(name: Seq<char>)
    ensures
        eligible_name(name) == !(".md"@.is_suffix_of(name) || ".js"@.is_suffix_of(name)
            || ".css"@.is_suffix_of(name) || ".html"@.is_suffix_of(name) || ".htm"@.is_suffix_of(
            name,
        )),
{
    let d = denied_suffixes();
    assert(d[0] == ".md"@ && d[1] == ".js"@ && d[2] == ".css"@ && d[3] == ".html"@ && d[4]
        == ".htm"@);
}

/// Filtering is idempotent: among the reviewable files all are reviewable, so
/// filtering them again changes nothing.
pub proof fn lemma_reviewable_idempotent(files: Seq<FileDetailView>)
    ensures
        reviewable(reviewable(files)) == reviewable(files),
        forall|i: int|
            0 <= i < reviewable(files).len() ==> eligible_name(
                (#[trigger] reviewable(files)[i]).filename,
            ),
{
    let pred = |f: FileDetailView| eligible_name(f.filename);
    let kept = files.filter(pred);
    broadcast use vstd::seq_lib::group_filter_ensures;
    assert forall|i: int| 0 <= i < kept.len() implies pred(#[trigger] kept[i]) by {}
    lemma_filter_keeps_all(kept, pred);
}

/// A sequence whose items all satisfy `pred` is its own filter.
proof fn lemma_filter_keeps_all(s: Seq<FileDetailView>, pred: spec_fn(FileDetailView) -> bool)
    requires
        forall|i: int| 0 <= i < s.len() ==> pred(#[trigger] s[i]),
    ensures
        s.filter(pred) == s,
    decreases s.len(),
{
    reveal(Seq::filter);
    if s.len() > 0 {
        lemma_filter_keeps_all(s.drop_last(), pred);
        assert(s.drop_last().push(s.last()) =~= s);
    }
}

} // verus!
