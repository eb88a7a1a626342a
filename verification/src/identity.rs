//! Which pull request an invocation is about.

use crate::text::{last_path_segment, last_segment, lemma_last_segment};
use vstd::prelude::*;

verus! {

/// The pull number of an event whose reference ends in no number.
pub const DEFAULT_PULL_NUMBER: &'static str = "0";

/// The repository, the number and the title of the pull request under review.
#[derive(Debug, PartialEq, Eq)]
pub struct PullRequestIdentity {
    /// The repository's path with its namespace, such as `org/repo`.
    pub repository: String,
    pub pull_number: String,
    pub title: String,
}

/// What a `PullRequestIdentity` holds.
pub struct IdentityView {
    pub repository: Seq<char>,
    pub pull_number: Seq<char>,
    pub title: Seq<char>,
}

impl View for PullRequestIdentity {
    type V = IdentityView;

    open spec fn view(&self) -> IdentityView {
        IdentityView {
            repository: self.repository@,
            pull_number: self.pull_number@,
            title: self.title@,
        }
    }
}

/// The pull number that a reference to a pull request stands for: its last
/// `/`-separated segment, and `0` where that segment is empty, as it is for an
/// empty reference and for one that ends in `/`.
pub open spec fn pull_number_of(reference: Seq<char>) -> Seq<char> {
    if last_segment(reference).len() == 0 {
        DEFAULT_PULL_NUMBER@
    } else {
        last_segment(reference)
    }
}

/// A pull number is never empty and holds no `/`. Where the reference ends in a
/// segment of its own, that segment is the pull number; an empty reference and
/// one that ends in `/` stand for `0`.
pub proof fn lemma_pull_number_of(reference: Seq<char>)
    ensures
        pull_number_of(reference).len() > 0,
        !pull_number_of(reference).contains('/'),
        reference.len() == 0 || reference.last() == '/' ==> pull_number_of(reference)
            == DEFAULT_PULL_NUMBER@,
        reference.len() > 0 && reference.last() != '/' ==> pull_number_of(reference)
            == last_segment(reference) && pull_number_of(reference).is_suffix_of(reference),
{
    reveal_strlit("0");
    lemma_last_segment(reference);
    if pull_number_of(reference).contains('/') {
        let i = choose|i: int|
            0 <= i < pull_number_of(reference).len() && pull_number_of(reference)[i] == '/';
        assert(DEFAULT_PULL_NUMBER@[0] == '0');
    }
}

/// Extracts the pull number from the reference that an event carries.
pub fn extract_pull_number(reference: &str) -> (number: String)
    ensures
        number@ == pull_number_of(reference@),
{
    let segment = last_path_segment(reference);
    if segment.unicode_len() == 0 {
        String::from_str(DEFAULT_PULL_NUMBER)
    } else {
        String::from_str(segment)
    }
}

impl PullRequestIdentity {
    /// The identity that an inbound event stands for. Repository and title are
    /// taken as they are; the pull number comes out of the reference.
    pub fn from_event(repository: String, reference: &str, title: String) -> (identity:
        PullRequestIdentity)
        ensures
            identity@ == (IdentityView {
                repository: repository@,
                pull_number: pull_number_of(reference@),
                title: title@,
            }),
    {
        let pull_number = extract_pull_number(reference);
        PullRequestIdentity { repository, pull_number, title }
    }
}

} // verus!
