//! The pipeline as a mathematical state machine: the state of an invocation, and
//! the step that an event makes it take.
//!
//! One invocation lists the changed files, then takes the reviewable ones in their
//! order: it fetches the file's content, asks the model for a review of the
//! content and for a summary of the diff, and appends the fragment. When no file
//! is left it hands the report out for posting.

use crate::files::FileDetailView;
use crate::filter::eligible_name;
use crate::identity::IdentityView;
use crate::prompt::Intent;
use crate::protocol::{AbortReason, ActionView, EventView, Phase, TargetView};
use crate::report::{report_text, FragmentView};
use crate::session::{context_for, request_for, section_of, ContextView};
use crate::text::prefix_within;
use vstd::prelude::*;

verus! {

/// The state of one invocation.
pub struct PipelineState {
    pub phase: Phase,
    pub context: ContextView,
    /// Where the report goes.
    pub target: TargetView,
    /// The changed files as listed; empty until they are.
    pub files: Seq<FileDetailView>,
    /// How many of the files are dealt with. In the phases that wait for content
    /// or for the model, the file at this position is the one under review.
    pub cursor: nat,
    /// The issues section of the file under review, while its summary is awaited.
    pub issues: Seq<char>,
    /// The fragments of the files reviewed so far.
    pub fragments: Seq<FragmentView>,
}

impl PipelineState {
    /// The report as it stands.
    pub open spec fn report(self) -> Seq<char> {
        report_text(self.fragments)
    }

    /// Whether the invocation has ended.
    pub open spec fn ended(self) -> bool {
        self.phase is Delivered || self.phase is Aborted
    }
}

/// The pull request on which the report of `identity` is posted: the configured
/// one where there is one, its own otherwise.
pub open spec fn target_of(identity: IdentityView, configured: Option<TargetView>) -> TargetView {
    match configured {
        Some(target) => target,
        None => TargetView { repository: identity.repository, pull_number: identity.pull_number },
    }
}

/// The position of the first reviewable file at or behind `from`; the number of
/// files where there is none.
pub open spec fn next_reviewable(files: Seq<FileDetailView>, from: nat) -> nat
    decreases files.len() - from,
{
    if from >= files.len() {
        files.len()
    } else if eligible_name(files[from as int].filename) {
        from
    } else {
        next_reviewable(files, from + 1)
    }
}

/// How an invocation starts: it knows its pull request and asks for the list of
/// changed files.
pub open spec fn initial(
    identity: IdentityView,
    model_name: Seq<char>,
    token_limit: u32,
    configured_target: Option<TargetView>,
) -> (PipelineState, ActionView) {
    (
        PipelineState {
            phase: Phase::AwaitingFiles,
            context: context_for(identity, model_name, token_limit),
            target: target_of(identity, configured_target),
            files: Seq::empty(),
            cursor: 0,
            issues: Seq::empty(),
            fragments: Seq::empty(),
        },
        ActionView::ListFiles {
            repository: identity.repository,
            pull_number: identity.pull_number,
        },
    )
}

/// The invocation ends without a report.
pub open spec fn abort(s: PipelineState, reason: AbortReason) -> (PipelineState, ActionView) {
    (PipelineState { phase: Phase::Aborted(reason), ..s }, ActionView::Abort(reason))
}

/// The files before `from` are dealt with: the next reviewable file is fetched,
/// and where none is left the report is handed out.
pub open spec fn advance(s: PipelineState, from: nat) -> (PipelineState, ActionView) {
    let cursor = next_reviewable(s.files, from);
    if cursor < s.files.len() {
        (
            PipelineState { phase: Phase::AwaitingContent, cursor, ..s },
            ActionView::FetchContent { url: s.files[cursor as int].raw_url },
        )
    } else {
        (
            PipelineState { phase: Phase::AwaitingDelivery, cursor, ..s },
            ActionView::PostComment {
                repository: s.target.repository,
                pull_number: s.target.pull_number,
                body: s.report(),
            },
        )
    }
}

/// The content of the file under review arrived: the model is asked to review
/// what of it fits the budget.
pub open spec fn ask_review(s: PipelineState, content: Seq<char>) -> (PipelineState, ActionView) {
    (
        PipelineState { phase: Phase::AwaitingReview, ..s },
        ActionView::Complete(
            request_for(s.context, Intent::CodeReview, prefix_within(content, s.context.budget())),
        ),
    )
}

/// The review of the file arrived, or failed: the model is asked to summarise
/// what of the file's diff fits the budget.
pub open spec fn ask_summary(s: PipelineState, answer: Option<Seq<char>>) -> (
    PipelineState,
    ActionView,
) {
    (
        PipelineState { phase: Phase::AwaitingSummary, issues: section_of(answer), ..s },
        ActionView::Complete(
            request_for(
                s.context,
                Intent::DiffSummary,
                prefix_within(s.files[s.cursor as int].diff, s.context.budget()),
            ),
        ),
    )
}

/// The fragment of the file under review, once both sections are known.
pub open spec fn fragment_of(file: FileDetailView, issues: Seq<char>, summary: Seq<char>)
    -> FragmentView {
    FragmentView { filename: file.filename, link: file.raw_url, issues, summary }
}

/// The summary of the file arrived, or failed: its fragment joins the report and
/// the next file is taken up.
pub open spec fn conclude_file(s: PipelineState, answer: Option<Seq<char>>) -> (
    PipelineState,
    ActionView,
) {
    let fragment = fragment_of(s.files[s.cursor as int], s.issues, section_of(answer));
    advance(
        PipelineState { issues: Seq::empty(), fragments: s.fragments.push(fragment), ..s },
        s.cursor + 1,
    )
}

/// The step that the event `e` makes an invocation in state `s` take: the state
/// that follows, and the outside work asked for next.
///
/// A failed listing or download ends the invocation. A failed request to the
/// model does not: its section reads `N/A`. Whether posting worked or not, the
/// report counts as delivered. An event that the state does not wait for ends the
/// invocation, and an invocation that has ended stays as it is.
pub open spec fn next(s: PipelineState, e: EventView) -> (PipelineState, ActionView) {
    match s.phase {
        Phase::AwaitingFiles => match e {
            EventView::FilesListed(files) => advance(PipelineState { files, ..s }, 0),
            EventView::ListingFailed => abort(s, AbortReason::ListingFailed),
            _ => abort(s, AbortReason::UnexpectedEvent),
        },
        Phase::AwaitingContent => match e {
            EventView::ContentFetched(content) => ask_review(s, content),
            EventView::FetchFailed => abort(s, AbortReason::DownloadFailed),
            _ => abort(s, AbortReason::UnexpectedEvent),
        },
        Phase::AwaitingReview => match e {
            EventView::Completed(text) => ask_summary(s, Some(text)),
            EventView::CompletionFailed => ask_summary(s, None),
            _ => abort(s, AbortReason::UnexpectedEvent),
        },
        Phase::AwaitingSummary => match e {
            EventView::Completed(text) => conclude_file(s, Some(text)),
            EventView::CompletionFailed => conclude_file(s, None),
            _ => abort(s, AbortReason::UnexpectedEvent),
        },
        Phase::AwaitingDelivery => match e {
            EventView::Posted | EventView::PostFailed => (
                PipelineState { phase: Phase::Delivered, ..s },
                ActionView::Finish,
            ),
            _ => abort(s, AbortReason::UnexpectedEvent),
        },
        Phase::Delivered => (s, ActionView::Finish),
        Phase::Aborted(reason) => (s, ActionView::Abort(reason)),
    }
}

/// The names and links of the files, in order.
pub open spec fn file_headings(files: Seq<FileDetailView>) -> Seq<(Seq<char>, Seq<char>)> {
    files.map_values(|f: FileDetailView| (f.filename, f.raw_url))
}

/// The names and links that the fragments carry, in order.
pub open spec fn fragment_headings(fragments: Seq<FragmentView>) -> Seq<(Seq<char>, Seq<char>)> {
    fragments.map_values(|f: FragmentView| (f.filename, f.link))
}

/// What holds of every state that an invocation can reach.
///
/// The cursor stays within the files. While content or the model is awaited, the
/// file under the cursor is reviewable. Once the report is handed out, every file
/// is dealt with. And the report holds one fragment for each reviewable file
/// before the cursor, in the order of the files.
pub open spec fn consistent(s: PipelineState) -> bool {
    &&& s.cursor <= s.files.len()
    &&& s.phase is AwaitingFiles ==> s.files.len() == 0
    &&& (s.phase is AwaitingContent || s.phase is AwaitingReview || s.phase is AwaitingSummary)
        ==> s.cursor < s.files.len() && eligible_name(s.files[s.cursor as int].filename)
    &&& (s.phase is AwaitingDelivery || s.phase is Delivered) ==> s.cursor == s.files.len()
    &&& fragment_headings(s.fragments) == file_headings(
        crate::filter::reviewable(s.files.take(s.cursor as int)),
    )
}

/// The state after the events `events`, taken in their order from `s`.
pub open spec fn run(s: PipelineState, events: Seq<EventView>) -> PipelineState
    decreases events.len(),
{
    if events.len() == 0 {
        s
    } else {
        next(run(s, events.drop_last()), events.last()).0
    }
}

} // verus!
