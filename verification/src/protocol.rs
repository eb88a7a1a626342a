//! What the coordinator and its driver say to each other.
//!
//! The coordinator asks for one piece of outside work at a time with an
//! `Action`; the driver does the work and answers with an `Event`.

use crate::files::{file_views, FileDetail, FileDetailView};
use crate::session::{CompletionRequest, RequestView};
use vstd::prelude::*;

verus! {

/// Why an invocation ended without a report.
#[derive(Debug, Clone, Copy, PartialEq, Eq, Structural)]
pub enum AbortReason {
    /// The changed files could not be listed.
    ListingFailed,
    /// The content of a file under review could not be fetched.
    DownloadFailed,
    /// The driver answered with an event that the pending action does not call for.
    UnexpectedEvent,
}

/// Where an invocation stands: what it waits for, or how it ended.
#[derive(Debug, Clone, Copy, PartialEq, Eq, Structural)]
pub enum Phase {
    /// The identity is known; the list of changed files is awaited.
    AwaitingFiles,
    /// The content of the file under the cursor is awaited.
    AwaitingContent,
    /// The model's review of the file under the cursor is awaited.
    AwaitingReview,
    /// The model's summary of the diff of the file under the cursor is awaited.
    AwaitingSummary,
    /// The report was handed out for posting; the outcome is awaited.
    AwaitingDelivery,
    /// The report was delivered. Nothing more happens.
    Delivered,
    /// The invocation ended early, without a report.
    Aborted(AbortReason),
}

/// The pull request on which the report is posted.
#[derive(Debug, PartialEq, Eq)]
pub struct DeliveryTarget {
    pub repository: String,
    pub pull_number: String,
}

/// What a `DeliveryTarget` holds.
pub struct TargetView {
    pub repository: Seq<char>,
    pub pull_number: Seq<char>,
}

impl View for DeliveryTarget {
    type V = TargetView;

    open spec fn view(&self) -> TargetView {
        TargetView { repository: self.repository@, pull_number: self.pull_number@ }
    }
}

/// The outcome of a piece of outside work.
#[derive(Debug, PartialEq, Eq)]
pub enum Event {
    /// The listing answered with the changed files.
    FilesListed(Vec<FileDetail>),
    /// The listing failed, or its answer could not be decoded.
    ListingFailed,
    /// The content of the file was fetched.
    ContentFetched(String),
    /// The content of the file could not be fetched.
    FetchFailed,
    /// The model answered.
    Completed(String),
    /// The request to the model failed.
    CompletionFailed,
    /// The report was posted.
    Posted,
    /// The report could not be posted.
    PostFailed,
}

/// What an `Event` holds.
pub enum EventView {
    FilesListed(Seq<FileDetailView>),
    ListingFailed,
    ContentFetched(Seq<char>),
    FetchFailed,
    Completed(Seq<char>),
    CompletionFailed,
    Posted,
    PostFailed,
}

impl View for Event {
    type V = EventView;

    open spec fn view(&self) -> EventView {
        match self {
            Event::FilesListed(files) => EventView::FilesListed(file_views(files@)),
            Event::ListingFailed => EventView::ListingFailed,
            Event::ContentFetched(text) => EventView::ContentFetched(text@),
            Event::FetchFailed => EventView::FetchFailed,
            Event::Completed(text) => EventView::Completed(text@),
            Event::CompletionFailed => EventView::CompletionFailed,
            Event::Posted => EventView::Posted,
            Event::PostFailed => EventView::PostFailed,
        }
    }
}

/// The outside work that the coordinator asks for next.
#[derive(Debug, PartialEq, Eq)]
pub enum Action {
    /// List the changed files of the pull request.
    ListFiles { repository: String, pull_number: String },
    /// Fetch the content behind `url`.
    FetchContent { url: String },
    /// Send the request to the language model.
    Complete(CompletionRequest),
    /// Post `body` as a comment on the pull request.
    PostComment { repository: String, pull_number: String, body: String },
    /// Nothing is left to do: the report was delivered.
    Finish,
    /// Nothing is left to do: the invocation failed.
    Abort(AbortReason),
}

/// What an `Action` holds.
pub enum ActionView {
    ListFiles { repository: Seq<char>, pull_number: Seq<char> },
    FetchContent { url: Seq<char> },
    Complete(RequestView),
    PostComment { repository: Seq<char>, pull_number: Seq<char>, body: Seq<char> },
    Finish,
    Abort(AbortReason),
}

impl View for Action {
    type V = ActionView;

    open spec fn view(&self) -> ActionView {
        match self {
            Action::ListFiles { repository, pull_number } => ActionView::ListFiles {
                repository: repository@,
                pull_number: pull_number@,
            },
            Action::FetchContent { url } => ActionView::FetchContent { url: url@ },
            Action::Complete(request) => ActionView::Complete(request@),
            Action::PostComment { repository, pull_number, body } => ActionView::PostComment {
                repository: repository@,
                pull_number: pull_number@,
                body: body@,
            },
            Action::Finish => ActionView::Finish,
            Action::Abort(reason) => ActionView::Abort(*reason),
        }
    }
}

} // verus!
