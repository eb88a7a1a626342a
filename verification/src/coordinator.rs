//! The coordinator of one invocation: the state machine of `model`, executable.
//!
//! The coordinator does no outside work. Its driver performs each `Action` and
//! hands the outcome back as an `Event`, until the action is `Finish` or `Abort`.

use crate::files::{file_views, FileDetail};
use crate::filter::{eligible, reviewable};
use crate::identity::PullRequestIdentity;
use crate::laws::{
    lemma_advance_consistent, lemma_conclude_consistent, lemma_initial_consistent,
    lemma_next_consistent,
};
use crate::model::{
    consistent, file_headings, fragment_headings, initial, next, next_reviewable, PipelineState,
};
use crate::prompt::Intent;
use crate::protocol::{AbortReason, Action, DeliveryTarget, Event, Phase, TargetView};
use crate::report::{report_text, FragmentView, Report, ReviewFragment};
use crate::session::{answer_view, build_request, section_text_of, ReviewContext};
use crate::settings::ModelSettings;
use crate::text::truncate;
use vstd::prelude::*;

verus! {

/// One invocation of the review pipeline.
pub struct Coordinator {
    phase: Phase,
    context: ReviewContext,
    target: DeliveryTarget,
    files: Vec<FileDetail>,
    cursor: usize,
    issues: String,
    report: Report,
    fragments: Ghost<Seq<FragmentView>>,
}

impl View for Coordinator {
    type V = PipelineState;

    closed spec fn view(&self) -> PipelineState {
        PipelineState {
            phase: self.phase,
            context: self.context@,
            target: self.target@,
            files: file_views(self.files@),
            cursor: self.cursor as nat,
            issues: self.issues@,
            fragments: self.fragments@,
        }
    }
}

/// The view of an optional delivery target.
pub open spec fn optional_target(target: Option<DeliveryTarget>) -> Option<TargetView> {
    match target {
        Some(t) => Some(t@),
        None => None,
    }
}

/// The position of the first reviewable file at or behind `from`.
fn next_reviewable_from(files: &Vec<FileDetail>, from: usize) -> (position: usize)
    requires
        from <= files.len(),
    ensures
        position == next_reviewable(file_views(files@), from as nat),
        from <= position <= files.len(),
{
    let ghost views = file_views(files@);
    let mut i: usize = from;
    while i < files.len()
        invariant
            from <= i <= files.len(),
            views == file_views(files@),
            next_reviewable(views, from as nat) == next_reviewable(views, i as nat),
        decreases files.len() - i,
    {
        assert(views[i as int] == files@[i as int]@);
        if eligible(files[i].filename.as_str()) {
            return i;
        }
        i = i + 1;
    }
    i
}

impl Coordinator {
    #[verifier::type_invariant]
    spec fn well_formed(&self) -> bool {
        &&& consistent(self@)
        &&& self.report@ == report_text(self.fragments@)
    }

    /// Starts the invocation for the pull request `identity`. The report goes to
    /// `delivery` where one is configured, and to the pull request itself
    /// otherwise. The first thing asked for is the list of changed files.
    pub fn start(
        identity: PullRequestIdentity,
        settings: &ModelSettings,
        delivery: Option<DeliveryTarget>,
    ) -> (started: (Coordinator, Action))
        ensures
            (started.0@, started.1@) == initial(
                identity@,
                settings.model_name@,
                settings.token_limit,
                optional_target(delivery),
            ),
            consistent(started.0@),
    {
        proof {
            lemma_initial_consistent(
                identity@,
                settings.model_name@,
                settings.token_limit,
                optional_target(delivery),
            );
        }
        let context = ReviewContext::new(&identity, settings);
        let action = Action::ListFiles {
            repository: identity.repository.clone(),
            pull_number: identity.pull_number.clone(),
        };
        let target = match delivery {
            Some(t) => t,
            None => DeliveryTarget {
                repository: identity.repository,
                pull_number: identity.pull_number,
            },
        };
        let files: Vec<FileDetail> = Vec::new();
        assert(file_views(files@) =~= Seq::empty());
        let coordinator = Coordinator {
            phase: Phase::AwaitingFiles,
            context,
            target,
            files,
            cursor: 0,
            issues: String::new(),
            report: Report::new(),
            fragments: Ghost(Seq::empty()),
        };
        (coordinator, action)
    }

    /// Where the invocation stands.
    pub fn phase(&self) -> (phase: Phase)
        ensures
            phase == self@.phase,
    {
        self.phase
    }

    /// Whether the invocation has ended, delivered or aborted.
    pub fn ended(&self) -> (ended: bool)
        ensures
            ended == self@.ended(),
    {
        match self.phase {
            Phase::Delivered => true,
            Phase::Aborted(_) => true,
            _ => false,
        }
    }

    /// The report as it stands: the preamble and the fragments of the files
    /// reviewed so far.
    pub fn report(&self) -> (text: &str)
        ensures
            text@ == self@.report(),
    {
        proof {
            use_type_invariant(self);
        }
        self.report.as_str()
    }

    /// Takes the step that `event` calls for, and says what to do next.
    pub fn step(self, event: Event) -> (stepped: (Coordinator, Action))
        ensures
            (stepped.0@, stepped.1@) == next(self@, event@),
            consistent(self@),
            consistent(stepped.0@),
    {
        proof {
            use_type_invariant(&self);
            lemma_next_consistent(self@, event@);
        }
        match self.phase {
            Phase::AwaitingFiles => match event {
                Event::FilesListed(files) => {
                    proof {
                        assert(fragment_headings(self.fragments@) =~= file_headings(
                            reviewable(file_views(files@).take(0)),
                        )) by {
                            crate::laws::lemma_reviewable_of_none(file_views(files@));
                            crate::laws::lemma_reviewable_of_none(file_views(self.files@));
                            assert(file_views(self.files@).take(self.cursor as int) =~= file_views(
                                self.files@,
                            ).take(0));
                        }
                    }
                    Self::advance(
                        self.context,
                        self.target,
                        files,
                        0,
                        self.issues,
                        self.report,
                        self.fragments,
                    )
                },
                Event::ListingFailed => self.abort(AbortReason::ListingFailed),
                _ => self.abort(AbortReason::UnexpectedEvent),
            },
            Phase::AwaitingContent => match event {
                Event::ContentFetched(content) => {
                    let budget = self.context.character_budget();
                    let request = build_request(
                        &self.context,
                        Intent::CodeReview,
                        truncate(content.as_str(), budget),
                    );
                    (Coordinator { phase: Phase::AwaitingReview, ..self }, Action::Complete(request))
                },
                Event::FetchFailed => self.abort(AbortReason::DownloadFailed),
                _ => self.abort(AbortReason::UnexpectedEvent),
            },
            Phase::AwaitingReview => match event {
                Event::Completed(text) => self.ask_summary(Some(text)),
                Event::CompletionFailed => self.ask_summary(None),
                _ => self.abort(AbortReason::UnexpectedEvent),
            },
            Phase::AwaitingSummary => match event {
                Event::Completed(text) => self.conclude_file(Some(text)),
                Event::CompletionFailed => self.conclude_file(None),
                _ => self.abort(AbortReason::UnexpectedEvent),
            },
            Phase::AwaitingDelivery => match event {
                Event::Posted | Event::PostFailed => (
                    Coordinator { phase: Phase::Delivered, ..self },
                    Action::Finish,
                ),
                _ => self.abort(AbortReason::UnexpectedEvent),
            },
            Phase::Delivered => (self, Action::Finish),
            Phase::Aborted(reason) => (self, Action::Abort(reason)),
        }
    }

    /// Ends the invocation without a report.
    fn abort(self, reason: AbortReason) -> (stepped: (Coordinator, Action))
        ensures
            (stepped.0@, stepped.1@) == crate::model::abort(self@, reason),
    {
        proof {
            use_type_invariant(&self);
        }
        (Coordinator { phase: Phase::Aborted(reason), ..self }, Action::Abort(reason))
    }

    /// Asks for the summary of the diff of the file under review.
    fn ask_summary(self, answer: Option<String>) -> (stepped: (Coordinator, Action))
        requires
            self@.phase is AwaitingReview,
        ensures
            (stepped.0@, stepped.1@) == crate::model::ask_summary(self@, answer_view(answer)),
    {
        proof {
            use_type_invariant(&self);
        }
        let budget = self.context.character_budget();
        assert(file_views(self.files@)[self.cursor as int] == self.files@[self.cursor as int]@);
        let request = build_request(
            &self.context,
            Intent::DiffSummary,
            truncate(self.files[self.cursor].diff.as_str(), budget),
        );
        let issues = section_text_of(answer);
        (Coordinator { phase: Phase::AwaitingSummary, issues, ..self }, Action::Complete(request))
    }

    /// Appends the fragment of the file under review and takes up the next file.
    fn conclude_file(self, answer: Option<String>) -> (stepped: (Coordinator, Action))
        requires
            self@.phase is AwaitingSummary,
        ensures
            (stepped.0@, stepped.1@) == crate::model::conclude_file(self@, answer_view(answer)),
    {
        let ghost before = self@;
        let ghost section = answer_view(answer);
        proof {
            use_type_invariant(&self);
            lemma_conclude_consistent(before, section);
        }
        assert(file_views(self.files@)[self.cursor as int] == self.files@[self.cursor as int]@);
        let total: usize = self.files.len();
        assert(self.cursor < total);
        let following: usize = self.cursor + 1;
        let fragment = ReviewFragment {
            filename: self.files[self.cursor].filename.clone(),
            link: self.files[self.cursor].raw_url.clone(),
            issues: self.issues,
            summary: section_text_of(answer),
        };
        let mut report = self.report;
        report.append(&fragment);
        let ghost fragments = self.fragments@.push(fragment@);
        proof {
            crate::report::lemma_append_associative(
                self.fragments@,
                fragment@,
                fragment@,
                Seq::empty(),
            );
            crate::laws::lemma_reviewable_step(before.files, before.cursor as int);
            let reviewed = reviewable(before.files.take(before.cursor as int));
            let file = before.files[before.cursor as int];
            assert(fragment_headings(fragments) =~= fragment_headings(self.fragments@).push(
                (fragment@.filename, fragment@.link),
            ));
            assert(file_headings(reviewed.push(file)) =~= file_headings(reviewed).push(
                (file.filename, file.raw_url),
            ));
        }
        Self::advance(
            self.context,
            self.target,
            self.files,
            following,
            String::new(),
            report,
            Ghost(fragments),
        )
    }

    /// Takes up the first reviewable file at or behind `from`, or hands the report
    /// out where none is left.
    fn advance(
        context: ReviewContext,
        target: DeliveryTarget,
        files: Vec<FileDetail>,
        from: usize,
        issues: String,
        report: Report,
        fragments: Ghost<Seq<FragmentView>>,
    ) -> (stepped: (Coordinator, Action))
        requires
            from <= files.len(),
            report@ == report_text(fragments@),
            fragment_headings(fragments@) == file_headings(
                reviewable(file_views(files@).take(from as int)),
            ),
        ensures
            forall|phase: Phase, cursor: nat|
                (stepped.0@, stepped.1@) == #[trigger] crate::model::advance(
                    PipelineState {
                        phase,
                        context: context@,
                        target: target@,
                        files: file_views(files@),
                        cursor,
                        issues: issues@,
                        fragments: fragments@,
                    },
                    from as nat,
                ),
    {
        let ghost before = PipelineState {
            phase: Phase::AwaitingFiles,
            context: context@,
            target: target@,
            files: file_views(files@),
            cursor: 0,
            issues: issues@,
            fragments: fragments@,
        };
        proof {
            lemma_advance_consistent(before, from as nat);
        }
        let cursor = next_reviewable_from(&files, from);
        if cursor < files.len() {
            assert(file_views(files@)[cursor as int] == files@[cursor as int]@);
            let action = Action::FetchContent { url: files[cursor].raw_url.clone() };
            (
                Coordinator {
                    phase: Phase::AwaitingContent,
                    context,
                    target,
                    files,
                    cursor,
                    issues,
                    report,
                    fragments,
                },
                action,
            )
        } else {
            let action = Action::PostComment {
                repository: target.repository.clone(),
                pull_number: target.pull_number.clone(),
                body: String::from_str(report.as_str()),
            };
            (
                Coordinator {
                    phase: Phase::AwaitingDelivery,
                    context,
                    target,
                    files,
                    cursor,
                    issues,
                    report,
                    fragments,
                },
                action,
            )
        }
    }
}

} // verus!
