//! What holds of every invocation, proved of the state machine in `model`.

use crate::files::FileDetailView;
use crate::filter::{eligible_name, reviewable};
use crate::identity::IdentityView;
use crate::model::{
    advance, conclude_file, consistent, file_headings, fragment_headings, fragment_of, initial,
    next, next_reviewable, run, PipelineState,
};
use crate::protocol::{ActionView, EventView, Phase, TargetView};
use crate::report::{report_text, PREAMBLE, SENTINEL};
use vstd::prelude::*;

verus! {

/// Taking one more file into view adds it to the reviewable ones exactly when it
/// is eligible.
pub proof fn lemma_reviewable_step(files: Seq<FileDetailView>, at: int)
    requires
        0 <= at < files.len(),
    ensures
        reviewable(files.take(at + 1)) == if eligible_name(files[at].filename) {
            reviewable(files.take(at)).push(files[at])
        } else {
            reviewable(files.take(at))
        },
{
    broadcast use vstd::seq_lib::group_filter_ensures;

    assert(files.take(at + 1) =~= files.take(at).push(files[at]));
    files.take(at).lemma_filter_push(files[at], |f: FileDetailView| eligible_name(f.filename));
}

/// `next_reviewable` stops at a reviewable file or behind the last file, and
/// passes over no reviewable file on its way.
pub proof fn lemma_next_reviewable(files: Seq<FileDetailView>, from: nat)
    requires
        from <= files.len(),
    ensures
        from <= next_reviewable(files, from) <= files.len(),
        next_reviewable(files, from) < files.len() ==> eligible_name(
            files[next_reviewable(files, from) as int].filename,
        ),
        forall|i: int|
            from <= i < next_reviewable(files, from) ==> !eligible_name(
                (#[trigger] files[i]).filename,
            ),
        reviewable(files.take(next_reviewable(files, from) as int)) == reviewable(
            files.take(from as int),
        ),
    decreases files.len() - from,
{
    if from < files.len() && !eligible_name(files[from as int].filename) {
        lemma_next_reviewable(files, from + 1);
        lemma_reviewable_step(files, from as int);
    }
}

/// An invocation starts in a consistent state.
pub proof fn lemma_initial_consistent(
    identity: IdentityView,
    model_name: Seq<char>,
    token_limit: u32,
    configured_target: Option<TargetView>,
)
    ensures
        consistent(initial(identity, model_name, token_limit, configured_target).0),
{
    let s = initial(identity, model_name, token_limit, configured_target).0;
    lemma_reviewable_of_none(s.files);
    assert(fragment_headings(s.fragments) =~= file_headings(reviewable(s.files.take(0))));
}

/// Before any file, nothing is reviewable.
pub proof fn lemma_reviewable_of_none(files: Seq<FileDetailView>)
    ensures
        reviewable(files.take(0)).len() == 0,
{
    broadcast use vstd::seq_lib::group_filter_ensures;

    assert(files.take(0).len() == 0);
}

/// Taking up the next file keeps the state consistent, given that the report
/// holds the fragments of the reviewable files before `from`.
pub proof fn lemma_advance_consistent(s: PipelineState, from: nat)
    requires
        from <= s.files.len(),
        fragment_headings(s.fragments) == file_headings(reviewable(s.files.take(from as int))),
    ensures
        consistent(advance(s, from).0),
{
    lemma_next_reviewable(s.files, from);
}

/// Every step keeps a consistent state consistent.
pub proof fn lemma_next_consistent(s: PipelineState, e: EventView)
    requires
        consistent(s),
    ensures
        consistent(next(s, e).0),
{
    match s.phase {
        Phase::AwaitingFiles => {
            if let EventView::FilesListed(files) = e {
                let listed = PipelineState { files, ..s };
                lemma_reviewable_of_none(s.files);
                lemma_reviewable_of_none(files);
                assert(s.files.take(s.cursor as int) =~= s.files.take(0));
                assert(fragment_headings(s.fragments).len() == 0);
                assert(fragment_headings(listed.fragments) =~= file_headings(
                    reviewable(files.take(0)),
                ));
                lemma_advance_consistent(listed, 0);
            }
        },
        Phase::AwaitingSummary => {
            let answer = match e {
                EventView::Completed(text) => Some(Some(text)),
                EventView::CompletionFailed => Some(None),
                _ => None,
            };
            if let Some(a) = answer {
                lemma_conclude_consistent(s, a);
            }
        },
        _ => {},
    }
}

/// Appending the fragment of the file under review, and moving on, keeps the
/// state consistent.
pub proof fn lemma_conclude_consistent(s: PipelineState, answer: Option<Seq<char>>)
    requires
        consistent(s),
        s.phase is AwaitingSummary,
    ensures
        consistent(conclude_file(s, answer).0),
{
    let file = s.files[s.cursor as int];
    let fragment = fragment_of(file, s.issues, crate::session::section_of(answer));
    let grown = PipelineState { issues: Seq::empty(), fragments: s.fragments.push(fragment), ..s };
    lemma_reviewable_step(s.files, s.cursor as int);
    let before = reviewable(s.files.take(s.cursor as int));
    assert(fragment_headings(s.fragments.push(fragment)) =~= fragment_headings(s.fragments).push(
        (fragment.filename, fragment.link),
    ));
    assert(file_headings(before.push(file)) =~= file_headings(before).push(
        (file.filename, file.raw_url),
    ));
    lemma_advance_consistent(grown, s.cursor + 1);
}

/// Every state reached from a consistent one is consistent.
pub proof fn lemma_run_consistent(s: PipelineState, events: Seq<EventView>)
    requires
        consistent(s),
    ensures
        consistent(run(s, events)),
    decreases events.len(),
{
    if events.len() > 0 {
        lemma_run_consistent(s, events.drop_last());
        lemma_next_consistent(run(s, events.drop_last()), events.last());
    }
}

/// The report that is handed out holds one fragment for each reviewable file, in
/// the order of the files, and none for any other file.
pub proof fn lemma_delivery_follows_files(s: PipelineState)
    requires
        consistent(s),
        s.phase is AwaitingDelivery || s.phase is Delivered,
    ensures
        fragment_headings(s.fragments) == file_headings(reviewable(s.files)),
        s.fragments.len() == reviewable(s.files).len(),
        forall|i: int|
            0 <= i < s.fragments.len() ==> (#[trigger] s.fragments[i]).filename == reviewable(
                s.files,
            )[i].filename && s.fragments[i].link == reviewable(s.files)[i].raw_url,
{
    assert(s.files.take(s.cursor as int) =~= s.files);
    let headings = fragment_headings(s.fragments);
    let listed = file_headings(reviewable(s.files));
    assert(headings.len() == s.fragments.len());
    assert(listed.len() == reviewable(s.files).len());
    assert forall|i: int| 0 <= i < s.fragments.len() implies (#[trigger] s.fragments[i]).filename
        == reviewable(s.files)[i].filename && s.fragments[i].link == reviewable(
        s.files,
    )[i].raw_url by {
        assert(headings[i] == (s.fragments[i].filename, s.fragments[i].link));
        assert(listed[i] == (reviewable(s.files)[i].filename, reviewable(s.files)[i].raw_url));
    }
}

/// Where no file is reviewable, none is taken up.
proof fn lemma_none_reviewable(files: Seq<FileDetailView>, from: nat)
    requires
        from <= files.len(),
        reviewable(files).len() == 0,
    ensures
        next_reviewable(files, from) == files.len(),
    decreases files.len() - from,
{
    broadcast use vstd::seq_lib::group_filter_ensures;

    if from < files.len() {
        if eligible_name(files[from as int].filename) {
            let pred = |f: FileDetailView| eligible_name(f.filename);
            assert(pred(files[from as int]));
            assert(files.filter(pred).contains(files[from as int]));
        }
        lemma_none_reviewable(files, from + 1);
    }
}

/// A listing without a reviewable file, an empty one above all, gives a report
/// that is the preamble and nothing else. It is handed out all the same.
pub proof fn lemma_nothing_to_review(s: PipelineState, files: Seq<FileDetailView>)
    requires
        s.phase is AwaitingFiles,
        s.fragments.len() == 0,
        reviewable(files).len() == 0,
    ensures
        next(s, EventView::FilesListed(files)).0.phase is AwaitingDelivery,
        next(s, EventView::FilesListed(files)).0.report() == PREAMBLE@,
        next(s, EventView::FilesListed(files)).1 == (ActionView::PostComment {
            repository: s.target.repository,
            pull_number: s.target.pull_number,
            body: PREAMBLE@,
        }),
{
    lemma_none_reviewable(files, 0);
    assert(report_text(s.fragments) =~= PREAMBLE@);
}

/// The report of an invocation whose listing is empty is the preamble exactly.
pub proof fn lemma_empty_listing(
    identity: IdentityView,
    model_name: Seq<char>,
    token_limit: u32,
    configured_target: Option<TargetView>,
)
    ensures
        ({
            let start = initial(identity, model_name, token_limit, configured_target).0;
            let listed = next(start, EventView::FilesListed(Seq::empty()));
            &&& listed.0.report() == PREAMBLE@
            &&& listed.1 matches ActionView::PostComment { body, .. } && body == PREAMBLE@
            &&& next(listed.0, EventView::Posted).0.phase is Delivered
            &&& next(listed.0, EventView::PostFailed).0.phase is Delivered
        }),
{
    broadcast use vstd::seq_lib::group_filter_ensures;

    let start = initial(identity, model_name, token_limit, configured_target).0;
    lemma_nothing_to_review(start, Seq::empty());
}

/// How often the report was handed out for posting in the course of `events`.
pub open spec fn posts(s: PipelineState, events: Seq<EventView>) -> nat
    decreases events.len(),
{
    if events.len() == 0 {
        0
    } else {
        let earlier = posts(s, events.drop_last());
        if next(run(s, events.drop_last()), events.last()).1 is PostComment {
            earlier + 1
        } else {
            earlier
        }
    }
}

/// The report is handed out at most once, whatever happens, and exactly once
/// in an invocation that ends delivered. What is handed out is the report as it
/// stands, and it goes to the target of the invocation.
pub proof fn lemma_delivered_once(s: PipelineState, events: Seq<EventView>)
    requires
        s.phase is AwaitingFiles,
    ensures
        posts(s, events) <= 1,
        run(s, events).phase is AwaitingDelivery || run(s, events).phase is Delivered ==> posts(
            s,
            events,
        ) == 1,
        run(s, events).phase is AwaitingFiles || run(s, events).phase is AwaitingContent || run(
            s,
            events,
        ).phase is AwaitingReview || run(s, events).phase is AwaitingSummary ==> posts(s, events)
            == 0,
        run(s, events).target == s.target,
        events.len() > 0 ==> (next(run(s, events.drop_last()), events.last()).1 matches ActionView::PostComment {
            repository,
            pull_number,
            body,
        } ==> repository == s.target.repository && pull_number == s.target.pull_number && body
            == run(s, events).report()),
    decreases events.len(),
{
    if events.len() > 0 {
        lemma_delivered_once(s, events.drop_last());
    }
}

/// Whether every section written so far reads `N/A`.
pub open spec fn unanswered(s: PipelineState) -> bool {
    &&& s.phase is AwaitingSummary ==> s.issues == SENTINEL@
    &&& forall|i: int|
        0 <= i < s.fragments.len() ==> (#[trigger] s.fragments[i]).issues == SENTINEL@
            && s.fragments[i].summary == SENTINEL@
}

/// As long as the model gives no answer, every section reads `N/A`.
pub proof fn lemma_unanswered_step(s: PipelineState, e: EventView)
    requires
        unanswered(s),
        !(e is Completed),
    ensures
        unanswered(next(s, e).0),
{
}

/// In an invocation in which the model never answers, every section of every
/// fragment reads `N/A`, at every point.
pub proof fn lemma_unanswered_run(s: PipelineState, events: Seq<EventView>)
    requires
        s.phase is AwaitingFiles,
        s.fragments.len() == 0,
        forall|i: int| 0 <= i < events.len() ==> !(#[trigger] events[i] is Completed),
    ensures
        unanswered(run(s, events)),
    decreases events.len(),
{
    if events.len() > 0 {
        let earlier = events.drop_last();
        assert forall|i: int| 0 <= i < earlier.len() implies !(#[trigger] earlier[i]
            is Completed) by {
            assert(earlier[i] == events[i]);
        }
        lemma_unanswered_run(s, earlier);
        lemma_unanswered_step(run(s, earlier), events.last());
    }
}

/// Whether `e` is an outcome of the work that `a` asks for.
pub open spec fn answers(a: ActionView, e: EventView) -> bool {
    match a {
        ActionView::ListFiles { .. } => e is FilesListed || e is ListingFailed,
        ActionView::FetchContent { .. } => e is ContentFetched || e is FetchFailed,
        ActionView::Complete(_) => e is Completed || e is CompletionFailed,
        ActionView::PostComment { .. } => e is Posted || e is PostFailed,
        ActionView::Finish => false,
        ActionView::Abort(_) => false,
    }
}

/// Whether `a` is the work that the state `s` waits for.
pub open spec fn pending(s: PipelineState, a: ActionView) -> bool {
    match s.phase {
        Phase::AwaitingFiles => a is ListFiles,
        Phase::AwaitingContent => a is FetchContent,
        Phase::AwaitingReview => a is Complete,
        Phase::AwaitingSummary => a is Complete,
        Phase::AwaitingDelivery => a is PostComment,
        Phase::Delivered => a is Finish,
        Phase::Aborted(_) => a is Abort,
    }
}

/// The driver's loop: the collaborators answer each action, the answer is
/// stepped on, until the invocation has ended or `fuel` steps are taken.
pub open spec fn drive(
    s: PipelineState,
    a: ActionView,
    collaborators: spec_fn(ActionView) -> EventView,
    fuel: nat,
) -> PipelineState
    decreases fuel,
{
    if fuel == 0 || a is Finish || a is Abort {
        s
    } else {
        let stepped = next(s, collaborators(a));
        drive(stepped.0, stepped.1, collaborators, (fuel - 1) as nat)
    }
}

/// Collaborators of which the listing and the downloads work and the model always
/// fails. Posting may work or fail.
pub open spec fn only_model_fails(collaborators: spec_fn(ActionView) -> EventView) -> bool {
    forall|a: ActionView|
        match a {
            ActionView::ListFiles { .. } => #[trigger] collaborators(a) is FilesListed,
            ActionView::FetchContent { .. } => collaborators(a) is ContentFetched,
            ActionView::Complete(_) => collaborators(a) is CompletionFailed,
            ActionView::PostComment { .. } => collaborators(a) is Posted || collaborators(a)
                is PostFailed,
            _ => true,
        }
}

/// How many steps are left at most until the report is delivered, once the files
/// are listed: three for each file behind the cursor, and one for posting.
pub open spec fn steps_left(s: PipelineState) -> nat {
    let files_left = (s.files.len() - s.cursor) as nat;
    match s.phase {
        Phase::AwaitingFiles => 0,
        Phase::AwaitingContent => 3 * files_left + 1,
        Phase::AwaitingReview => 3 * files_left,
        Phase::AwaitingSummary => (3 * files_left - 1) as nat,
        Phase::AwaitingDelivery => 1,
        Phase::Delivered => 0,
        Phase::Aborted(_) => 0,
    }
}

/// With collaborators of which only the model fails, an invocation whose files
/// are listed runs on to delivery, and never writes anything but `N/A`.
proof fn lemma_drive_without_model(
    s: PipelineState,
    a: ActionView,
    collaborators: spec_fn(ActionView) -> EventView,
    fuel: nat,
)
    requires
        consistent(s),
        unanswered(s),
        pending(s, a),
        !(s.phase is AwaitingFiles),
        !(s.phase is Aborted),
        only_model_fails(collaborators),
        fuel >= steps_left(s),
    ensures
        drive(s, a, collaborators, fuel).phase is Delivered,
        drive(s, a, collaborators, fuel).files == s.files,
        consistent(drive(s, a, collaborators, fuel)),
        unanswered(drive(s, a, collaborators, fuel)),
    decreases fuel,
{
    if !(s.phase is Delivered) {
        let e = collaborators(a);
        let stepped = next(s, e);
        lemma_next_consistent(s, e);
        lemma_unanswered_step(s, e);
        if s.phase is AwaitingSummary {
            lemma_next_reviewable(stepped.0.files, s.cursor + 1);
        }
        lemma_drive_without_model(stepped.0, stepped.1, collaborators, (fuel - 1) as nat);
    }
}

/// A model that always fails does not stop the pipeline. With a listing and
/// downloads that work, the invocation ends delivered; its report holds one
/// fragment for each reviewable file, in the order of the files; and both
/// sections of every fragment read `N/A`.
pub proof fn lemma_failing_model_still_delivers(
    identity: IdentityView,
    model_name: Seq<char>,
    token_limit: u32,
    configured_target: Option<TargetView>,
    collaborators: spec_fn(ActionView) -> EventView,
    fuel: nat,
)
    requires
        only_model_fails(collaborators),
        ({
            let start = initial(identity, model_name, token_limit, configured_target);
            collaborators(start.1) matches EventView::FilesListed(files) && fuel >= 3 * files.len()
                + 2
        }),
    ensures
        ({
            let start = initial(identity, model_name, token_limit, configured_target);
            let end = drive(start.0, start.1, collaborators, fuel);
            &&& end.phase is Delivered
            &&& collaborators(start.1) == EventView::FilesListed(end.files)
            &&& fragment_headings(end.fragments) == file_headings(reviewable(end.files))
            &&& forall|i: int|
                0 <= i < end.fragments.len() ==> (#[trigger] end.fragments[i]).issues == SENTINEL@
                    && end.fragments[i].summary == SENTINEL@
        }),
{
    let start = initial(identity, model_name, token_limit, configured_target);
    lemma_initial_consistent(identity, model_name, token_limit, configured_target);
    let e = collaborators(start.1);
    let listed = next(start.0, e);
    lemma_next_consistent(start.0, e);
    lemma_unanswered_step(start.0, e);
    let files = e->FilesListed_0;
    lemma_next_reviewable(files, 0);
    lemma_drive_without_model(listed.0, listed.1, collaborators, (fuel - 1) as nat);
    lemma_delivery_follows_files(drive(start.0, start.1, collaborators, fuel));
}

/// The reviewable files before a position are the first of all the reviewable
/// files.
pub proof fn lemma_reviewable_prefix(files: Seq<FileDetailView>, at: int)
    requires
        0 <= at <= files.len(),
    ensures
        reviewable(files.take(at)).is_prefix_of(reviewable(files)),
{
    files.take(at).lemma_filter_monotone(files, |f: FileDetailView| eligible_name(f.filename));
}

/// A reviewable file stands among the reviewable files at the position that the
/// reviewable files before it give.
pub proof fn lemma_reviewable_at(files: Seq<FileDetailView>, at: int)
    requires
        0 <= at < files.len(),
        eligible_name(files[at].filename),
    ensures
        reviewable(files.take(at)).len() < reviewable(files).len(),
        reviewable(files)[reviewable(files.take(at)).len() as int] == files[at],
{
    lemma_reviewable_step(files, at);
    lemma_reviewable_prefix(files, at + 1);
    let upto = reviewable(files.take(at + 1));
    let position = reviewable(files.take(at)).len() as int;
    assert(upto[position] == files[at]);
    assert(upto == reviewable(files).subrange(0, upto.len() as int));
}

/// Among files that are all reviewable, the next reviewable one is the next.
proof fn lemma_next_of_reviewable(files: Seq<FileDetailView>, from: nat)
    requires
        from <= reviewable(files).len(),
    ensures
        next_reviewable(reviewable(files), from) == from,
{
    crate::filter::lemma_reviewable_idempotent(files);
}

/// Two invocations that differ in one thing only: the listing of the second is
/// that of the first without its ineligible files. Both stand at the same file.
pub open spec fn filtered_twin(s: PipelineState, t: PipelineState) -> bool {
    &&& consistent(s)
    &&& t.phase == s.phase
    &&& t.context == s.context
    &&& t.target == s.target
    &&& t.issues == s.issues
    &&& t.fragments == s.fragments
    &&& t.files == reviewable(s.files)
    &&& t.cursor == reviewable(s.files.take(s.cursor as int)).len()
}

/// Taking up the next file asks for the same work whether or not the ineligible
/// files were taken out of the listing beforehand.
proof fn lemma_filtered_advance(s: PipelineState, t: PipelineState, from: nat)
    requires
        from <= s.files.len(),
        fragment_headings(s.fragments) == file_headings(reviewable(s.files.take(from as int))),
        t.context == s.context,
        t.target == s.target,
        t.issues == s.issues,
        t.fragments == s.fragments,
        t.files == reviewable(s.files),
    ensures
        advance(s, from).1 == advance(t, reviewable(s.files.take(from as int)).len()).1,
        filtered_twin(
            advance(s, from).0,
            advance(t, reviewable(s.files.take(from as int)).len()).0,
        ),
{
    let behind = reviewable(s.files.take(from as int)).len();
    let cursor = next_reviewable(s.files, from);
    lemma_advance_consistent(s, from);
    lemma_next_reviewable(s.files, from);
    lemma_reviewable_prefix(s.files, from as int);
    lemma_next_of_reviewable(s.files, behind);
    if cursor < s.files.len() {
        lemma_reviewable_at(s.files, cursor as int);
    } else {
        assert(s.files.take(cursor as int) =~= s.files);
    }
}

/// A listing and the same listing without its ineligible files are taken up
/// alike: the first action is the same, and the invocations are twins.
pub proof fn lemma_filtered_listing(s: PipelineState, files: Seq<FileDetailView>)
    requires
        consistent(s),
        s.phase is AwaitingFiles,
    ensures
        next(s, EventView::FilesListed(files)).1 == next(
            s,
            EventView::FilesListed(reviewable(files)),
        ).1,
        filtered_twin(
            next(s, EventView::FilesListed(files)).0,
            next(s, EventView::FilesListed(reviewable(files))).0,
        ),
{
    let whole = PipelineState { files, ..s };
    let kept = PipelineState { files: reviewable(files), ..s };
    lemma_reviewable_of_none(s.files);
    lemma_reviewable_of_none(files);
    assert(s.files.take(s.cursor as int) =~= s.files.take(0));
    assert(fragment_headings(s.fragments).len() == 0);
    assert(fragment_headings(whole.fragments) =~= file_headings(reviewable(files.take(0))));
    lemma_filtered_advance(whole, kept, 0);
}

/// Twins take every step alike: on the same event they ask for the same work and
/// stay twins.
pub proof fn lemma_filtered_step(s: PipelineState, t: PipelineState, e: EventView)
    requires
        filtered_twin(s, t),
        !(s.phase is AwaitingFiles),
    ensures
        next(s, e).1 == next(t, e).1,
        filtered_twin(next(s, e).0, next(t, e).0),
{
    lemma_next_consistent(s, e);
    if s.phase is AwaitingContent || s.phase is AwaitingReview || s.phase is AwaitingSummary {
        lemma_reviewable_at(s.files, s.cursor as int);
    }
    if s.phase is AwaitingSummary {
        let answer = match e {
            EventView::Completed(text) => Some(Some(text)),
            EventView::CompletionFailed => Some(None),
            _ => None,
        };
        if let Some(a) = answer {
            let file = s.files[s.cursor as int];
            let fragment = fragment_of(file, s.issues, crate::session::section_of(a));
            let grown_s = PipelineState {
                issues: Seq::empty(),
                fragments: s.fragments.push(fragment),
                ..s
            };
            let grown_t = PipelineState {
                issues: Seq::empty(),
                fragments: t.fragments.push(fragment),
                ..t
            };
            lemma_reviewable_step(s.files, s.cursor as int);
            let before = reviewable(s.files.take(s.cursor as int));
            assert(fragment_headings(s.fragments.push(fragment)) =~= fragment_headings(
                s.fragments,
            ).push((fragment.filename, fragment.link)));
            assert(file_headings(before.push(file)) =~= file_headings(before).push(
                (file.filename, file.raw_url),
            ));
            lemma_filtered_advance(grown_s, grown_t, s.cursor + 1);
        }
    }
}

/// The work asked for in the course of the driver's loop, in its order.
pub open spec fn trace(
    s: PipelineState,
    a: ActionView,
    collaborators: spec_fn(ActionView) -> EventView,
    fuel: nat,
) -> Seq<ActionView>
    decreases fuel,
{
    if fuel == 0 || a is Finish || a is Abort {
        seq![a]
    } else {
        let stepped = next(s, collaborators(a));
        seq![a] + trace(stepped.0, stepped.1, collaborators, (fuel - 1) as nat)
    }
}

/// Twins driven by collaborators that answer alike ask for the same work in the
/// same order, and end as twins.
proof fn lemma_filtered_drive(
    s: PipelineState,
    t: PipelineState,
    a: ActionView,
    whole: spec_fn(ActionView) -> EventView,
    filtered: spec_fn(ActionView) -> EventView,
    fuel: nat,
)
    requires
        filtered_twin(s, t),
        !(s.phase is AwaitingFiles),
        pending(s, a),
        forall|other: ActionView| !(other is ListFiles) ==> #[trigger] whole(other) == filtered(other),
    ensures
        trace(s, a, whole, fuel) == trace(t, a, filtered, fuel),
        filtered_twin(drive(s, a, whole, fuel), drive(t, a, filtered, fuel)),
    decreases fuel,
{
    if !(fuel == 0 || a is Finish || a is Abort) {
        let e = whole(a);
        assert(e == filtered(a));
        lemma_filtered_step(s, t, e);
        lemma_filtered_drive(next(s, e).0, next(t, e).0, next(s, e).1, whole, filtered, (fuel - 1) as nat);
    }
}

/// Filtering a second time removes nothing, and changes nothing: an invocation
/// whose listing has the ineligible files taken out beforehand asks for the same
/// downloads and the same reviews in the same order as the invocation on the
/// whole listing, posts the same report on the same pull request, and ends in
/// the same phase. The collaborators answer alike but for the listing.
pub proof fn lemma_filtering_first_changes_nothing(
    identity: IdentityView,
    model_name: Seq<char>,
    token_limit: u32,
    configured_target: Option<TargetView>,
    whole: spec_fn(ActionView) -> EventView,
    filtered: spec_fn(ActionView) -> EventView,
    fuel: nat,
)
    requires
        ({
            let start = initial(identity, model_name, token_limit, configured_target);
            whole(start.1) matches EventView::FilesListed(files) && filtered(start.1)
                == EventView::FilesListed(reviewable(files))
        }),
        forall|other: ActionView| !(other is ListFiles) ==> #[trigger] whole(other) == filtered(other),
    ensures
        ({
            let start = initial(identity, model_name, token_limit, configured_target);
            let end = drive(start.0, start.1, whole, fuel);
            let filtered_end = drive(start.0, start.1, filtered, fuel);
            &&& trace(start.0, start.1, whole, fuel) == trace(start.0, start.1, filtered, fuel)
            &&& filtered_end.report() == end.report()
            &&& filtered_end.fragments == end.fragments
            &&& filtered_end.phase == end.phase
            &&& filtered_end.files == reviewable(end.files)
        }),
{
    let start = initial(identity, model_name, token_limit, configured_target);
    lemma_initial_consistent(identity, model_name, token_limit, configured_target);
    if fuel > 0 {
        let files = whole(start.1)->FilesListed_0;
        lemma_filtered_listing(start.0, files);
        let listed = next(start.0, EventView::FilesListed(files));
        let kept = next(start.0, EventView::FilesListed(reviewable(files)));
        lemma_next_reviewable(files, 0);
        lemma_filtered_drive(listed.0, kept.0, listed.1, whole, filtered, (fuel - 1) as nat);
    } else {
        lemma_reviewable_of_none(start.0.files);
        assert(start.0.files.take(0) =~= start.0.files);
        assert(reviewable(start.0.files) =~= start.0.files);
    }
}

} // verus!
