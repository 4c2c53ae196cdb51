//! The cleanup after a batch: the sources are deleted, but only on the
//! user's word. Like the batch it is a state machine that touches nothing
//! itself: it is told the answer and how each deletion went, and says what
//! to tell the user and what to do next.

use vstd::prelude::*;

use crate::text::{chars_of, spec_trim, texts, trim};

verus! {

/// Whether `answer` is a yes: the letter `y`, small or capital, and
/// nothing but white space around it.
pub open spec fn spec_is_affirmative(answer: Seq<char>) -> bool {
    spec_trim(answer) == seq!['y'] || spec_trim(answer) == seq!['Y']
}

/// Whether `answer` is a yes.
///
/// A line as it is read counts, with its line end: white space around the
/// letter is passed over.
pub fn is_affirmative(answer: &str) -> (yes: bool)
    ensures
        yes == spec_is_affirmative(answer@),
{
    let letters = chars_of(trim(answer));
    proof {
        let small = seq!['y'];
        let capital = seq!['Y'];
        if letters@.len() == 1 {
            assert(letters@[0] == 'y' ==> letters@ =~= small);
            assert(letters@[0] == 'Y' ==> letters@ =~= capital);
            assert(small[0] == 'y' && capital[0] == 'Y');
        } else {
            assert(small.len() == 1 && capital.len() == 1);
        }
    }
    letters.len() == 1 && (letters[0] == 'y' || letters[0] == 'Y')
}

/// Where a cleanup stands.
#[derive(Clone, Copy, Debug, PartialEq, Eq, Structural)]
pub enum CleanupPhase {
    /// The user has been asked and has not answered yet.
    AwaitingAnswer,
    /// The user has said yes; one deletion is under way.
    Deleting,
    /// Nothing is left to do: there was no file, the user did not say yes,
    /// or every file is deleted.
    Closed,
    /// A deletion has failed; the files after it stay.
    Aborted,
}

/// What a cleanup is told.
#[derive(Clone, Debug, PartialEq, Eq)]
pub enum CleanupEvent {
    /// The user has answered with this line.
    Answered { answer: String },
    /// The file that was to be deleted is deleted.
    Deleted,
    /// The file that was to be deleted could not be deleted.
    DeleteFailed,
}

/// A cleanup event as plain text.
pub enum CleanupEventView {
    Answered { answer: Seq<char> },
    Deleted,
    DeleteFailed,
}

impl View for CleanupEvent {
    type V = CleanupEventView;

    open spec fn view(&self) -> CleanupEventView {
        match self {
            CleanupEvent::Answered { answer } => CleanupEventView::Answered { answer: answer@ },
            CleanupEvent::Deleted => CleanupEventView::Deleted,
            CleanupEvent::DeleteFailed => CleanupEventView::DeleteFailed,
        }
    }
}

/// Work that a cleanup asks for. Each request is answered by one event.
#[derive(Clone, Debug, PartialEq, Eq)]
pub enum CleanupRequest {
    /// Ask the user whether the sources shall be deleted, and read a line.
    /// Answered by `Answered`.
    Prompt,
    /// Delete this file. Answered by `Deleted` or by `DeleteFailed`.
    Delete { path: String },
}

/// A cleanup request as plain text.
pub enum CleanupRequestView {
    Prompt,
    Delete { path: Seq<char> },
}

impl View for CleanupRequest {
    type V = CleanupRequestView;

    open spec fn view(&self) -> CleanupRequestView {
        match self {
            CleanupRequest::Prompt => CleanupRequestView::Prompt,
            CleanupRequest::Delete { path } => CleanupRequestView::Delete { path: path@ },
        }
    }
}

/// What a cleanup has to say to the user.
#[derive(Clone, Debug, PartialEq, Eq)]
pub enum CleanupNotice {
    /// This file is deleted.
    Deleted { path: String },
    /// Every file is deleted.
    AllDeleted,
}

/// A cleanup notice as plain text.
pub enum CleanupNoticeView {
    Deleted { path: Seq<char> },
    AllDeleted,
}

impl View for CleanupNotice {
    type V = CleanupNoticeView;

    open spec fn view(&self) -> CleanupNoticeView {
        match self {
            CleanupNotice::Deleted { path } => CleanupNoticeView::Deleted { path: path@ },
            CleanupNotice::AllDeleted => CleanupNoticeView::AllDeleted,
        }
    }
}

/// The views of `notices`, in order.
pub open spec fn cleanup_notice_views(notices: Seq<CleanupNotice>) -> Seq<CleanupNoticeView> {
    notices.map_values(|n: CleanupNotice| n@)
}

/// A cleanup's answer to an event: what to tell the user, in order, and
/// then what to do. Without a request the cleanup waits for nothing.
#[derive(Clone, Debug, PartialEq, Eq)]
pub struct CleanupStep {
    pub notices: Vec<CleanupNotice>,
    pub request: Option<CleanupRequest>,
}

/// A cleanup step as plain text.
pub struct CleanupStepView {
    pub notices: Seq<CleanupNoticeView>,
    pub request: Option<CleanupRequestView>,
}

impl View for CleanupStep {
    type V = CleanupStepView;

    open spec fn view(&self) -> CleanupStepView {
        CleanupStepView {
            notices: cleanup_notice_views(self.notices@),
            request: match self.request {
                Some(request) => Some(request@),
                None => None,
            },
        }
    }
}

/// The step that says nothing and asks for nothing.
pub open spec fn cleanup_idle() -> CleanupStepView {
    CleanupStepView { notices: Seq::empty(), request: None }
}

/// The state of a cleanup as plain values.
pub struct CleanupState {
    pub phase: CleanupPhase,
    /// The files that a yes deletes: those of a walk made after the batch,
    /// in its order.
    pub files: Seq<Seq<char>>,
    /// How many of them are deleted: the first so many.
    pub deleted: nat,
}

impl CleanupState {
    /// What holds of every state that a cleanup can be in.
    pub open spec fn wf(self) -> bool {
        match self.phase {
            CleanupPhase::AwaitingAnswer => self.deleted == 0 && self.files.len() > 0,
            CleanupPhase::Deleting => self.deleted < self.files.len(),
            CleanupPhase::Closed => self.deleted == 0 || self.deleted == self.files.len(),
            CleanupPhase::Aborted => self.deleted < self.files.len(),
        }
    }
}

/// How a cleanup opens on `files`: with the question where there is
/// something to delete, and closed at once where there is not.
pub open spec fn spec_open(files: Seq<Seq<char>>) -> (CleanupState, CleanupStepView) {
    if files.len() == 0 {
        (CleanupState { phase: CleanupPhase::Closed, files, deleted: 0 }, cleanup_idle())
    } else {
        (
            CleanupState { phase: CleanupPhase::AwaitingAnswer, files, deleted: 0 },
            CleanupStepView { notices: Seq::empty(), request: Some(CleanupRequestView::Prompt) },
        )
    }
}

/// What the user's answer leads to: the first deletion after a yes, and
/// nothing at all after anything else.
pub open spec fn spec_answered(state: CleanupState, answer: Seq<char>) -> (
    CleanupState,
    CleanupStepView,
) {
    if spec_is_affirmative(answer) {
        (
            CleanupState { phase: CleanupPhase::Deleting, ..state },
            CleanupStepView {
                notices: Seq::empty(),
                request: Some(CleanupRequestView::Delete { path: state.files[0] }),
            },
        )
    } else {
        (CleanupState { phase: CleanupPhase::Closed, ..state }, cleanup_idle())
    }
}

/// What a deletion that went well leads to: the user is told of it, and
/// the next file follows, or the word that all are deleted after the last.
pub open spec fn spec_deleted(state: CleanupState) -> (CleanupState, CleanupStepView) {
    let told = CleanupNoticeView::Deleted { path: state.files[state.deleted as int] };
    let deleted = state.deleted + 1;
    if deleted == state.files.len() {
        (
            CleanupState { phase: CleanupPhase::Closed, deleted: deleted as nat, ..state },
            CleanupStepView { notices: seq![told, CleanupNoticeView::AllDeleted], request: None },
        )
    } else {
        (
            CleanupState { deleted: deleted as nat, ..state },
            CleanupStepView {
                notices: seq![told],
                request: Some(CleanupRequestView::Delete { path: state.files[deleted as int] }),
            },
        )
    }
}

/// The state after `event`, and the cleanup's answer to it.
///
/// A deletion that fails ends the cleanup at once, without a word: the
/// files after it are not touched. An event that the cleanup does not wait
/// for changes nothing and is answered by nothing; so is every event once
/// the cleanup is over.
pub open spec fn spec_cleanup_step(state: CleanupState, event: CleanupEventView) -> (
    CleanupState,
    CleanupStepView,
) {
    match (state.phase, event) {
        (CleanupPhase::AwaitingAnswer, CleanupEventView::Answered { answer }) => spec_answered(
            state,
            answer,
        ),
        (CleanupPhase::Deleting, CleanupEventView::Deleted) => spec_deleted(state),
        (CleanupPhase::Deleting, CleanupEventView::DeleteFailed) => (
            CleanupState { phase: CleanupPhase::Aborted, ..state },
            cleanup_idle(),
        ),
        _ => (state, cleanup_idle()),
    }
}

/// What a run of steps comes to: the state at its end, everything said
/// on the way, and everything asked for, each in order.
pub struct CleanupRun {
    pub state: CleanupState,
    pub notices: Seq<CleanupNoticeView>,
    pub requests: Seq<CleanupRequestView>,
}

/// The request of `step` as a sequence: of one request, or of none.
pub open spec fn cleanup_requests_of(step: CleanupStepView) -> Seq<CleanupRequestView> {
    match step.request {
        Some(request) => seq![request],
        None => Seq::empty(),
    }
}

/// The run from `state` through `events`, one after the other.
pub open spec fn spec_cleanup_run(state: CleanupState, events: Seq<CleanupEventView>) -> CleanupRun
    decreases events.len(),
{
    if events.len() == 0 {
        CleanupRun { state, notices: Seq::empty(), requests: Seq::empty() }
    } else {
        let first = spec_cleanup_step(state, events[0]);
        let rest = spec_cleanup_run(first.0, events.drop_first());
        CleanupRun {
            state: rest.state,
            notices: first.1.notices + rest.notices,
            requests: cleanup_requests_of(first.1) + rest.requests,
        }
    }
}

/// Whether `event` is the user's yes.
pub open spec fn is_consent(event: CleanupEventView) -> bool {
    event matches CleanupEventView::Answered { answer } && spec_is_affirmative(answer)
}

/// So many deletions that went well, one after the other.
pub open spec fn successes(count: nat) -> Seq<CleanupEventView> {
    Seq::new(count, |i: int| CleanupEventView::Deleted)
}

/// One request to delete for each of `files`, in order.
pub open spec fn deletions(files: Seq<Seq<char>>) -> Seq<CleanupRequestView> {
    Seq::new(files.len(), |i: int| CleanupRequestView::Delete { path: files[i] })
}

/// One notice of a deletion for each of `files`, in order.
pub open spec fn deletion_notices(files: Seq<Seq<char>>) -> Seq<CleanupNoticeView> {
    Seq::new(files.len(), |i: int| CleanupNoticeView::Deleted { path: files[i] })
}

/// Every step keeps a well-formed state well-formed and leaves the files
/// as they are; what is deleted stays deleted. A cleanup that is over, at
/// its end or by a failure, takes nothing in.
pub proof fn lemma_cleanup_step_preserves(state: CleanupState, event: CleanupEventView)
    requires
        state.wf(),
    ensures
        spec_cleanup_step(state, event).0.wf(),
        spec_cleanup_step(state, event).0.files == state.files,
        spec_cleanup_step(state, event).0.deleted >= state.deleted,
        state.phase == CleanupPhase::Closed || state.phase == CleanupPhase::Aborted
            ==> spec_cleanup_step(state, event) == (state, cleanup_idle()),
{
}

/// Without the user's yes nothing is deleted: whatever a cleanup is told,
/// as long as no answer among it is a yes, it asks for no deletion, and
/// for nothing else either, and it has nothing to say.
pub proof fn lemma_no_deletion_without_consent(
    files: Seq<Seq<char>>,
    events: Seq<CleanupEventView>,
)
    requires
        forall|i: int| 0 <= i < events.len() ==> !is_consent(#[trigger] events[i]),
    ensures
        spec_cleanup_run(spec_open(files).0, events).requests == Seq::<CleanupRequestView>::empty(),
        spec_cleanup_run(spec_open(files).0, events).notices == Seq::<CleanupNoticeView>::empty(),
        spec_cleanup_run(spec_open(files).0, events).state.deleted == 0,
{
    lemma_idle_without_consent(spec_open(files).0, events);
}

/// The same of any cleanup that has not begun to delete.
proof fn lemma_idle_without_consent(state: CleanupState, events: Seq<CleanupEventView>)
    requires
        state.phase == CleanupPhase::AwaitingAnswer || state.phase == CleanupPhase::Closed,
        forall|i: int| 0 <= i < events.len() ==> !is_consent(#[trigger] events[i]),
    ensures
        spec_cleanup_run(state, events).requests == Seq::<CleanupRequestView>::empty(),
        spec_cleanup_run(state, events).notices == Seq::<CleanupNoticeView>::empty(),
        spec_cleanup_run(state, events).state.deleted == state.deleted,
    decreases events.len(),
{
    if events.len() > 0 {
        assert(!is_consent(events[0]));
        let first = spec_cleanup_step(state, events[0]);
        assert forall|i: int| 0 <= i < events.drop_first().len() implies !is_consent(
            #[trigger] events.drop_first()[i],
        ) by {
            assert(events.drop_first()[i] == events[i + 1]);
        }
        lemma_idle_without_consent(first.0, events.drop_first());
    }
}

/// The user's answer decides: after a yes the first file is asked for;
/// after any other answer the cleanup is closed and asks for nothing.
/// Before the answer only the question is asked.
pub proof fn lemma_answer_decides(files: Seq<Seq<char>>, answer: Seq<char>)
    requires
        files.len() > 0,
    ensures
        ({
            let opened = spec_open(files);
            let answered = spec_cleanup_step(opened.0, CleanupEventView::Answered { answer });
            &&& opened.1.request == Some(CleanupRequestView::Prompt)
            &&& answered.1.request is Some <==> spec_is_affirmative(answer)
            &&& spec_is_affirmative(answer) ==> answered.1.request == Some(
                CleanupRequestView::Delete { path: files[0] },
            ) && answered.0.phase == CleanupPhase::Deleting
            &&& !spec_is_affirmative(answer) ==> answered.1 == cleanup_idle() && answered.0.phase
                == CleanupPhase::Closed
            &&& answered.0.wf()
        }),
{
}

/// A cleanup that deletes, and whose next `count` deletions go well, asks
/// for each of the files after the one under way, in order, and tells of
/// each deletion; after the last file it says that all are deleted and is
/// closed.
pub proof fn lemma_deletions_in_order(state: CleanupState, count: nat)
    requires
        state.wf(),
        state.phase == CleanupPhase::Deleting,
        count <= state.files.len() - state.deleted,
    ensures
        ({
            let run = spec_cleanup_run(state, successes(count));
            let first = state.deleted as int;
            let all = state.deleted + count == state.files.len();
            &&& run.state.wf()
            &&& run.state.files == state.files
            &&& run.state.deleted == state.deleted + count
            &&& run.state.phase == if all {
                CleanupPhase::Closed
            } else {
                CleanupPhase::Deleting
            }
            &&& run.requests == deletions(
                state.files.subrange(
                    first + 1,
                    if all {
                        first + count
                    } else {
                        first + count + 1
                    },
                ),
            )
            &&& run.notices == if all && count > 0 {
                deletion_notices(state.files.subrange(first, first + count)).push(
                    CleanupNoticeView::AllDeleted,
                )
            } else {
                deletion_notices(state.files.subrange(first, first + count))
            }
        }),
    decreases count,
{
    let events = successes(count);
    let run = spec_cleanup_run(state, events);
    let first = state.deleted as int;
    if count > 0 {
        let stepped = spec_cleanup_step(state, events[0]);
        assert(events.drop_first() == successes((count - 1) as nat));
        let rest = spec_cleanup_run(stepped.0, events.drop_first());
        if stepped.0.phase == CleanupPhase::Deleting {
            lemma_deletions_in_order(stepped.0, (count - 1) as nat);
        } else {
            assert(count == 1);
            assert(rest.requests == Seq::<CleanupRequestView>::empty());
            assert(rest.notices == Seq::<CleanupNoticeView>::empty());
        }
        let all = state.deleted + count == state.files.len();
        assert(run.requests == deletions(
            state.files.subrange(
                first + 1,
                if all {
                    first + count
                } else {
                    first + count + 1
                },
            ),
        ));
        assert(run.notices == if all {
            deletion_notices(state.files.subrange(first, first + count)).push(
                CleanupNoticeView::AllDeleted,
            )
        } else {
            deletion_notices(state.files.subrange(first, first + count))
        });
    } else {
        assert(run.requests == deletions(state.files.subrange(first + 1, first + 1)));
        assert(run.notices == deletion_notices(state.files.subrange(first, first)));
    }
}

/// After a yes, and where every deletion goes well, every file is
/// deleted: each is asked for once, in the order of the walk, each
/// deletion is told, and at the end the user is told that all are
/// deleted.
pub proof fn lemma_consent_deletes_all(files: Seq<Seq<char>>, answer: Seq<char>)
    requires
        files.len() > 0,
        spec_is_affirmative(answer),
    ensures
        ({
            let opened = spec_open(files);
            let answered = spec_cleanup_step(opened.0, CleanupEventView::Answered { answer });
            let run = spec_cleanup_run(answered.0, successes(files.len()));
            &&& cleanup_requests_of(answered.1) + run.requests == deletions(files)
            &&& run.notices == deletion_notices(files).push(CleanupNoticeView::AllDeleted)
            &&& run.state.phase == CleanupPhase::Closed
            &&& run.state.deleted == files.len()
        }),
{
    let opened = spec_open(files);
    let answered = spec_cleanup_step(opened.0, CleanupEventView::Answered { answer });
    let run = spec_cleanup_run(answered.0, successes(files.len()));
    lemma_deletions_in_order(answered.0, files.len());
    assert(files.subrange(0, files.len() as int) == files);
    assert(cleanup_requests_of(answered.1) + deletions(files.subrange(1, files.len() as int))
        == deletions(files));
}

/// A deletion that fails ends the cleanup at once: nothing is said, the
/// files after it are never asked for, whatever the cleanup is told
/// afterwards, and the count of deleted files stays.
pub proof fn lemma_failed_deletion_aborts(state: CleanupState, later: Seq<CleanupEventView>)
    requires
        state.wf(),
        state.phase == CleanupPhase::Deleting,
    ensures
        ({
            let failed = spec_cleanup_step(state, CleanupEventView::DeleteFailed);
            let run = spec_cleanup_run(failed.0, later);
            &&& failed.1 == cleanup_idle()
            &&& failed.0.phase == CleanupPhase::Aborted
            &&& run.state == failed.0
            &&& run.state.deleted == state.deleted
            &&& run.requests == Seq::<CleanupRequestView>::empty()
            &&& run.notices == Seq::<CleanupNoticeView>::empty()
        }),
{
    let failed = spec_cleanup_step(state, CleanupEventView::DeleteFailed);
    lemma_over_stays_over(failed.0, later);
}

/// A cleanup that is over takes nothing in, however much it is told.
pub proof fn lemma_over_stays_over(state: CleanupState, events: Seq<CleanupEventView>)
    requires
        state.phase == CleanupPhase::Closed || state.phase == CleanupPhase::Aborted,
    ensures
        spec_cleanup_run(state, events).state == state,
        spec_cleanup_run(state, events).requests == Seq::<CleanupRequestView>::empty(),
        spec_cleanup_run(state, events).notices == Seq::<CleanupNoticeView>::empty(),
    decreases events.len(),
{
    if events.len() > 0 {
        lemma_over_stays_over(state, events.drop_first());
    }
}

/// The cleanup after a batch.
pub struct Cleanup {
    phase: CleanupPhase,
    files: Vec<String>,
    deleted: usize,
}

impl View for Cleanup {
    type V = CleanupState;

    closed spec fn view(&self) -> CleanupState {
        CleanupState { phase: self.phase, files: texts(self.files@), deleted: self.deleted as nat }
    }
}

impl Cleanup {
    /// What holds of every cleanup.
    pub open spec fn wf(&self) -> bool {
        self@.wf()
    }

    /// A cleanup of `files`, and what to do first: ask the user, unless
    /// there is no file, in which case it is closed from the start.
    pub fn open(files: Vec<String>) -> (opened: (Cleanup, CleanupStep))
        ensures
            opened.0.wf(),
            opened.0@ == spec_open(texts(files@)).0,
            opened.1@ == spec_open(texts(files@)).1,
    {
        if files.len() == 0 {
            (Cleanup { phase: CleanupPhase::Closed, files, deleted: 0 }, Self::idle_step())
        } else {
            let step = CleanupStep { notices: Vec::new(), request: Some(CleanupRequest::Prompt) };
            assert(cleanup_notice_views(step.notices@) =~= Seq::empty());
            (Cleanup { phase: CleanupPhase::AwaitingAnswer, files, deleted: 0 }, step)
        }
    }

    /// Where the cleanup stands.
    pub fn phase(&self) -> (phase: CleanupPhase)
        ensures
            phase == self@.phase,
    {
        self.phase
    }

    /// How many files are deleted.
    pub fn deleted(&self) -> (deleted: usize)
        ensures
            deleted == self@.deleted,
    {
        self.deleted
    }

    /// The step that says nothing and asks for nothing.
    fn idle_step() -> (step: CleanupStep)
        ensures
            step@ == cleanup_idle(),
    {
        let step = CleanupStep { notices: Vec::new(), request: None };
        assert(cleanup_notice_views(step.notices@) =~= Seq::empty());
        step
    }

    /// Takes `event` in and answers it.
    ///
    /// The user's answer opens the deletions if it is a yes, and closes
    /// the cleanup without any if it is anything else. Each `Deleted` is
    /// told to the user and followed by the next file, or, after the last,
    /// by the word that all are deleted. `DeleteFailed` ends the cleanup
    /// at once. Any other event is ignored.
    pub fn step(self, event: CleanupEvent) -> (stepped: (Cleanup, CleanupStep))
        requires
            self.wf(),
        ensures
            stepped.0.wf(),
            stepped.0@ == spec_cleanup_step(self@, event@).0,
            stepped.1@ == spec_cleanup_step(self@, event@).1,
    {
        let ghost before = self@;
        match event {
            CleanupEvent::Answered { answer } => {
                if self.phase != CleanupPhase::AwaitingAnswer {
                    return (self, Self::idle_step());
                }
                if !is_affirmative(answer.as_str()) {
                    return (Cleanup { phase: CleanupPhase::Closed, ..self }, Self::idle_step());
                }
                assert(before.files[0] == self.files@[0]@);
                let request = CleanupRequest::Delete { path: self.files[0].clone() };
                let step = CleanupStep { notices: Vec::new(), request: Some(request) };
                assert(cleanup_notice_views(step.notices@) =~= Seq::empty());
                (Cleanup { phase: CleanupPhase::Deleting, ..self }, step)
            },
            CleanupEvent::Deleted => {
                if self.phase != CleanupPhase::Deleting {
                    return (self, Self::idle_step());
                }
                let Cleanup { phase, files, deleted } = self;
                assert(before.files.len() == files.len());
                assert(before.files[deleted as int] == files@[deleted as int]@);
                let mut notices: Vec<CleanupNotice> = Vec::new();
                notices.push(CleanupNotice::Deleted { path: files[deleted].clone() });
                let deleted = deleted + 1;
                if deleted == files.len() {
                    notices.push(CleanupNotice::AllDeleted);
                    assert(cleanup_notice_views(notices@) =~= spec_deleted(before).1.notices);
                    (
                        Cleanup { phase: CleanupPhase::Closed, files, deleted },
                        CleanupStep { notices, request: None },
                    )
                } else {
                    assert(before.files[deleted as int] == files@[deleted as int]@);
                    let request = CleanupRequest::Delete { path: files[deleted].clone() };
                    assert(cleanup_notice_views(notices@) =~= spec_deleted(before).1.notices);
                    (
                        Cleanup { phase: CleanupPhase::Deleting, files, deleted },
                        CleanupStep { notices, request: Some(request) },
                    )
                }
            },
            CleanupEvent::DeleteFailed => {
                if self.phase != CleanupPhase::Deleting {
                    return (self, Self::idle_step());
                }
                (Cleanup { phase: CleanupPhase::Aborted, ..self }, Self::idle_step())
            },
        }
    }
}

} // verus!
