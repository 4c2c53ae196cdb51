//! The batch as a state machine: it is told what happened and answers with
//! what to tell the user and what to do next. It touches nothing itself;
//! whoever drives it creates the directory, walks the tree and runs the
//! encoder.

use vstd::prelude::*;

use crate::job::{spec_descriptor, spec_exited_cleanly, JobDescriptor, JobOutcome, JobView};
use crate::path::{file_name, spec_file_name};
use crate::text::texts;

verus! {

/// Where a batch stands.
#[derive(Clone, Copy, Debug, PartialEq, Eq, Structural)]
pub enum Phase {
    /// The output directory is being made ready and the input directory
    /// walked; no file is known yet.
    Init,
    /// One job is running, and none after it has started.
    Running,
    /// Every file has had its job, or there was none.
    Done,
    /// A fault has ended the batch before its time.
    Aborted,
}

/// What ends a batch at once: the surroundings are broken, not a file.
#[derive(Clone, Copy, Debug, PartialEq, Eq, Structural)]
pub enum Fault {
    /// The output directory could not be created.
    OutputDir,
    /// The log file of a job could not be created.
    LogFile,
    /// The encoder could not be started.
    Spawn,
}

/// What the driver is told.
#[derive(Clone, Debug, PartialEq, Eq)]
pub enum Event {
    /// The output directory has been created.
    OutputDirCreated,
    /// The walk of the input directory has yielded these files.
    Discovered { files: Vec<String> },
    /// The encoder of the running job has ended, with this exit code, or
    /// with none.
    JobExited { exit_code: Option<i32> },
    /// What was asked for could not be done.
    Failed { fault: Fault },
}

/// An event as plain text.
pub enum EventView {
    OutputDirCreated,
    Discovered { files: Seq<Seq<char>> },
    JobExited { exit_code: Option<i32> },
    Failed { fault: Fault },
}

impl View for Event {
    type V = EventView;

    open spec fn view(&self) -> EventView {
        match self {
            Event::OutputDirCreated => EventView::OutputDirCreated,
            Event::Discovered { files } => EventView::Discovered { files: texts(files@) },
            Event::JobExited { exit_code } => EventView::JobExited { exit_code: *exit_code },
            Event::Failed { fault } => EventView::Failed { fault: *fault },
        }
    }
}

/// Work that the driver asks for. Each request is answered by one event.
#[derive(Clone, Debug, PartialEq, Eq)]
pub enum Request {
    /// Create the output directory, with the directories above it. Answered
    /// by `OutputDirCreated`.
    CreateOutputDir { path: String },
    /// Walk the input directory. Answered by `Discovered`, with its regular
    /// files.
    Discover { root: String },
    /// Run the encoder on this job, with its output in the job's log.
    /// Answered by `JobExited`.
    RunJob { job: JobDescriptor },
}

/// A request as plain text.
pub enum RequestView {
    CreateOutputDir { path: Seq<char> },
    Discover { root: Seq<char> },
    RunJob { job: JobView },
}

impl View for Request {
    type V = RequestView;

    open spec fn view(&self) -> RequestView {
        match self {
            Request::CreateOutputDir { path } => RequestView::CreateOutputDir { path: path@ },
            Request::Discover { root } => RequestView::Discover { root: root@ },
            Request::RunJob { job } => RequestView::RunJob { job: job@ },
        }
    }
}

/// What the driver has to say to the user.
#[derive(Clone, Debug, PartialEq, Eq)]
pub enum Notice {
    /// The input directory holds no file.
    NoFilesFound,
    /// The batch has this many files: the progress indicator starts at
    /// none of them.
    ProgressStarted { total: usize },
    /// One more job has succeeded: the progress indicator moves on by one.
    ProgressAdvanced,
    /// The job of this source has failed.
    JobFailed { source_path: String },
    /// Every file has had its job: the progress indicator is closed.
    Completed,
}

/// A notice as plain text.
pub enum NoticeView {
    NoFilesFound,
    ProgressStarted { total: nat },
    ProgressAdvanced,
    JobFailed { source_path: Seq<char> },
    Completed,
}

impl View for Notice {
    type V = NoticeView;

    open spec fn view(&self) -> NoticeView {
        match self {
            Notice::NoFilesFound => NoticeView::NoFilesFound,
            Notice::ProgressStarted { total } => NoticeView::ProgressStarted { total: *total as nat },
            Notice::ProgressAdvanced => NoticeView::ProgressAdvanced,
            Notice::JobFailed { source_path } => NoticeView::JobFailed { source_path: source_path@ },
            Notice::Completed => NoticeView::Completed,
        }
    }
}

/// The views of `notices`, in order.
pub open spec fn notice_views(notices: Seq<Notice>) -> Seq<NoticeView> {
    notices.map_values(|n: Notice| n@)
}

/// The driver's answer to an event: what to tell the user, in order, and
/// then what to do. Without a request the driver waits for nothing.
#[derive(Clone, Debug, PartialEq, Eq)]
pub struct Step {
    pub notices: Vec<Notice>,
    pub request: Option<Request>,
}

/// A step as plain text.
pub struct StepView {
    pub notices: Seq<NoticeView>,
    pub request: Option<RequestView>,
}

impl View for Step {
    type V = StepView;

    open spec fn view(&self) -> StepView {
        StepView {
            notices: notice_views(self.notices@),
            request: match self.request {
                Some(request) => Some(request@),
                None => None,
            },
        }
    }
}

/// The step that says nothing and asks for nothing.
pub open spec fn idle() -> StepView {
    StepView { notices: Seq::empty(), request: None }
}

/// Whether every one of `files` has a file name.
pub open spec fn all_named(files: Seq<Seq<char>>) -> bool {
    forall|i: int| 0 <= i < files.len() ==> spec_file_name(#[trigger] files[i]) is Some
}

/// The state of a batch as plain values.
pub struct DriverState {
    pub phase: Phase,
    /// The directory whose files are encoded.
    pub input_root: Seq<char>,
    /// The directory that receives the outputs and the logs.
    pub output_root: Seq<char>,
    /// Whether the output directory is known to be there.
    pub output_dir_ready: bool,
    /// The files of the batch, in the order in which they are encoded;
    /// fixed once discovered.
    pub files: Seq<Seq<char>>,
    /// How many jobs have ended.
    pub processed: nat,
    /// How many of them succeeded: the position of the progress indicator.
    pub completed: nat,
    /// The sources of those that failed, in the order of the batch.
    pub failed: Seq<Seq<char>>,
    /// What has ended the batch before its time, if anything has.
    pub fault: Option<Fault>,
}

impl DriverState {
    /// What holds of every state that a batch can be in.
    pub open spec fn wf(self) -> bool {
        &&& all_named(self.files)
        &&& self.completed + self.failed.len() == self.processed
        &&& self.processed <= self.files.len()
        &&& self.fault is Some <==> self.phase == Phase::Aborted
        &&& match self.phase {
            Phase::Init => self.files.len() == 0,
            Phase::Running => self.processed < self.files.len() && self.output_dir_ready,
            Phase::Done => self.processed == self.files.len() && self.output_dir_ready,
            Phase::Aborted => true,
        }
    }

    /// The job of the file at `index`.
    pub open spec fn job(self, index: int) -> JobView {
        spec_descriptor(self.files[index], self.output_root)->0
    }
}

/// How a batch begins: with the creation of the output directory, unless
/// it is there, in which case the batch goes straight to the walk of the
/// input directory.
pub open spec fn spec_start(
    input_root: Seq<char>,
    output_root: Seq<char>,
    output_dir_exists: bool,
) -> (DriverState, StepView) {
    let state = DriverState {
        phase: Phase::Init,
        input_root,
        output_root,
        output_dir_ready: output_dir_exists,
        files: Seq::empty(),
        processed: 0,
        completed: 0,
        failed: Seq::empty(),
        fault: None,
    };
    let request = if output_dir_exists {
        RequestView::Discover { root: input_root }
    } else {
        RequestView::CreateOutputDir { path: output_root }
    };
    (state, StepView { notices: Seq::empty(), request: Some(request) })
}

/// What the files of a walk lead to: nothing but a notice when there is
/// none, else the progress indicator and the first job.
pub open spec fn spec_discovered(state: DriverState, files: Seq<Seq<char>>) -> (
    DriverState,
    StepView,
) {
    if files.len() == 0 {
        (
            DriverState { phase: Phase::Done, ..state },
            StepView { notices: seq![NoticeView::NoFilesFound], request: None },
        )
    } else {
        let next = DriverState { phase: Phase::Running, files, ..state };
        (
            next,
            StepView {
                notices: seq![NoticeView::ProgressStarted { total: files.len() }],
                request: Some(RequestView::RunJob { job: next.job(0) }),
            },
        )
    }
}

/// What the end of the running job leads to: progress or a notice of
/// failure, and then the next job, or the end of the batch after the last.
pub open spec fn spec_job_exited(state: DriverState, exit_code: Option<i32>) -> (
    DriverState,
    StepView,
) {
    let source_path = state.files[state.processed as int];
    let success = spec_exited_cleanly(exit_code);
    let processed = state.processed + 1;
    let last = processed == state.files.len();
    let next = DriverState {
        phase: if last {
            Phase::Done
        } else {
            Phase::Running
        },
        processed: processed as nat,
        completed: if success {
            state.completed + 1
        } else {
            state.completed
        },
        failed: if success {
            state.failed
        } else {
            state.failed.push(source_path)
        },
        ..state
    };
    let report = if success {
        NoticeView::ProgressAdvanced
    } else {
        NoticeView::JobFailed { source_path }
    };
    if last {
        (next, StepView { notices: seq![report, NoticeView::Completed], request: None })
    } else {
        (
            next,
            StepView {
                notices: seq![report],
                request: Some(RequestView::RunJob { job: next.job(processed as int) }),
            },
        )
    }
}

/// The state after `event`, and the driver's answer to it.
///
/// A fault ends a batch that is under way, without a word. An event that
/// the batch does not wait for changes nothing and is answered by nothing;
/// so is every event once the batch is over.
pub open spec fn spec_step(state: DriverState, event: EventView) -> (DriverState, StepView) {
    match (state.phase, event) {
        (Phase::Init, EventView::OutputDirCreated) => if state.output_dir_ready {
            (state, idle())
        } else {
            (
                DriverState { output_dir_ready: true, ..state },
                StepView {
                    notices: Seq::empty(),
                    request: Some(RequestView::Discover { root: state.input_root }),
                },
            )
        },
        (Phase::Init, EventView::Discovered { files }) => if state.output_dir_ready {
            spec_discovered(state, files)
        } else {
            (state, idle())
        },
        (Phase::Running, EventView::JobExited { exit_code }) => spec_job_exited(state, exit_code),
        (Phase::Init, EventView::Failed { fault }) | (Phase::Running, EventView::Failed { fault }) => (
            DriverState { phase: Phase::Aborted, fault: Some(fault), ..state },
            idle(),
        ),
        _ => (state, idle()),
    }
}

/// Whether `event` may be handed to a driver: the files of a walk all
/// have file names.
pub open spec fn event_valid(event: EventView) -> bool {
    event matches EventView::Discovered { files } ==> all_named(files)
}

/// What a run of steps comes to: the state at its end, everything said
/// on the way, and everything asked for, each in order.
pub struct RunView {
    pub state: DriverState,
    pub notices: Seq<NoticeView>,
    pub requests: Seq<RequestView>,
}

/// The request of `step` as a sequence: of one request, or of none.
pub open spec fn requests_of(step: StepView) -> Seq<RequestView> {
    match step.request {
        Some(request) => seq![request],
        None => Seq::empty(),
    }
}

/// The run from `state` in which the jobs end with `exit_codes`, one after
/// the other.
pub open spec fn spec_run(state: DriverState, exit_codes: Seq<Option<i32>>) -> RunView
    decreases exit_codes.len(),
{
    if exit_codes.len() == 0 {
        RunView { state, notices: Seq::empty(), requests: Seq::empty() }
    } else {
        let first = spec_step(state, EventView::JobExited { exit_code: exit_codes[0] });
        let rest = spec_run(first.0, exit_codes.drop_first());
        RunView {
            state: rest.state,
            notices: first.1.notices + rest.notices,
            requests: requests_of(first.1) + rest.requests,
        }
    }
}

/// The whole batch from `input_root` to `output_root`, where there is no
/// fault: the output directory is created if it has to be, the walk
/// yields `files`, and their jobs end with `exit_codes`.
pub open spec fn spec_batch(
    input_root: Seq<char>,
    output_root: Seq<char>,
    output_dir_exists: bool,
    files: Seq<Seq<char>>,
    exit_codes: Seq<Option<i32>>,
) -> RunView {
    let begun = spec_start(input_root, output_root, output_dir_exists);
    let ready = spec_step(begun.0, EventView::OutputDirCreated);
    let found = spec_step(ready.0, EventView::Discovered { files });
    let ended = spec_run(found.0, exit_codes);
    RunView {
        state: ended.state,
        notices: begun.1.notices + ready.1.notices + found.1.notices + ended.notices,
        requests: requests_of(begun.1) + requests_of(ready.1) + requests_of(found.1)
            + ended.requests,
    }
}

/// What is said when the job of `source_path` ends with `exit_code`.
pub open spec fn spec_report(source_path: Seq<char>, exit_code: Option<i32>) -> NoticeView {
    if spec_exited_cleanly(exit_code) {
        NoticeView::ProgressAdvanced
    } else {
        NoticeView::JobFailed { source_path }
    }
}

/// What is said of the jobs of `files`, one notice for each, where the job
/// of each file ends with the exit code at the same place in `exit_codes`.
pub open spec fn reports(files: Seq<Seq<char>>, exit_codes: Seq<Option<i32>>) -> Seq<NoticeView> {
    Seq::new(exit_codes.len(), |i: int| spec_report(files[i], exit_codes[i]))
}

/// One request to run the encoder for each of `files`, in order.
pub open spec fn job_requests(files: Seq<Seq<char>>, output_root: Seq<char>) -> Seq<RequestView> {
    Seq::new(
        files.len(),
        |i: int| RequestView::RunJob { job: spec_descriptor(files[i], output_root)->0 },
    )
}

/// How many of `exit_codes` are failures.
pub open spec fn failure_count(exit_codes: Seq<Option<i32>>) -> nat
    decreases exit_codes.len(),
{
    if exit_codes.len() == 0 {
        0
    } else if spec_exited_cleanly(exit_codes[0]) {
        failure_count(exit_codes.drop_first())
    } else {
        1 + failure_count(exit_codes.drop_first())
    }
}

/// Those of `files` whose job failed, where the job of each file has ended
/// with the exit code at the same place in `exit_codes`.
pub open spec fn failed_sources(files: Seq<Seq<char>>, exit_codes: Seq<Option<i32>>) -> Seq<
    Seq<char>,
>
    decreases exit_codes.len(),
{
    if exit_codes.len() == 0 || files.len() == 0 {
        Seq::empty()
    } else if spec_exited_cleanly(exit_codes[0]) {
        failed_sources(files.drop_first(), exit_codes.drop_first())
    } else {
        seq![files[0]] + failed_sources(files.drop_first(), exit_codes.drop_first())
    }
}

/// How many failures `notices` tell of.
pub open spec fn failures_reported(notices: Seq<NoticeView>) -> nat
    decreases notices.len(),
{
    if notices.len() == 0 {
        0
    } else if notices[0] is JobFailed {
        1 + failures_reported(notices.drop_first())
    } else {
        failures_reported(notices.drop_first())
    }
}

/// How far `notices` move the progress indicator.
pub open spec fn progress_made(notices: Seq<NoticeView>) -> nat
    decreases notices.len(),
{
    if notices.len() == 0 {
        0
    } else if notices[0] is ProgressAdvanced {
        1 + progress_made(notices.drop_first())
    } else {
        progress_made(notices.drop_first())
    }
}

/// Every step keeps a well-formed state well-formed and never changes the
/// roots. Once the files are known they stay, so the total that the
/// progress counts against is fixed when the batch starts to run. And a
/// batch that is over, at its end or by a fault, takes nothing in.
pub proof fn lemma_step_preserves(state: DriverState, event: EventView)
    requires
        state.wf(),
        event_valid(event),
    ensures
        spec_step(state, event).0.wf(),
        spec_step(state, event).0.input_root == state.input_root,
        spec_step(state, event).0.output_root == state.output_root,
        state.phase != Phase::Init ==> spec_step(state, event).0.files == state.files,
        state.phase == Phase::Done || state.phase == Phase::Aborted ==> spec_step(state, event) == (
            state,
            idle(),
        ),
{
}

/// The output directory is asked for at most once, at the very start: no
/// step asks for it. The walk is asked for only in answer to the created
/// directory, and jobs only once the directory is ready.
pub proof fn lemma_setup_comes_first(state: DriverState, event: EventView)
    requires
        state.wf(),
        event_valid(event),
    ensures
        !(spec_step(state, event).1.request matches Some(RequestView::CreateOutputDir { .. })),
        spec_step(state, event).1.request matches Some(RequestView::Discover { .. })
            ==> state.phase == Phase::Init && !state.output_dir_ready && event
            is OutputDirCreated,
        spec_step(state, event).1.request matches Some(RequestView::RunJob { .. })
            ==> state.output_dir_ready,
{
}

/// A fault ends a batch that is under way at once: nothing is said,
/// nothing more is asked for, and what the batch had come to stays on
/// record.
pub proof fn lemma_fault_aborts(state: DriverState, fault: Fault)
    requires
        state.wf(),
        state.phase == Phase::Init || state.phase == Phase::Running,
    ensures
        ({
            let stepped = spec_step(state, EventView::Failed { fault });
            &&& stepped.1 == idle()
            &&& stepped.0.phase == Phase::Aborted
            &&& stepped.0.fault == Some(fault)
            &&& stepped.0.processed == state.processed
            &&& stepped.0.completed == state.completed
            &&& stepped.0.failed == state.failed
            &&& stepped.0.wf()
        }),
{
}

/// A running batch whose jobs end with `exit_codes`, one for each file
/// that is left, comes to its end, whatever the codes are. Each file that
/// is left gets its job, in order; each success is one step of progress
/// and each failure one notice that names the file; the last notice says
/// that the batch is complete.
pub proof fn lemma_run_to_end(state: DriverState, exit_codes: Seq<Option<i32>>)
    requires
        state.wf(),
        state.phase == Phase::Running,
        exit_codes.len() == state.files.len() - state.processed,
    ensures
        ({
            let ended = spec_run(state, exit_codes);
            let left = state.files.skip(state.processed as int);
            let failures = failure_count(exit_codes);
            &&& ended.state.wf()
            &&& ended.state.phase == Phase::Done
            &&& ended.state.files == state.files
            &&& ended.state.processed == state.files.len()
            &&& failures <= exit_codes.len()
            &&& ended.state.completed == state.completed + exit_codes.len() - failures
            &&& ended.state.failed == state.failed + failed_sources(left, exit_codes)
            &&& ended.state.failed.len() == state.failed.len() + failures
            &&& ended.notices == reports(left, exit_codes).push(NoticeView::Completed)
            &&& ended.requests == job_requests(left.drop_first(), state.output_root)
            &&& failures_reported(ended.notices) == failures
            &&& progress_made(ended.notices) == exit_codes.len() - failures
        }),
    decreases exit_codes.len(),
{
    let first = spec_step(state, EventView::JobExited { exit_code: exit_codes[0] });
    let codes = exit_codes.drop_first();
    let rest = spec_run(first.0, codes);
    let ended = spec_run(state, exit_codes);
    let left = state.files.skip(state.processed as int);
    let after = first.0.files.skip(first.0.processed as int);
    assert(left[0] == state.files[state.processed as int]);
    assert(left.drop_first() == after);
    let done = seq![NoticeView::Completed];
    assert(exit_codes.len() > 0);
    assert(failure_count(exit_codes) == failure_count(codes) + if spec_exited_cleanly(
        exit_codes[0],
    ) {
        0nat
    } else {
        1nat
    });
    assert(ended.state == rest.state);
    if first.0.phase == Phase::Running {
        lemma_run_to_end(first.0, codes);
        assert(rest.state.completed == first.0.completed + codes.len() - failure_count(codes));
        assert(ended.notices.drop_first() == rest.notices);
        assert(ended.notices == reports(left, exit_codes).push(NoticeView::Completed));
        assert(ended.requests == job_requests(after, state.output_root)) by {
            assert(after[0] == state.files[state.processed as int + 1]);
        }
        if spec_exited_cleanly(exit_codes[0]) {
            assert(state.failed + failed_sources(after, codes) == state.failed + failed_sources(
                left,
                exit_codes,
            ));
        } else {
            assert(state.failed.push(left[0]) + failed_sources(after, codes) == state.failed
                + failed_sources(left, exit_codes));
        }
    } else {
        assert(codes.len() == 0);
        assert(failure_count(codes) == 0);
        assert(rest.state == first.0);
        assert(after.len() == 0);
        assert(rest.notices == Seq::<NoticeView>::empty());
        assert(ended.notices == reports(left, exit_codes).push(NoticeView::Completed));
        assert(ended.requests == job_requests(after, state.output_root));
        assert(failed_sources(after, codes) == Seq::<Seq<char>>::empty());
        reveal_with_fuel(failures_reported, 3);
        reveal_with_fuel(progress_made, 3);
        assert(first.1.notices.drop_first() == done);
        assert(done.drop_first() == Seq::<NoticeView>::empty());
        if spec_exited_cleanly(exit_codes[0]) {
            assert(state.failed + failed_sources(left, exit_codes) == state.failed);
        } else {
            assert(state.failed + failed_sources(left, exit_codes) == state.failed.push(left[0]));
        }
    }
    let failures = failure_count(exit_codes);
    assert(ended.state.wf() && ended.state.phase == Phase::Done);
    assert(ended.state.files == state.files);
    assert(ended.state.completed == state.completed + exit_codes.len() - failures);
    assert(ended.state.failed == state.failed + failed_sources(left, exit_codes));
    assert(ended.state.failed.len() == state.failed.len() + failures);
    assert(ended.notices == reports(left, exit_codes).push(NoticeView::Completed));
    assert(ended.requests == job_requests(left.drop_first(), state.output_root));
    assert(failures_reported(ended.notices) == failures);
    assert(progress_made(ended.notices) == exit_codes.len() - failures);
}

/// A whole batch without a fault. Of `total` files of which `failures`
/// fail, whichever they are, the batch reaches its end with the progress
/// at `total - failures` of `total`, after one run of the encoder for
/// each file, in the order of the walk, and one notice for each failure;
/// the failed sources are on record in the same order. The output
/// directory is asked for first, and only where it was not there. With no
/// file at all, the one thing said is that there is none, and the encoder
/// is never run.
pub proof fn lemma_batch_totals(
    input_root: Seq<char>,
    output_root: Seq<char>,
    output_dir_exists: bool,
    files: Seq<Seq<char>>,
    exit_codes: Seq<Option<i32>>,
)
    requires
        all_named(files),
        exit_codes.len() == files.len(),
    ensures
        ({
            let batch = spec_batch(input_root, output_root, output_dir_exists, files, exit_codes);
            let total = files.len();
            let failures = failure_count(exit_codes);
            let setup = if output_dir_exists {
                seq![RequestView::Discover { root: input_root }]
            } else {
                seq![
                    RequestView::CreateOutputDir { path: output_root },
                    RequestView::Discover { root: input_root },
                ]
            };
            &&& batch.state.wf()
            &&& batch.state.phase == Phase::Done
            &&& batch.state.processed == total
            &&& failures <= total
            &&& batch.state.completed == total - failures
            &&& batch.state.failed == failed_sources(files, exit_codes)
            &&& batch.state.failed.len() == failures
            &&& batch.requests == setup + job_requests(files, output_root)
            &&& failures_reported(batch.notices) == failures
            &&& progress_made(batch.notices) == total - failures
            &&& total > 0 ==> batch.state.files == files && batch.notices == seq![
                NoticeView::ProgressStarted { total },
            ] + reports(files, exit_codes).push(NoticeView::Completed)
            &&& total == 0 ==> batch.notices == seq![NoticeView::NoFilesFound]
        }),
{
    let begun = spec_start(input_root, output_root, output_dir_exists);
    let ready = spec_step(begun.0, EventView::OutputDirCreated);
    let found = spec_step(ready.0, EventView::Discovered { files });
    let ended = spec_run(found.0, exit_codes);
    let batch = spec_batch(input_root, output_root, output_dir_exists, files, exit_codes);
    let setup = requests_of(begun.1) + requests_of(ready.1);
    reveal_with_fuel(failures_reported, 2);
    reveal_with_fuel(progress_made, 2);
    if files.len() == 0 {
        assert(exit_codes.len() == 0);
        assert(batch.notices == seq![NoticeView::NoFilesFound]);
        assert(batch.notices.drop_first() == Seq::<NoticeView>::empty());
        assert(batch.requests == setup + job_requests(files, output_root));
    } else {
        assert(files.skip(0) == files);
        assert(Seq::<Seq<char>>::empty() + failed_sources(files, exit_codes) == failed_sources(
            files,
            exit_codes,
        ));
        lemma_run_to_end(found.0, exit_codes);
        assert(batch.notices == found.1.notices + ended.notices);
        assert(batch.notices.drop_first() == ended.notices);
        assert(batch.requests == setup + job_requests(files, output_root)) by {
            assert(requests_of(found.1) + ended.requests == job_requests(files, output_root));
        }
    }
}

/// A batch without files: once the output directory is there, the walk is
/// answered with the word that there is no file and with nothing else.
/// The encoder is never asked for, no progress starts, and the batch is
/// over, whatever it is told afterwards.
pub proof fn lemma_empty_batch(
    input_root: Seq<char>,
    output_root: Seq<char>,
    output_dir_exists: bool,
    later: EventView,
)
    requires
        event_valid(later),
    ensures
        ({
            let none = Seq::<Seq<char>>::empty();
            let batch = spec_batch(
                input_root,
                output_root,
                output_dir_exists,
                none,
                Seq::<Option<i32>>::empty(),
            );
            &&& batch.notices == seq![NoticeView::NoFilesFound]
            &&& forall|i: int| 0 <= i < batch.requests.len() ==> !(#[trigger] batch.requests[i]
                is RunJob)
            &&& batch.state.phase == Phase::Done
            &&& batch.state.processed == 0 && batch.state.completed == 0
            &&& batch.state.files == none
            &&& spec_step(batch.state, later) == (batch.state, idle())
        }),
{
    let none = Seq::<Seq<char>>::empty();
    lemma_batch_totals(
        input_root,
        output_root,
        output_dir_exists,
        none,
        Seq::<Option<i32>>::empty(),
    );
    assert(job_requests(none, output_root) == Seq::<RequestView>::empty());
}

/// An output directory that is there is never asked for: a batch started
/// on it goes straight to the walk, as often as it is started, and it
/// starts in the state in which the creation would have left it.
pub proof fn lemma_existing_output_dir_untouched(input_root: Seq<char>, output_root: Seq<char>)
    ensures
        spec_start(input_root, output_root, true).1.request == Some(
            RequestView::Discover { root: input_root },
        ),
        spec_start(input_root, output_root, false).1.request == Some(
            RequestView::CreateOutputDir { path: output_root },
        ),
        spec_step(spec_start(input_root, output_root, false).0, EventView::OutputDirCreated)
            == spec_start(input_root, output_root, true),
        spec_step(spec_start(input_root, output_root, true).0, EventView::OutputDirCreated) == (
            spec_start(input_root, output_root, true).0,
            idle(),
        ),
{
}

/// The driver of one batch.
pub struct BatchDriver {
    phase: Phase,
    input_root: String,
    output_root: String,
    output_dir_ready: bool,
    files: Vec<String>,
    processed: usize,
    completed: usize,
    failed: Vec<String>,
    fault: Option<Fault>,
}

impl View for BatchDriver {
    type V = DriverState;

    closed spec fn view(&self) -> DriverState {
        DriverState {
            phase: self.phase,
            input_root: self.input_root@,
            output_root: self.output_root@,
            output_dir_ready: self.output_dir_ready,
            files: texts(self.files@),
            processed: self.processed as nat,
            completed: self.completed as nat,
            failed: texts(self.failed@),
            fault: self.fault,
        }
    }
}

/// What a batch has come to.
#[derive(Clone, Debug, PartialEq, Eq)]
pub struct BatchResult {
    /// How many jobs have ended.
    pub processed: usize,
    /// How many of them succeeded.
    pub completed: usize,
    /// How many files the batch has.
    pub total: usize,
    /// The sources of the jobs that failed, in the order of the batch.
    pub failed: Vec<String>,
}

/// Whether every one of `files` has a file name, and so may be handed to a
/// driver as the files of a walk.
pub fn have_file_names(files: &Vec<String>) -> (named: bool)
    ensures
        named == all_named(texts(files@)),
{
    for i in 0..files.len()
        invariant
            all_named(texts(files@).take(i as int)),
    {
        if file_name(files[i].as_str()).is_none() {
            assert(texts(files@)[i as int] == files@[i as int]@);
            return false;
        }
        assert forall|j: int| 0 <= j < i + 1 implies spec_file_name(
            #[trigger] texts(files@).take(i + 1)[j],
        ) is Some by {
            if j < i {
                assert(texts(files@).take(i + 1)[j] == texts(files@).take(i as int)[j]);
            }
        }
    }
    assert(texts(files@).take(files.len() as int) == texts(files@));
    true
}

impl BatchDriver {
    /// What holds of every driver.
    pub open spec fn wf(&self) -> bool {
        self@.wf()
    }

    /// A driver for the batch from `input_root` to `output_root`, and what
    /// to do first.
    ///
    /// Where `output_dir_exists` says that the output directory is not
    /// there, the first request is to create it; where it is there, it is
    /// left alone and the first request is the walk of the input directory.
    pub fn start(input_root: &str, output_root: &str, output_dir_exists: bool) -> (started: (
        BatchDriver,
        Step,
    ))
        ensures
            started.0.wf(),
            started.0@ == spec_start(input_root@, output_root@, output_dir_exists).0,
            started.1@ == spec_start(input_root@, output_root@, output_dir_exists).1,
    {
        let driver = BatchDriver {
            phase: Phase::Init,
            input_root: String::from_str(input_root),
            output_root: String::from_str(output_root),
            output_dir_ready: output_dir_exists,
            files: Vec::new(),
            processed: 0,
            completed: 0,
            failed: Vec::new(),
            fault: None,
        };
        let request = if output_dir_exists {
            Request::Discover { root: String::from_str(input_root) }
        } else {
            Request::CreateOutputDir { path: String::from_str(output_root) }
        };
        let step = Step { notices: Vec::new(), request: Some(request) };
        proof {
            assert(texts(driver.files@) =~= Seq::empty());
            assert(texts(driver.failed@) =~= Seq::empty());
            assert(notice_views(step.notices@) =~= Seq::empty());
        }
        (driver, step)
    }

    /// Where the batch stands.
    pub fn phase(&self) -> (phase: Phase)
        ensures
            phase == self@.phase,
    {
        self.phase
    }

    /// What has ended the batch before its time, if anything has.
    pub fn fault(&self) -> (fault: Option<Fault>)
        ensures
            fault == self@.fault,
    {
        self.fault
    }

    /// What the batch has come to so far: the final result once the phase
    /// is `Done`.
    pub fn result(&self) -> (result: BatchResult)
        requires
            self.wf(),
        ensures
            result.processed == self@.processed,
            result.completed == self@.completed,
            result.total == self@.files.len(),
            texts(result.failed@) == self@.failed,
            result.completed + result.failed.len() == result.processed <= result.total,
    {
        BatchResult {
            processed: self.processed,
            completed: self.completed,
            total: self.files.len(),
            failed: self.failed.clone(),
        }
    }

    /// The job of the file at `index`.
    fn job_at(&self, index: usize) -> (job: JobDescriptor)
        requires
            self.wf(),
            index < self@.files.len(),
        ensures
            job@ == self@.job(index as int),
    {
        assert(self@.files[index as int] == self.files@[index as int]@);
        match JobDescriptor::new(self.files[index].as_str(), self.output_root.as_str()) {
            Some(job) => job,
            None => vstd::pervasive::unreached(),
        }
    }

    /// The step that says nothing and asks for nothing.
    fn idle_step() -> (step: Step)
        ensures
            step@ == idle(),
    {
        let step = Step { notices: Vec::new(), request: None };
        assert(notice_views(step.notices@) =~= Seq::empty());
        step
    }

    /// Takes `event` in and answers it.
    ///
    /// At the start the driver waits for the output directory, if it has
    /// asked for it, and then for the files of the walk. With no files
    /// the batch is over, with a notice. Else the progress indicator
    /// starts at their number and the first job is asked for. Each
    /// `JobExited` counts the running job, as progress when the exit code
    /// is zero and as a failure with a notice otherwise; the next job
    /// follows, or the end of the batch after the last one, whatever has
    /// failed. `Failed` ends a batch that is under way at once. Any other
    /// event is ignored.
    pub fn step(self, event: Event) -> (stepped: (BatchDriver, Step))
        requires
            self.wf(),
            event_valid(event@),
        ensures
            stepped.0.wf(),
            stepped.0@ == spec_step(self@, event@).0,
            stepped.1@ == spec_step(self@, event@).1,
    {
        let ghost before = self@;
        match event {
            Event::OutputDirCreated => {
                if self.phase != Phase::Init || self.output_dir_ready {
                    return (self, Self::idle_step());
                }
                let request = Request::Discover { root: self.input_root.clone() };
                let next = BatchDriver { output_dir_ready: true, ..self };
                let step = Step { notices: Vec::new(), request: Some(request) };
                assert(notice_views(step.notices@) =~= Seq::empty());
                (next, step)
            },
            Event::Discovered { files } => {
                if self.phase != Phase::Init || !self.output_dir_ready {
                    return (self, Self::idle_step());
                }
                let mut notices: Vec<Notice> = Vec::new();
                if files.len() == 0 {
                    let next = BatchDriver { phase: Phase::Done, ..self };
                    notices.push(Notice::NoFilesFound);
                    assert(notice_views(notices@) =~= seq![NoticeView::NoFilesFound]);
                    return (next, Step { notices, request: None });
                }
                let total = files.len();
                let next = BatchDriver { phase: Phase::Running, files, ..self };
                let job = next.job_at(0);
                notices.push(Notice::ProgressStarted { total });
                assert(notice_views(notices@) =~= spec_discovered(before, next@.files).1.notices);
                (next, Step { notices, request: Some(Request::RunJob { job }) })
            },
            Event::JobExited { exit_code } => {
                if self.phase != Phase::Running {
                    return (self, Self::idle_step());
                }
                let BatchDriver {
                    phase,
                    input_root,
                    output_root,
                    output_dir_ready,
                    files,
                    processed,
                    completed,
                    failed,
                    fault,
                } = self;
                let mut completed = completed;
                let mut failed = failed;
                let mut notices: Vec<Notice> = Vec::new();
                assert(before.files.len() == files.len());
                assert(before.processed == processed && before.completed == completed);
                assert(before.failed == texts(failed@));
                assert(before.files[processed as int] == files@[processed as int]@);
                match JobOutcome::from_exit(files[processed].as_str(), exit_code) {
                    JobOutcome::Success => {
                        completed = completed + 1;
                        notices.push(Notice::ProgressAdvanced);
                    },
                    JobOutcome::Failure { source_path } => {
                        let ghost failed_before = failed@;
                        notices.push(Notice::JobFailed { source_path: source_path.clone() });
                        failed.push(source_path);
                        assert(texts(failed@) =~= texts(failed_before).push(
                            before.files[processed as int],
                        ));
                    },
                }
                let processed = processed + 1;
                let last = processed == files.len();
                let next = BatchDriver {
                    phase: if last {
                        Phase::Done
                    } else {
                        Phase::Running
                    },
                    input_root,
                    output_root,
                    output_dir_ready,
                    files,
                    processed,
                    completed,
                    failed,
                    fault,
                };
                assert(next@ == spec_job_exited(before, exit_code).0);
                let request = if last {
                    notices.push(Notice::Completed);
                    None
                } else {
                    Some(Request::RunJob { job: next.job_at(processed) })
                };
                assert(notice_views(notices@) =~= spec_job_exited(before, exit_code).1.notices);
                (next, Step { notices, request })
            },
            Event::Failed { fault } => {
                if self.phase != Phase::Init && self.phase != Phase::Running {
                    return (self, Self::idle_step());
                }
                let next = BatchDriver { phase: Phase::Aborted, fault: Some(fault), ..self };
                (next, Self::idle_step())
            },
        }
    }
}

} // verus!
