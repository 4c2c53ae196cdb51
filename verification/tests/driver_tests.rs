use video_compressor::cleanup::{Cleanup, CleanupEvent, CleanupNotice, CleanupRequest};
use video_compressor::driver::{
    have_file_names, BatchDriver, BatchResult, Event, Fault, Notice, Phase, Request, Step,
};
use video_compressor::job::JobDescriptor;

fn names(files: &[&str]) -> Vec<String> {
    files.iter().map(|f| f.to_string()).collect()
}

fn job(source: &str) -> JobDescriptor {
    JobDescriptor::new(source, "out").unwrap()
}

fn run(source: &str) -> Option<Request> {
    Some(Request::RunJob { job: job(source) })
}

fn nothing() -> Step {
    Step { notices: Vec::new(), request: None }
}

fn failed(source: &str) -> Notice {
    Notice::JobFailed { source_path: source.to_string() }
}

/// A driver that runs the first job of `files`.
fn running(files: &[&str]) -> BatchDriver {
    let (driver, _) = BatchDriver::start("in", "out", true);
    let (driver, _) = driver.step(Event::Discovered { files: names(files) });
    driver
}

/// Drives a batch over `files` to its end. `runner` stands for the
/// encoder: it gives the exit code of each job. Returns the driver, what
/// was asked for and what was said.
fn run_batch(
    files: &[&str],
    output_dir_exists: bool,
    runner: &dyn Fn(&JobDescriptor) -> Option<i32>,
) -> (BatchDriver, Vec<Request>, Vec<Notice>) {
    let (mut driver, mut step) = BatchDriver::start("in", "out", output_dir_exists);
    let mut asked = Vec::new();
    let mut said = Vec::new();
    loop {
        said.extend(step.notices);
        let request = match step.request {
            Some(request) => request,
            None => break,
        };
        asked.push(request.clone());
        let event = match request {
            Request::CreateOutputDir { .. } => Event::OutputDirCreated,
            Request::Discover { .. } => Event::Discovered { files: names(files) },
            Request::RunJob { job } => Event::JobExited { exit_code: runner(&job) },
        };
        let (next, answer) = driver.step(event);
        driver = next;
        step = answer;
    }
    (driver, asked, said)
}

fn runs(asked: &[Request]) -> Vec<String> {
    let mut sources = Vec::new();
    for request in asked {
        if let Request::RunJob { job } = request {
            sources.push(job.source_path.clone());
        }
    }
    sources
}

fn count(said: &[Notice], kind: &dyn Fn(&Notice) -> bool) -> usize {
    said.iter().filter(|n| kind(n)).count()
}

fn is_failure(notice: &Notice) -> bool {
    matches!(notice, Notice::JobFailed { .. })
}

fn is_progress(notice: &Notice) -> bool {
    matches!(notice, Notice::ProgressAdvanced)
}

#[test]
fn start_asks_for_a_missing_output_directory_first() {
    let (driver, step) = BatchDriver::start("in", "out", false);
    assert_eq!(
        step,
        Step {
            notices: Vec::new(),
            request: Some(Request::CreateOutputDir { path: "out".to_string() }),
        }
    );
    assert_eq!(driver.phase(), Phase::Init);
    let (driver, step) = driver.step(Event::OutputDirCreated);
    assert_eq!(
        step,
        Step { notices: Vec::new(), request: Some(Request::Discover { root: "in".to_string() }) }
    );
    assert_eq!(driver.phase(), Phase::Init);
}

#[test]
fn start_leaves_an_existing_output_directory_alone() {
    let (driver, step) = BatchDriver::start("in", "out", true);
    assert_eq!(
        step,
        Step { notices: Vec::new(), request: Some(Request::Discover { root: "in".to_string() }) }
    );
    assert_eq!(driver.phase(), Phase::Init);
}

#[test]
fn second_start_on_the_created_directory_asks_for_no_creation() {
    let (_, asked, _) = run_batch(&["in/a.mp4"], false, &|_| Some(0));
    assert!(matches!(asked[0], Request::CreateOutputDir { .. }));
    let (second_driver, second, second_said) = run_batch(&["in/a.mp4"], true, &|_| Some(0));
    assert!(!second.iter().any(|r| matches!(r, Request::CreateOutputDir { .. })));
    let (third_driver, third, third_said) = run_batch(&["in/a.mp4"], true, &|_| Some(0));
    assert_eq!(second, third);
    assert_eq!(second_said, third_said);
    assert_eq!(second_driver.result(), third_driver.result());
}

#[test]
fn output_directory_is_asked_for_at_most_once() {
    let (_, asked, _) = run_batch(&["in/a", "in/b", "in/c"], false, &|_| Some(1));
    let creations = asked.iter().filter(|r| matches!(r, Request::CreateOutputDir { .. })).count();
    assert_eq!(creations, 1);
    assert_eq!(asked[0], Request::CreateOutputDir { path: "out".to_string() });
    assert_eq!(asked[1], Request::Discover { root: "in".to_string() });
}

#[test]
fn created_directory_is_news_only_once() {
    let (driver, _) = BatchDriver::start("in", "out", false);
    let (driver, _) = driver.step(Event::OutputDirCreated);
    let (driver, step) = driver.step(Event::OutputDirCreated);
    assert_eq!(step, nothing());
    assert_eq!(driver.phase(), Phase::Init);
}

#[test]
fn files_are_not_taken_before_the_output_directory() {
    let (driver, _) = BatchDriver::start("in", "out", false);
    let (driver, step) = driver.step(Event::Discovered { files: names(&["in/a.mp4"]) });
    assert_eq!(step, nothing());
    assert_eq!(driver.phase(), Phase::Init);
    assert_eq!(driver.result().total, 0);
}

#[test]
fn fresh_driver_has_done_nothing() {
    let (driver, _) = BatchDriver::start("in", "out", true);
    assert_eq!(
        driver.result(),
        BatchResult { processed: 0, completed: 0, total: 0, failed: Vec::new() }
    );
    assert_eq!(driver.fault(), None);
}

#[test]
fn empty_input_reports_no_files_and_runs_nothing() {
    let (driver, asked, said) = run_batch(&[], false, &|_| Some(0));
    assert_eq!(
        asked,
        vec![
            Request::CreateOutputDir { path: "out".to_string() },
            Request::Discover { root: "in".to_string() },
        ]
    );
    assert_eq!(said, vec![Notice::NoFilesFound]);
    assert_eq!(runs(&asked), Vec::<String>::new());
    assert_eq!(driver.phase(), Phase::Done);
    assert_eq!(
        driver.result(),
        BatchResult { processed: 0, completed: 0, total: 0, failed: Vec::new() }
    );
}

#[test]
fn empty_input_starts_no_progress_and_no_completion() {
    let (_, asked, said) = run_batch(&[], true, &|_| Some(0));
    assert_eq!(asked, vec![Request::Discover { root: "in".to_string() }]);
    assert_eq!(said, vec![Notice::NoFilesFound]);
}

#[test]
fn discovered_files_start_progress_and_first_job() {
    let (driver, _) = BatchDriver::start("in", "out", true);
    let (driver, step) = driver.step(Event::Discovered { files: names(&["in/a.mp4", "in/b.mov"]) });
    assert_eq!(
        step,
        Step { notices: vec![Notice::ProgressStarted { total: 2 }], request: run("in/a.mp4") }
    );
    assert_eq!(driver.phase(), Phase::Running);
    assert_eq!(driver.result().total, 2);
    assert_eq!(driver.result().processed, 0);
}

#[test]
fn success_advances_progress_and_runs_next() {
    let (driver, step) = running(&["in/a.mp4", "in/b.mov"]).step(Event::JobExited { exit_code: Some(0) });
    assert_eq!(step, Step { notices: vec![Notice::ProgressAdvanced], request: run("in/b.mov") });
    assert_eq!(driver.phase(), Phase::Running);
    assert_eq!(
        driver.result(),
        BatchResult { processed: 1, completed: 1, total: 2, failed: Vec::new() }
    );
}

#[test]
fn failure_is_reported_and_the_batch_goes_on() {
    let (driver, step) = running(&["in/a.mp4", "in/b.mov"]).step(Event::JobExited { exit_code: Some(1) });
    assert_eq!(step, Step { notices: vec![failed("in/a.mp4")], request: run("in/b.mov") });
    assert_eq!(driver.phase(), Phase::Running);
    assert_eq!(
        driver.result(),
        BatchResult { processed: 1, completed: 0, total: 2, failed: names(&["in/a.mp4"]) }
    );
}

#[test]
fn encoder_stopped_by_signal_is_a_failure() {
    let (driver, step) = running(&["in/a.mp4"]).step(Event::JobExited { exit_code: None });
    assert_eq!(step, Step { notices: vec![failed("in/a.mp4"), Notice::Completed], request: None });
    assert_eq!(driver.phase(), Phase::Done);
}

#[test]
fn last_job_completes_the_batch() {
    let (driver, step) = running(&["in/a.mp4"]).step(Event::JobExited { exit_code: Some(0) });
    assert_eq!(
        step,
        Step { notices: vec![Notice::ProgressAdvanced, Notice::Completed], request: None }
    );
    assert_eq!(driver.phase(), Phase::Done);
    assert_eq!(
        driver.result(),
        BatchResult { processed: 1, completed: 1, total: 1, failed: Vec::new() }
    );
}

#[test]
fn batch_of_two_successes() {
    let (driver, asked, said) = run_batch(&["in/a.mp4", "in/b.mov"], false, &|_| Some(0));
    assert_eq!(
        asked,
        vec![
            Request::CreateOutputDir { path: "out".to_string() },
            Request::Discover { root: "in".to_string() },
            Request::RunJob { job: job("in/a.mp4") },
            Request::RunJob { job: job("in/b.mov") },
        ]
    );
    assert_eq!(
        said,
        vec![
            Notice::ProgressStarted { total: 2 },
            Notice::ProgressAdvanced,
            Notice::ProgressAdvanced,
            Notice::Completed,
        ]
    );
    assert_eq!(driver.phase(), Phase::Done);
    assert_eq!(
        driver.result(),
        BatchResult { processed: 2, completed: 2, total: 2, failed: Vec::new() }
    );
}

#[test]
fn scenario_two_files_then_confirmed_deletion() {
    let (driver, asked, _) = run_batch(&["in/a.mp4", "in/b.mov"], false, &|_| Some(0));
    let mut written = Vec::new();
    for request in &asked {
        if let Request::RunJob { job } = request {
            written.push(job.output_path.clone());
            written.push(job.log_path.clone());
        }
    }
    written.sort();
    assert_eq!(written, vec!["out/a.log", "out/a.mp4", "out/b.log", "out/b.mov"]);
    let result = driver.result();
    assert_eq!((result.completed, result.total), (2, 2));
    assert_eq!(driver.phase(), Phase::Done);

    let (cleanup, step) = Cleanup::open(names(&["in/a.mp4", "in/b.mov"]));
    assert_eq!(step.request, Some(CleanupRequest::Prompt));
    let (cleanup, step) = cleanup.step(CleanupEvent::Answered { answer: "Y".to_string() });
    assert_eq!(step.request, Some(CleanupRequest::Delete { path: "in/a.mp4".to_string() }));
    let (cleanup, step) = cleanup.step(CleanupEvent::Deleted);
    assert_eq!(step.notices, vec![CleanupNotice::Deleted { path: "in/a.mp4".to_string() }]);
    assert_eq!(step.request, Some(CleanupRequest::Delete { path: "in/b.mov".to_string() }));
    let (cleanup, step) = cleanup.step(CleanupEvent::Deleted);
    assert_eq!(
        step.notices,
        vec![CleanupNotice::Deleted { path: "in/b.mov".to_string() }, CleanupNotice::AllDeleted]
    );
    assert_eq!(step.request, None);
    assert_eq!(cleanup.deleted(), 2);
}

#[test]
fn batch_with_failures_counts_only_successes() {
    let files = ["in/a.mp4", "in/b.mov", "in/c.mkv", "in/d.avi", "in/e.webm"];
    let runner = |job: &JobDescriptor| {
        if job.source_path == "in/b.mov" {
            Some(1)
        } else if job.source_path == "in/d.avi" {
            None
        } else {
            Some(0)
        }
    };
    let (driver, asked, said) = run_batch(&files, true, &runner);
    assert_eq!(driver.phase(), Phase::Done);
    assert_eq!(
        driver.result(),
        BatchResult { processed: 5, completed: 3, total: 5, failed: names(&["in/b.mov", "in/d.avi"]) }
    );
    assert_eq!(runs(&asked), names(&files));
    assert_eq!(
        said,
        vec![
            Notice::ProgressStarted { total: 5 },
            Notice::ProgressAdvanced,
            failed("in/b.mov"),
            Notice::ProgressAdvanced,
            failed("in/d.avi"),
            Notice::ProgressAdvanced,
            Notice::Completed,
        ]
    );
}

#[test]
fn batch_where_every_job_fails_still_ends() {
    let files = ["in/a.mp4", "in/b.mov", "in/c.mkv"];
    let (driver, asked, said) = run_batch(&files, true, &|_| Some(2));
    assert_eq!(driver.phase(), Phase::Done);
    assert_eq!(
        driver.result(),
        BatchResult { processed: 3, completed: 0, total: 3, failed: names(&files) }
    );
    assert_eq!(count(&said, &is_progress), 0);
    assert_eq!(count(&said, &is_failure), 3);
    assert_eq!(runs(&asked).len(), 3);
    assert_eq!(said.last(), Some(&Notice::Completed));
}

#[test]
fn batch_counts_for_every_pattern_of_failures() {
    let files = ["in/0", "in/1", "in/2", "in/3"];
    for pattern in 0u32..16 {
        let runner = |job: &JobDescriptor| {
            let index = files.iter().position(|f| *f == job.source_path).unwrap();
            if pattern & (1 << index) != 0 {
                Some(3)
            } else {
                Some(0)
            }
        };
        let failures = pattern.count_ones() as usize;
        let (driver, asked, said) = run_batch(&files, true, &runner);
        let result = driver.result();
        assert_eq!(driver.phase(), Phase::Done);
        assert_eq!(result.total, 4);
        assert_eq!(result.processed, 4);
        assert_eq!(result.completed, 4 - failures);
        assert_eq!(result.failed.len(), failures);
        assert_eq!(count(&said, &is_failure), failures);
        assert_eq!(count(&said, &is_progress), 4 - failures);
        assert_eq!(runs(&asked).len(), 4);
        assert_eq!(said.last(), Some(&Notice::Completed));
        for (index, file) in files.iter().enumerate() {
            assert_eq!(result.failed.contains(&file.to_string()), pattern & (1 << index) != 0);
        }
    }
}

#[test]
fn batch_runs_files_in_the_order_of_the_walk() {
    let files = ["in/z.mp4", "in/a.mp4", "in/sub/m.mp4"];
    let (_, asked, _) = run_batch(&files, true, &|_| Some(0));
    assert_eq!(runs(&asked), names(&files));
}

#[test]
fn batch_keeps_its_total_while_it_runs() {
    let mut driver = running(&["in/a", "in/b", "in/c"]);
    for code in [Some(0), Some(1), Some(0)] {
        assert_eq!(driver.result().total, 3);
        let (next, _) = driver.step(Event::JobExited { exit_code: code });
        driver = next;
    }
    assert_eq!(driver.result().total, 3);
}

#[test]
fn batch_overwrites_outputs_of_equal_names() {
    let (_, asked, _) = run_batch(&["in/one/clip.mp4", "in/two/clip.mp4"], true, &|_| Some(0));
    let mut outputs = Vec::new();
    for request in &asked {
        if let Request::RunJob { job } = request {
            outputs.push(job.output_path.clone());
        }
    }
    assert_eq!(outputs, vec!["out/clip.mp4", "out/clip.mp4"]);
}

#[test]
fn fault_at_the_output_directory_aborts_the_batch() {
    let (driver, _) = BatchDriver::start("in", "out", false);
    let (driver, step) = driver.step(Event::Failed { fault: Fault::OutputDir });
    assert_eq!(step, nothing());
    assert_eq!(driver.phase(), Phase::Aborted);
    assert_eq!(driver.fault(), Some(Fault::OutputDir));
}

#[test]
fn encoder_that_does_not_start_aborts_the_batch() {
    let driver = running(&["in/a.mp4", "in/b.mov", "in/c.mkv"]);
    let (driver, _) = driver.step(Event::JobExited { exit_code: Some(0) });
    let (driver, step) = driver.step(Event::Failed { fault: Fault::Spawn });
    assert_eq!(step, nothing());
    assert_eq!(driver.phase(), Phase::Aborted);
    assert_eq!(driver.fault(), Some(Fault::Spawn));
    assert_eq!(
        driver.result(),
        BatchResult { processed: 1, completed: 1, total: 3, failed: Vec::new() }
    );
}

#[test]
fn log_that_cannot_be_created_aborts_the_batch() {
    let (driver, step) = running(&["in/a.mp4"]).step(Event::Failed { fault: Fault::LogFile });
    assert_eq!(step, nothing());
    assert_eq!(driver.phase(), Phase::Aborted);
    assert_eq!(driver.fault(), Some(Fault::LogFile));
}

#[test]
fn aborted_batch_ignores_every_event() {
    let (driver, _) = running(&["in/a.mp4", "in/b.mov"]).step(Event::Failed { fault: Fault::Spawn });
    let before = driver.result();
    let (driver, step) = driver.step(Event::JobExited { exit_code: Some(0) });
    assert_eq!(step, nothing());
    let (driver, step) = driver.step(Event::Failed { fault: Fault::LogFile });
    assert_eq!(step, nothing());
    let (driver, step) = driver.step(Event::OutputDirCreated);
    assert_eq!(step, nothing());
    assert_eq!(driver.phase(), Phase::Aborted);
    assert_eq!(driver.fault(), Some(Fault::Spawn));
    assert_eq!(driver.result(), before);
}

#[test]
fn failed_job_is_no_fault() {
    let (driver, _, _) = run_batch(&["in/a.mp4"], true, &|_| Some(1));
    assert_eq!(driver.phase(), Phase::Done);
    assert_eq!(driver.fault(), None);
}

#[test]
fn second_discovery_is_ignored() {
    let driver = running(&["in/a.mp4"]);
    let before = driver.result();
    let (driver, step) = driver.step(Event::Discovered { files: names(&["in/x", "in/y"]) });
    assert_eq!(step, nothing());
    assert_eq!(driver.result(), before);
    assert_eq!(driver.phase(), Phase::Running);
}

#[test]
fn exit_before_any_job_is_ignored() {
    let (driver, _) = BatchDriver::start("in", "out", true);
    let (driver, step) = driver.step(Event::JobExited { exit_code: Some(0) });
    assert_eq!(step, nothing());
    assert_eq!(driver.phase(), Phase::Init);
    assert_eq!(driver.result().processed, 0);
}

#[test]
fn finished_batch_ignores_every_event() {
    let (driver, _, _) = run_batch(&["in/a.mp4"], true, &|_| Some(0));
    let before = driver.result();
    let (driver, step) = driver.step(Event::JobExited { exit_code: Some(1) });
    assert_eq!(step, nothing());
    let (driver, step) = driver.step(Event::Discovered { files: names(&["in/b.mov"]) });
    assert_eq!(step, nothing());
    let (driver, step) = driver.step(Event::Failed { fault: Fault::Spawn });
    assert_eq!(step, nothing());
    assert_eq!(driver.phase(), Phase::Done);
    assert_eq!(driver.fault(), None);
    assert_eq!(driver.result(), before);
}

#[test]
fn file_names_are_checked_before_a_walk_is_handed_over() {
    assert!(have_file_names(&Vec::new()));
    assert!(have_file_names(&names(&["in/a.mp4", "b", "/c/d/"])));
    assert!(!have_file_names(&names(&["in/a.mp4", "in/.."])));
    assert!(!have_file_names(&names(&["/"])));
    assert!(!have_file_names(&names(&["in/a.mp4", ""])));
}
