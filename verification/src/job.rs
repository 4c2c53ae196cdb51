//! One file of the batch: where its output and its log go, how the encoder
//! is called on it, and what the encoder's exit says of it.

use vstd::prelude::*;

use crate::path::{
    file_name, join, lemma_file_name_of_join, lemma_final_component, lemma_with_extension,
    name_start, spec_extension, spec_file_name, spec_file_stem, spec_join, spec_with_extension,
    with_extension, DOT, SEPARATOR,
};
use crate::text::texts;

verus! {

/// The extension of every log file.
pub open spec fn spec_log_extension() -> Seq<char> {
    seq!['l', 'o', 'g']
}

/// A job as plain text.
pub struct JobView {
    pub source_path: Seq<char>,
    pub output_path: Seq<char>,
    pub log_path: Seq<char>,
}

/// What one run of the encoder reads and writes.
#[derive(Clone, Debug, PartialEq, Eq)]
pub struct JobDescriptor {
    /// The file to encode.
    pub source_path: String,
    /// Where the encoded file goes: the source's file name, in the output
    /// directory.
    pub output_path: String,
    /// Where the encoder's output is kept: beside the encoded file, under
    /// the same stem.
    pub log_path: String,
}

impl View for JobDescriptor {
    type V = JobView;

    open spec fn view(&self) -> JobView {
        JobView {
            source_path: self.source_path@,
            output_path: self.output_path@,
            log_path: self.log_path@,
        }
    }
}

/// The job of the source `source_path` under the output directory
/// `output_root`, where the source has a file name.
pub open spec fn spec_descriptor(source_path: Seq<char>, output_root: Seq<char>) -> Option<
    JobView,
> {
    match spec_file_name(source_path) {
        Some(name) => {
            let output_path = spec_join(output_root, name);
            Some(
                JobView {
                    source_path,
                    output_path,
                    log_path: spec_with_extension(output_path, spec_log_extension()),
                },
            )
        },
        None => None,
    }
}

/// The extension of every log file.
pub fn log_extension() -> (ext: &'static str)
    ensures
        ext@ == spec_log_extension(),
{
    proof {
        reveal_strlit("log");
        assert("log"@ =~= spec_log_extension());
    }
    "log"
}

impl JobDescriptor {
    /// The job of `source_path` under the output directory `output_root`.
    ///
    /// The output keeps the source's file name and stands directly in
    /// `output_root`, whatever directory the source is in: two sources of
    /// one name share one output path. The log stands beside the output,
    /// with the output's extension replaced. `None` when `source_path` has
    /// no file name.
    pub fn new(source_path: &str, output_root: &str) -> (job: Option<JobDescriptor>)
        ensures
            job is Some == spec_descriptor(source_path@, output_root@) is Some,
            job is Some ==> job->0@ == spec_descriptor(source_path@, output_root@)->0,
    {
        match file_name(source_path) {
            Some(name) => {
                let output_path = join(output_root, name);
                let log_path = with_extension(output_path.as_str(), log_extension());
                Some(
                    JobDescriptor { source_path: String::from_str(source_path), output_path, log_path },
                )
            },
            None => None,
        }
    }
}

/// How a job ended.
#[derive(Clone, Debug, PartialEq, Eq)]
pub enum JobOutcome {
    /// The encoder ran to its end and reported no error.
    Success,
    /// The encoder did not: it reported an error, or was stopped.
    Failure {
        /// The source of the failed job.
        source_path: String,
    },
}

/// An outcome as plain text.
pub enum OutcomeView {
    Success,
    Failure { source_path: Seq<char> },
}

impl View for JobOutcome {
    type V = OutcomeView;

    open spec fn view(&self) -> OutcomeView {
        match self {
            JobOutcome::Success => OutcomeView::Success,
            JobOutcome::Failure { source_path } => OutcomeView::Failure {
                source_path: source_path@,
            },
        }
    }
}

/// Whether an exit says that the encoder succeeded: it ended by itself,
/// with the code zero. `None` stands for an encoder that a signal stopped.
pub open spec fn spec_exited_cleanly(exit_code: Option<i32>) -> bool {
    exit_code == Some(0i32)
}

/// The outcome of the job of `source_path`, whose encoder ended with
/// `exit_code`.
pub open spec fn spec_outcome(source_path: Seq<char>, exit_code: Option<i32>) -> OutcomeView {
    if spec_exited_cleanly(exit_code) {
        OutcomeView::Success
    } else {
        OutcomeView::Failure { source_path }
    }
}

impl JobOutcome {
    /// The outcome of the job of `source_path`, whose encoder ended with
    /// `exit_code`: the code with which it exited, or `None` when it ended
    /// without one.
    ///
    /// Only the code zero is a success. A failure names the job's source.
    pub fn from_exit(source_path: &str, exit_code: Option<i32>) -> (outcome: JobOutcome)
        ensures
            outcome@ == spec_outcome(source_path@, exit_code),
    {
        match exit_code {
            Some(0) => JobOutcome::Success,
            _ => JobOutcome::Failure { source_path: String::from_str(source_path) },
        }
    }
}

/// The arguments with which the encoder is called on `job`, in order: the
/// input, the flags that keep the metadata, the video codec, the preset,
/// the quality, the audio stream copied as it is, and the output.
pub open spec fn spec_encoder_args(job: JobView) -> Seq<Seq<char>> {
    seq![
        "-i"@,
        job.source_path,
        "-movflags"@,
        "use_metadata_tags"@,
        "-map_metadata"@,
        "0"@,
        "-vcodec"@,
        "hevc_nvenc"@,
        "-preset"@,
        "fast"@,
        "-crf"@,
        "28"@,
        "-c:a"@,
        "copy"@,
        job.output_path,
    ]
}

/// The program that encodes.
pub fn encoder_program() -> (program: &'static str)
    ensures
        program@ == "ffmpeg"@,
{
    "ffmpeg"
}

/// The arguments with which the encoder is called on `job`, in order.
pub fn encoder_args(job: &JobDescriptor) -> (args: Vec<String>)
    ensures
        texts(args@) == spec_encoder_args(job@),
{
    let mut args: Vec<String> = Vec::new();
    args.push(String::from_str("-i"));
    args.push(job.source_path.clone());
    args.push(String::from_str("-movflags"));
    args.push(String::from_str("use_metadata_tags"));
    args.push(String::from_str("-map_metadata"));
    args.push(String::from_str("0"));
    args.push(String::from_str("-vcodec"));
    args.push(String::from_str("hevc_nvenc"));
    args.push(String::from_str("-preset"));
    args.push(String::from_str("fast"));
    args.push(String::from_str("-crf"));
    args.push(String::from_str("28"));
    args.push(String::from_str("-c:a"));
    args.push(String::from_str("copy"));
    args.push(job.output_path.clone());
    assert(texts(args@) =~= spec_encoder_args(job@));
    args
}

/// Where a job's files go: the output has the source's file name and
/// stands under the output directory, with at most one separator between
/// the two; the log has the output's directory and stem, and the log
/// extension.
pub proof fn lemma_descriptor_layout(source_path: Seq<char>, output_root: Seq<char>)
    requires
        spec_file_name(source_path) is Some,
    ensures
        ({
            let job = spec_descriptor(source_path, output_root)->0;
            let name = spec_file_name(source_path)->0;
            let stem = spec_file_stem(source_path)->0;
            &&& spec_descriptor(source_path, output_root) is Some
            &&& job.source_path == source_path
            &&& spec_file_name(job.output_path) == Some(name)
            &&& output_root.is_prefix_of(job.output_path)
            &&& job.output_path == output_root + name || job.output_path == output_root
                + seq![SEPARATOR] + name
            &&& spec_file_stem(job.log_path) == Some(stem)
            &&& spec_file_stem(job.log_path) == spec_file_stem(job.output_path)
            &&& spec_extension(job.log_path) == Some(spec_log_extension())
            &&& spec_file_name(job.log_path) == Some(stem + seq![DOT] + spec_log_extension())
            &&& name_start(job.log_path) == name_start(job.output_path)
            &&& job.log_path.take(name_start(job.log_path)) == job.output_path.take(
                name_start(job.output_path),
            )
        }),
{
    lemma_final_component(source_path);
    let name = spec_file_name(source_path)->0;
    assert(name[0] != SEPARATOR) by {
        assert(name.contains(name[0]));
    }
    lemma_file_name_of_join(output_root, name);
    let output_path = spec_join(output_root, name);
    let ext = spec_log_extension();
    assert(!ext.contains(SEPARATOR) && !ext.contains(DOT)) by {
        assert forall|j: int| 0 <= j < ext.len() implies ext[j] != SEPARATOR && ext[j] != DOT by {}
    }
    lemma_with_extension(output_path, ext);
}

} // verus!
