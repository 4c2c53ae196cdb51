use video_compressor::job::{encoder_args, encoder_program, log_extension, JobDescriptor, JobOutcome};

fn job(source: &str, root: &str) -> JobDescriptor {
    JobDescriptor::new(source, root).unwrap()
}

#[test]
fn descriptor_keeps_file_name_under_output_root() {
    let a = job("in/a.mp4", "out");
    assert_eq!(a.source_path, "in/a.mp4");
    assert_eq!(a.output_path, "out/a.mp4");
    assert_eq!(a.log_path, "out/a.log");
    let b = job("in/b.mov", "out");
    assert_eq!(b.output_path, "out/b.mov");
    assert_eq!(b.log_path, "out/b.log");
}

#[test]
fn descriptor_flattens_subdirectories() {
    let deep = job("in/x/y/z/clip.mkv", "/srv/out/");
    assert_eq!(deep.output_path, "/srv/out/clip.mkv");
    assert_eq!(deep.log_path, "/srv/out/clip.log");
}

#[test]
fn descriptor_does_not_tell_equal_names_apart() {
    let first = job("in/one/clip.mp4", "out");
    let second = job("in/two/clip.mp4", "out");
    assert_ne!(first.source_path, second.source_path);
    assert_eq!(first.output_path, second.output_path);
    assert_eq!(first.log_path, second.log_path);
}

#[test]
fn descriptor_of_name_without_extension() {
    let plain = job("in/README", "out");
    assert_eq!(plain.output_path, "out/README");
    assert_eq!(plain.log_path, "out/README.log");
    let hidden = job("in/.profile", "out");
    assert_eq!(hidden.output_path, "out/.profile");
    assert_eq!(hidden.log_path, "out/.profile.log");
}

#[test]
fn descriptor_of_log_source_writes_log_over_output() {
    let log = job("in/notes.log", "out");
    assert_eq!(log.output_path, "out/notes.log");
    assert_eq!(log.log_path, "out/notes.log");
}

#[test]
fn descriptor_with_empty_output_root() {
    let here = job("in/a.mp4", "");
    assert_eq!(here.output_path, "a.mp4");
    assert_eq!(here.log_path, "a.log");
}

#[test]
fn descriptor_is_none_without_file_name() {
    assert_eq!(JobDescriptor::new("", "out"), None);
    assert_eq!(JobDescriptor::new("/", "out"), None);
    assert_eq!(JobDescriptor::new("in/..", "out"), None);
    assert_eq!(JobDescriptor::new(".", "out"), None);
}

#[test]
fn descriptor_is_a_function_of_its_inputs() {
    assert_eq!(job("in/a.mp4", "out"), job("in/a.mp4", "out"));
}

#[test]
fn log_extension_is_log() {
    assert_eq!(log_extension(), "log");
}

#[test]
fn encoder_is_ffmpeg() {
    assert_eq!(encoder_program(), "ffmpeg");
}

#[test]
fn encoder_args_follow_the_template() {
    let args = encoder_args(&job("in/a.mp4", "out"));
    assert_eq!(
        args,
        vec![
            "-i",
            "in/a.mp4",
            "-movflags",
            "use_metadata_tags",
            "-map_metadata",
            "0",
            "-vcodec",
            "hevc_nvenc",
            "-preset",
            "fast",
            "-crf",
            "28",
            "-c:a",
            "copy",
            "out/a.mp4",
        ]
    );
}

#[test]
fn encoder_args_start_with_input_and_end_with_output() {
    let j = job("in/sub/b.mov", "out/");
    let args = encoder_args(&j);
    assert_eq!(args.len(), 15);
    assert_eq!(args[0], "-i");
    assert_eq!(args[1], j.source_path);
    assert_eq!(args[14], j.output_path);
    assert!(!args.contains(&j.log_path));
}

#[test]
fn exit_code_zero_is_success() {
    assert_eq!(JobOutcome::from_exit("in/a.mp4", Some(0)), JobOutcome::Success);
}

#[test]
fn other_exit_codes_are_failures() {
    let failed = JobOutcome::Failure { source_path: "in/a.mp4".to_string() };
    assert_eq!(JobOutcome::from_exit("in/a.mp4", Some(1)), failed);
    assert_eq!(JobOutcome::from_exit("in/a.mp4", Some(-1)), failed);
    assert_eq!(JobOutcome::from_exit("in/a.mp4", Some(255)), failed);
    assert_eq!(JobOutcome::from_exit("in/a.mp4", Some(i32::MIN)), failed);
}

#[test]
fn exit_without_code_is_failure() {
    assert_eq!(
        JobOutcome::from_exit("in/b.mov", None),
        JobOutcome::Failure { source_path: "in/b.mov".to_string() }
    );
}
