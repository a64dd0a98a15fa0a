use split_rush::{
    conclude, observe, output_path, plan_splits, read_split_info, split_command, split_file_name, transcode_args,
    verdict, video_path, Progress, SplitError, SplitInfo, TaskOutcome, Tally, TRANSCODER,
};

fn info(number: u64, start: &str, end: &str) -> SplitInfo {
    SplitInfo { number, start: start.to_string(), end: end.to_string() }
}

#[test]
fn segment_name_is_zero_padded() {
    assert_eq!(split_file_name("movie", "mp4", 3), "movie_split_0003.mp4");
    assert_eq!(split_file_name("movie", "mp4", 0), "movie_split_0000.mp4");
    assert_eq!(split_file_name("movie", "mkv", 1234), "movie_split_1234.mkv");
    assert_eq!(split_file_name("clip", "ts", 98765), "clip_split_98765.ts");
}

#[test]
fn output_path_keeps_directory_and_extension() {
    assert_eq!(output_path("/tmp/movie.mp4", 7).unwrap(), "/tmp/movie_split_0007.mp4");
    assert_eq!(output_path("movie.mp4", 3).unwrap(), "movie_split_0003.mp4");
}

#[test]
fn output_path_needs_extension() {
    assert_eq!(output_path("movie", 1), Err(SplitError::BadFilename));
}

#[test]
fn inferred_video_is_info_stem() {
    assert_eq!(video_path("foo.csv", None).unwrap(), "foo");
    assert_eq!(video_path("/data/foo.csv", None).unwrap(), "/data/foo");
}

#[test]
fn given_video_is_kept() {
    assert_eq!(video_path("foo.csv", Some("bar.mkv".to_string())).unwrap(), "bar.mkv");
}

#[test]
fn transcoder_arguments() {
    let args = transcode_args("in.mp4", "00:00:01", "00:00:05", "out.mp4");
    assert_eq!(args, vec!["-i", "in.mp4", "-ss", "00:00:01", "-to", "00:00:05", "-c", "copy", "out.mp4"]);
    assert_eq!(TRANSCODER, "ffmpeg");
}

#[test]
fn split_command_names_output() {
    let args = split_command(&info(2, "1", "2"), "dir/movie.mp4").unwrap();
    assert_eq!(args, vec!["-i", "dir/movie.mp4", "-ss", "1", "-to", "2", "-c", "copy", "dir/movie_split_0002.mp4"]);
}

#[test]
fn one_task_per_data_row() {
    let infos = read_split_info(b"start,end\n0,1\n1,2\n2,3\n3,4\n").unwrap();
    let plan = plan_splits(&infos, "movie.mp4").unwrap();
    assert_eq!(plan.len(), 4);
    assert_eq!(plan[3][8], "movie_split_0004.mp4");
}

#[test]
fn empty_input_succeeds_with_no_tasks() {
    let infos = read_split_info(b"start,end\n").unwrap();
    let plan = plan_splits(&infos, "movie").unwrap();
    assert!(plan.is_empty());
    assert_eq!(verdict(&Vec::new()), Ok(()));
}

#[test]
fn no_extension_launches_nothing() {
    let infos = vec![info(1, "0", "1"), info(2, "1", "2")];
    assert_eq!(plan_splits(&infos, "movie"), Err(SplitError::BadFilename));
}

#[test]
fn one_failed_exit_fails_the_run() {
    let outcomes = vec![
        TaskOutcome::Exited { success: true },
        TaskOutcome::Exited { success: false },
        TaskOutcome::Exited { success: true },
    ];
    assert_eq!(verdict(&outcomes), Err(SplitError::SplitFailed));
}

#[test]
fn all_successful_exits_succeed() {
    let outcomes = vec![TaskOutcome::Exited { success: true }; 3];
    assert_eq!(verdict(&outcomes), Ok(()));
}

#[test]
fn launch_failure_aborts() {
    let outcomes = vec![
        TaskOutcome::Exited { success: false },
        TaskOutcome::LaunchFailed,
        TaskOutcome::Exited { success: true },
    ];
    assert_eq!(verdict(&outcomes), Err(SplitError::LaunchFailure));
}

#[test]
fn observe_and_conclude_step_by_step() {
    let t = Tally::new();
    let t = match observe(t, TaskOutcome::Exited { success: false }) {
        Progress::Pending(next) => next,
        Progress::Aborted(_) => panic!("a failed exit does not abort"),
    };
    assert!(t.failed);
    assert_eq!(observe(t, TaskOutcome::LaunchFailed), Progress::Aborted(SplitError::LaunchFailure));
    assert_eq!(conclude(t), Err(SplitError::SplitFailed));
    assert_eq!(conclude(Tally::new()), Ok(()));
}
