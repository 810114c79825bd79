use screencast::ffmpeg::Stream;
use screencast::runner::{Progress, Status};
use screencast::service::{
    capture_file, capture_started, compressed_file, compression_finished, compression_started,
    start, stop, LifecycleError, RecordingOptions, RecordingState,
};

fn started(process_id: u32, file: &str) -> RecordingState {
    RecordingState::Started { progress: None, process_id, file: String::from(file) }
}

fn stopping(process_id: u32, file: &str) -> RecordingState {
    RecordingState::Stopping { process_id, file: String::from(file) }
}

fn compressing(process_id: u32, input: &str, output: &str) -> RecordingState {
    RecordingState::Compressing {
        process_id,
        input: String::from(input),
        output: String::from(output),
    }
}

fn done(file: &str) -> RecordingState {
    RecordingState::Done { file: String::from(file) }
}

const SILENT: RecordingOptions = RecordingOptions { audio: false };

const SOUND: RecordingOptions = RecordingOptions { audio: true };

#[test]
fn options_default_to_no_sound() {
    assert_eq!(RecordingOptions::default(), SILENT);
}

#[test]
fn names_the_capture_by_directory_and_stamp() {
    assert_eq!(capture_file("/home/u/Videos", "2024-05-01T10-30"), "/home/u/Videos/2024-05-01T10-30.mp4");
    assert_eq!(capture_file("", ""), "/.mp4");
    assert_eq!(capture_file("v/", "s"), "v//s.mp4");
}

#[test]
fn names_the_compressed_file_by_its_extension() {
    assert_eq!(compressed_file("a.mp4"), "a.compressed.mp4");
    assert_eq!(compressed_file("/v/2024-05-01T10-30.mp4"), "/v/2024-05-01T10-30.compressed.mp4");
    assert_eq!(compressed_file(".mp4"), ".compressed.mp4");
    assert_eq!(compressed_file("a.compressed.mp4"), "a.compressed.compressed.mp4");
    assert_eq!(compressed_file("\u{e9}.mp4"), "\u{e9}.compressed.mp4");
}

#[test]
fn replaces_the_extension_only() {
    assert_eq!(compressed_file("a.mp4.mp4"), "a.mp4.compressed.mp4");
    assert_eq!(compressed_file("/my.mp4s/a.mp4"), "/my.mp4s/a.compressed.mp4");
}

#[test]
fn leaves_a_name_without_the_extension() {
    assert_eq!(compressed_file("a.mkv"), "a.mkv");
    assert_eq!(compressed_file("a.mp4 "), "a.mp4 ");
    assert_eq!(compressed_file("a.MP4"), "a.MP4");
    assert_eq!(compressed_file("mp4"), "mp4");
    assert_eq!(compressed_file("a.mp4/b"), "a.mp4/b");
    assert_eq!(compressed_file(""), "");
}

#[test]
fn start_is_accepted_when_waiting() {
    let plan = start(&RecordingState::Waiting, &SILENT, "/v", "s").unwrap();
    assert_eq!(plan.file, "/v/s.mp4");
}

#[test]
fn start_is_accepted_when_done() {
    let plan = start(&done("/v/old.compressed.mp4"), &SILENT, "/v", "new").unwrap();
    assert_eq!(plan.file, "/v/new.mp4");
}

#[test]
fn start_is_refused_while_recording() {
    for state in [started(7, "/v/a.mp4"), stopping(7, "/v/a.mp4"), compressing(8, "/v/a.mp4", "/v/a.compressed.mp4")] {
        assert_eq!(start(&state, &SILENT, "/v", "s"), Err(LifecycleError::NotReadyToStart));
        assert_eq!(start(&state, &SOUND, "/v", "s"), Err(LifecycleError::NotReadyToStart));
    }
}

#[test]
fn plans_a_capture_of_the_screen() {
    let plan = start(&RecordingState::Waiting, &SILENT, "/v", "s").unwrap();
    assert_eq!(plan.command.stderr, Stream::Piped);
    assert_eq!(
        plan.command.to_args(),
        vec![
            "-f",
            "x11grab",
            "-video_size",
            "1920x1080",
            "-framerate",
            "25",
            "-i",
            ":1.0",
            "-preset",
            "ultrafast",
            "-qp",
            "0",
            "-pix_fmt",
            "yuv444p",
            "/v/s.mp4",
        ]
    );
}

#[test]
fn plans_a_capture_with_sound() {
    let plan = start(&RecordingState::Waiting, &SOUND, "/v", "s").unwrap();
    assert_eq!(
        plan.command.to_args(),
        vec![
            "-f",
            "x11grab",
            "-video_size",
            "1920x1080",
            "-framerate",
            "25",
            "-i",
            ":1.0",
            "-f",
            "pulse",
            "-ac",
            "2",
            "-i",
            "default",
            "-preset",
            "ultrafast",
            "-qp",
            "0",
            "-pix_fmt",
            "yuv444p",
            "/v/s.mp4",
        ]
    );
}

#[test]
fn the_progress_option_stands_before_the_output() {
    let plan = start(&RecordingState::Waiting, &SILENT, "/v", "s").unwrap();
    let args = plan.command.report_progress_to(5000).to_args();
    let n = args.len();
    assert_eq!(args[n - 3..], ["-progress", "tcp://127.0.0.1:5000", "/v/s.mp4"]);
    assert_eq!(args[n - 5..n - 3], ["-pix_fmt", "yuv444p"]);
}

#[test]
fn a_running_capture_is_recorded() {
    let mut state = RecordingState::Waiting;
    capture_started(&mut state, 4242, "/v/s.mp4");
    assert_eq!(state, started(4242, "/v/s.mp4"));
    let mut state = done("/v/old.compressed.mp4");
    capture_started(&mut state, 1, "/v/s.mp4");
    assert_eq!(state, started(1, "/v/s.mp4"));
}

#[test]
fn the_process_id_zero_is_not_recorded() {
    let mut state = RecordingState::Waiting;
    capture_started(&mut state, 0, "/v/s.mp4");
    assert_eq!(state, RecordingState::Waiting);
    let mut state = done("/v/old.compressed.mp4");
    capture_started(&mut state, 0, "/v/s.mp4");
    assert_eq!(state, done("/v/old.compressed.mp4"));
}

#[test]
fn stop_is_refused_unless_started() {
    for state in [
        RecordingState::Waiting,
        stopping(7, "/v/a.mp4"),
        compressing(8, "/v/a.mp4", "/v/a.compressed.mp4"),
        done("/v/a.compressed.mp4"),
    ] {
        let mut current = match &state {
            RecordingState::Waiting => RecordingState::Waiting,
            RecordingState::Stopping { process_id, file } => stopping(*process_id, file),
            RecordingState::Compressing { process_id, input, output } => {
                compressing(*process_id, input, output)
            }
            RecordingState::Done { file } => done(file),
            RecordingState::Started { .. } => unreachable!(),
        };
        assert_eq!(stop(&mut current), Err(LifecycleError::NotStarted));
        assert_eq!(current, state);
    }
}

#[test]
fn stop_plans_the_compression() {
    let mut state = started(4242, "/v/s.mp4");
    let plan = stop(&mut state).unwrap();
    assert_eq!(state, stopping(4242, "/v/s.mp4"));
    assert_eq!(plan.process_id, 4242);
    assert_eq!(plan.input, "/v/s.mp4");
    assert_eq!(plan.output, "/v/s.compressed.mp4");
    assert_eq!(plan.command.stderr, Stream::Piped);
    assert_eq!(
        plan.command.to_args(),
        vec!["-i", "/v/s.mp4", "-vcodec", "libx264", "-crf", "20", "/v/s.compressed.mp4"]
    );
    assert_eq!(
        plan.command.report_progress_to(6000).to_args(),
        vec![
            "-i",
            "/v/s.mp4",
            "-progress",
            "tcp://127.0.0.1:6000",
            "-vcodec",
            "libx264",
            "-crf",
            "20",
            "/v/s.compressed.mp4",
        ]
    );
}

#[test]
fn stop_forgets_the_progress() {
    let progress = Progress { frame: Some(3), ..Progress::default() };
    let mut state = RecordingState::Started {
        progress: Some(progress),
        process_id: 9,
        file: String::from("a.mp4"),
    };
    assert!(stop(&mut state).is_ok());
    assert_eq!(state, stopping(9, "a.mp4"));
    assert_eq!(stop(&mut state), Err(LifecycleError::NotStarted));
}

#[test]
fn the_compression_is_recorded() {
    let mut state = stopping(4242, "/v/s.mp4");
    compression_started(&mut state, 4300, "/v/s.mp4", "/v/s.compressed.mp4");
    assert_eq!(state, compressing(4300, "/v/s.mp4", "/v/s.compressed.mp4"));
    compression_finished(&mut state, "/v/s.compressed.mp4");
    assert_eq!(state, done("/v/s.compressed.mp4"));
}

#[test]
fn a_second_cycle_ends_in_another_file() {
    let mut state = RecordingState::Waiting;
    let mut files = Vec::new();
    for (stamp, capture, compression) in [("2024-05-01T10-30", 100u32, 101u32), ("2024-05-01T10-31", 200, 201)] {
        let plan = start(&state, &SILENT, "/v", stamp).unwrap();
        capture_started(&mut state, capture, &plan.file);
        assert_eq!(state, started(capture, &plan.file));
        let next = stop(&mut state).unwrap();
        assert_eq!(next.process_id, capture);
        assert_eq!(next.input, plan.file);
        compression_started(&mut state, compression, &next.input, &next.output);
        compression_finished(&mut state, &next.output);
        assert_eq!(state, done(&next.output));
        files.push(next.output);
    }
    assert_eq!(files, vec!["/v/2024-05-01T10-30.compressed.mp4", "/v/2024-05-01T10-31.compressed.mp4"]);
    assert_ne!(files[0], files[1]);
}

#[test]
fn progress_is_kept_while_started_only() {
    let progress = Progress { frame: Some(12), status: Status::Continue, ..Progress::default() };
    let mut state = started(5, "a.mp4");
    state.set_progress(progress);
    assert_eq!(
        state,
        RecordingState::Started { progress: Some(progress), process_id: 5, file: String::from("a.mp4") }
    );
    let later = Progress { frame: Some(13), ..Progress::default() };
    state.set_progress(later);
    assert_eq!(
        state,
        RecordingState::Started { progress: Some(later), process_id: 5, file: String::from("a.mp4") }
    );
    let mut state = RecordingState::Waiting;
    state.set_progress(progress);
    assert_eq!(state, RecordingState::Waiting);
    let mut state = stopping(5, "a.mp4");
    state.set_progress(progress);
    assert_eq!(state, stopping(5, "a.mp4"));
    let mut state = compressing(6, "a.mp4", "a.compressed.mp4");
    state.set_progress(progress);
    assert_eq!(state, compressing(6, "a.mp4", "a.compressed.mp4"));
    let mut state = done("a.compressed.mp4");
    state.set_progress(progress);
    assert_eq!(state, done("a.compressed.mp4"));
}

#[test]
fn refusals_in_words() {
    assert_eq!(LifecycleError::NotReadyToStart.to_string(), "not ready to start");
    assert_eq!(LifecycleError::NotStarted.to_string(), "not started");
}
