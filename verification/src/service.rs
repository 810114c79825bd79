//! The lifecycle of a recording: capture, stop, compression, done. The
//! functions here decide and record each transition; the caller launches the
//! encoder runs that they plan and reports back what came of them.
use vstd::prelude::*;
use vstd::string::{StrSliceExecFns, StringExecFns};
use crate::ffmpeg::{BuilderView, FfmpegBuilder, File, Parameter, ParameterView, Stream};
use crate::runner::Progress;

verus! {

/// Where a recording stands.
#[derive(Debug, PartialEq, Eq)]
pub enum RecordingState {
    /// Nothing runs and nothing was recorded yet.
    Waiting,
    /// The capture runs as process `process_id` and writes `file`.
    Started { progress: Option<Progress>, process_id: u32, file: String },
    /// The capture was told to end and has not exited yet.
    Stopping { process_id: u32, file: String },
    /// The compression runs as process `process_id`.
    Compressing { process_id: u32, input: String, output: String },
    /// The recording is in `file`; another one may start.
    Done { file: String },
}

/// A [`RecordingState`] with its file names as sequences of characters.
pub enum StateView {
    Waiting,
    Started { progress: Option<Progress>, process_id: u32, file: Seq<char> },
    Stopping { process_id: u32, file: Seq<char> },
    Compressing { process_id: u32, input: Seq<char>, output: Seq<char> },
    Done { file: Seq<char> },
}

impl View for RecordingState {
    type V = StateView;

    open spec fn view(&self) -> StateView {
        match self {
            RecordingState::Waiting => StateView::Waiting,
            RecordingState::Started { progress, process_id, file } => StateView::Started {
                progress: *progress,
                process_id: *process_id,
                file: file@,
            },
            RecordingState::Stopping { process_id, file } => StateView::Stopping {
                process_id: *process_id,
                file: file@,
            },
            RecordingState::Compressing { process_id, input, output } => StateView::Compressing {
                process_id: *process_id,
                input: input@,
                output: output@,
            },
            RecordingState::Done { file } => StateView::Done { file: file@ },
        }
    }
}

/// What the caller asks of a capture.
#[derive(Clone, Copy, Debug, PartialEq, Eq)]
pub struct RecordingOptions {
    /// Whether to record sound with the screen.
    pub audio: bool,
}

impl Default for RecordingOptions {
    fn default() -> (o: Self)
        ensures
            o.audio == false,
    {
        RecordingOptions { audio: false }
    }
}

/// Why an operation was refused: the recording was in no state for it.
#[derive(Clone, Copy, Debug, PartialEq, Eq)]
pub enum LifecycleError {
    /// `start` was called while a recording was under way.
    NotReadyToStart,
    /// `stop` was called while no capture was running.
    NotStarted,
}

impl LifecycleError {
    /// The refusal in words.
    pub open spec fn text(self) -> Seq<char> {
        match self {
            LifecycleError::NotReadyToStart => "not ready to start"@,
            LifecycleError::NotStarted => "not started"@,
        }
    }

    /// Writes the refusal in words.
    pub fn to_string(&self) -> (s: String)
        ensures
            s@ == self.text(),
    {
        match self {
            LifecycleError::NotReadyToStart => String::from_str("not ready to start"),
            LifecycleError::NotStarted => String::from_str("not started"),
        }
    }
}

/// The file that a capture writes: in the directory `dir`, named by the
/// time stamp `stamp`.
pub open spec fn capture_path(dir: Seq<char>, stamp: Seq<char>) -> Seq<char> {
    dir + "/"@ + stamp + ".mp4"@
}

/// Whether `s` ends with `suffix`.
pub open spec fn ends_with(s: Seq<char>, suffix: Seq<char>) -> bool {
    s.len() >= suffix.len() && s.skip(s.len() - suffix.len()) == suffix
}

/// The file that the compression of `file` writes: `file` with its
/// extension `.mp4` replaced by `.compressed.mp4`. A name without that
/// extension stays as it is.
pub open spec fn compressed_name(file: Seq<char>) -> Seq<char> {
    if ends_with(file, ".mp4"@) {
        file.take(file.len() - 4) + ".compressed.mp4"@
    } else {
        file
    }
}

/// The options of a capture: the screen as the source; with `audio`, the
/// sound as a second source; then the settings of a lossless, fast encoding.
pub open spec fn capture_options(audio: bool) -> Seq<ParameterView> {
    let screen = seq![
        ParameterView::KeyValue("f"@, "x11grab"@),
        ParameterView::KeyValue("video_size"@, "1920x1080"@),
        ParameterView::KeyValue("framerate"@, "25"@),
        ParameterView::KeyValue("i"@, ":1.0"@),
    ];
    let sound = if audio {
        seq![
            ParameterView::KeyValue("f"@, "pulse"@),
            ParameterView::KeyValue("ac"@, "2"@),
            ParameterView::KeyValue("i"@, "default"@),
        ]
    } else {
        Seq::empty()
    };
    let encoding = seq![
        ParameterView::KeyValue("preset"@, "ultrafast"@),
        ParameterView::KeyValue("qp"@, "0"@),
        ParameterView::KeyValue("pix_fmt"@, "yuv444p"@),
    ];
    screen + sound + encoding
}

/// The encoder run that captures into `out`.
pub open spec fn capture_spec(audio: bool, out: Seq<char>) -> BuilderView {
    BuilderView {
        inputs: Seq::empty(),
        options: capture_options(audio),
        output_options: Seq::empty(),
        outputs: seq![out],
        stderr: Stream::Piped,
    }
}

/// The encoder run that compresses `input` into `output`.
pub open spec fn compression_spec(input: Seq<char>, output: Seq<char>) -> BuilderView {
    BuilderView {
        inputs: seq![input],
        options: Seq::empty(),
        output_options: seq![
            ParameterView::KeyValue("vcodec"@, "libx264"@),
            ParameterView::KeyValue("crf"@, "20"@),
        ],
        outputs: seq![output],
        stderr: Stream::Piped,
    }
}

impl StateView {
    /// Whether a capture may start: nothing runs.
    pub open spec fn ready(self) -> bool {
        self is Waiting || self is Done
    }

    /// The state once the capture into `file` runs as process `process_id`.
    /// A process id of zero names no process and leaves the state as it is.
    pub open spec fn capture_started(self, process_id: u32, file: Seq<char>) -> StateView {
        if process_id > 0 {
            StateView::Started { progress: None, process_id, file }
        } else {
            self
        }
    }

    /// The state with the latest progress record of a running capture.
    pub open spec fn with_progress(self, p: Progress) -> StateView {
        match self {
            StateView::Started { progress, process_id, file } => StateView::Started {
                progress: Some(p),
                process_id,
                file,
            },
            _ => self,
        }
    }

    /// The state once a running capture was told to end.
    pub open spec fn stopping(self) -> StateView {
        match self {
            StateView::Started { progress, process_id, file } => StateView::Stopping {
                process_id,
                file,
            },
            _ => self,
        }
    }
}

fn key_value(key: &str, value: &str) -> (p: Parameter)
    ensures
        p@ == ParameterView::KeyValue(key@, value@),
{
    Parameter::KeyValue(String::from_str(key), String::from_str(value))
}

/// Names the file of a capture.
pub fn capture_file(dir: &str, stamp: &str) -> (file: String)
    ensures
        file@ == capture_path(dir@, stamp@),
{
    let mut file = String::from_str(dir);
    file.append("/");
    file.append(stamp);
    file.append(".mp4");
    file
}

/// Names the file that the compression of `file` writes.
pub fn compressed_file(file: &str) -> (output: String)
    ensures
        output@ == compressed_name(file@),
{
    proof {
        reveal_strlit(".mp4");
    }
    let n = file.unicode_len();
    if n >= 4 && file.get_char(n - 4) == '.' && file.get_char(n - 3) == 'm' && file.get_char(n - 2)
        == 'p' && file.get_char(n - 1) == '4' {
        assert(file@.skip(n - 4) =~= ".mp4"@);
        let mut output = String::from_str(file.substring_char(0, n - 4));
        output.append(".compressed.mp4");
        output
    } else {
        proof {
            if n >= 4 {
                let tail = file@.skip(n - 4);
                assert(tail[0] == file@[n - 4] && tail[1] == file@[n - 3] && tail[2] == file@[n
                    - 2] && tail[3] == file@[n - 1]);
            }
        }
        String::from_str(file)
    }
}

/// What `start` plans: the capture to launch and the file that it writes.
#[derive(Debug, PartialEq, Eq)]
pub struct CapturePlan {
    pub file: String,
    pub command: FfmpegBuilder,
}

/// What `stop` plans: the process to interrupt and to wait for, then the
/// compression to launch, and the files that it reads and writes.
#[derive(Debug, PartialEq, Eq)]
pub struct CompressionPlan {
    pub process_id: u32,
    pub input: String,
    pub output: String,
    pub command: FfmpegBuilder,
}

impl RecordingState {
    /// Whether a capture may start.
    pub fn ready(&self) -> (b: bool)
        ensures
            b == self@.ready(),
    {
        match self {
            RecordingState::Waiting => true,
            RecordingState::Done { .. } => true,
            _ => false,
        }
    }

    /// Records the latest progress of a running capture; in every other
    /// state nothing changes.
    pub fn set_progress(&mut self, p: Progress)
        ensures
            final(self)@ == old(self)@.with_progress(p),
    {
        match self {
            RecordingState::Started { progress, process_id: _, file: _ } => {
                *progress = Some(p);
            },
            _ => {},
        }
    }
}

/// Plans a capture into the directory `video_dir`, named by the time stamp
/// `stamp`. It is refused unless the recording is `Waiting` or `Done`.
pub fn start(state: &RecordingState, opt: &RecordingOptions, video_dir: &str, stamp: &str) -> (r:
    Result<CapturePlan, LifecycleError>)
    ensures
        r is Ok <==> state@.ready(),
        r matches Ok(plan) ==> plan.file@ == capture_path(video_dir@, stamp@) && plan.command@
            == capture_spec(opt.audio, plan.file@),
        r matches Err(e) ==> e == LifecycleError::NotReadyToStart,
{
    if !state.ready() {
        return Err(LifecycleError::NotReadyToStart);
    }
    let file = capture_file(video_dir, stamp);
    let mut builder = FfmpegBuilder::new().stderr(Stream::Piped);
    builder = builder.option(key_value("f", "x11grab")).option(
        key_value("video_size", "1920x1080"),
    ).option(key_value("framerate", "25")).option(key_value("i", ":1.0"));
    if opt.audio {
        builder = builder.option(key_value("f", "pulse")).option(key_value("ac", "2")).option(
            key_value("i", "default"),
        );
    }
    builder = builder.option(key_value("preset", "ultrafast")).option(key_value("qp", "0")).option(
        key_value("pix_fmt", "yuv444p"),
    ).output(File::new(file.as_str()));
    assert(builder@.options =~= capture_options(opt.audio));
    assert(builder@.outputs =~= seq![file@]);
    Ok(CapturePlan { file, command: builder })
}

/// Records that the capture into `file` runs as process `process_id`.
pub fn capture_started(state: &mut RecordingState, process_id: u32, file: &str)
    ensures
        final(state)@ == old(state)@.capture_started(process_id, file@),
{
    if process_id > 0 {
        *state = RecordingState::Started {
            progress: None,
            process_id,
            file: String::from_str(file),
        };
    }
}

/// Ends a running capture: the state becomes `Stopping`, and the plan names
/// the process to interrupt and the compression that follows its exit. It is
/// refused, and the state left as it is, unless the recording is `Started`.
pub fn stop(state: &mut RecordingState) -> (r: Result<CompressionPlan, LifecycleError>)
    ensures
        r is Ok <==> old(state)@ is Started,
        r matches Err(e) ==> e == LifecycleError::NotStarted && final(state)@ == old(state)@,
        r matches Ok(plan) ==> {
            &&& final(state)@ == old(state)@.stopping()
            &&& old(state)@ matches StateView::Started { progress, process_id, file }
            &&& plan.process_id == process_id
            &&& plan.input@ == file
            &&& plan.output@ == compressed_name(file)
            &&& plan.command@ == compression_spec(file, compressed_name(file))
        },
{
    let (process_id, input) = match state {
        RecordingState::Started { progress: _, process_id, file } => (*process_id, file.clone()),
        _ => {
            return Err(LifecycleError::NotStarted);
        },
    };
    let output = compressed_file(input.as_str());
    *state = RecordingState::Stopping { process_id, file: input.clone() };
    let builder = FfmpegBuilder::new().stderr(Stream::Piped).input(File::new(input.as_str()))
        .output_option(key_value("vcodec", "libx264")).output_option(key_value("crf", "20")).output(
        File::new(output.as_str()),
    );
    assert(builder@.inputs =~= seq![input@]);
    assert(builder@.outputs =~= seq![output@]);
    assert(builder@.output_options =~= compression_spec(input@, output@).output_options);
    Ok(CompressionPlan { process_id, input, output, command: builder })
}

/// Records that the compression of `input` into `output` runs as process
/// `process_id`.
pub fn compression_started(
    state: &mut RecordingState,
    process_id: u32,
    input: &str,
    output: &str,
)
    ensures
        final(state)@ == (StateView::Compressing { process_id, input: input@, output: output@ }),
{
    *state = RecordingState::Compressing {
        process_id,
        input: String::from_str(input),
        output: String::from_str(output),
    };
}

/// Records that the compression has ended: the recording is in `output`.
pub fn compression_finished(state: &mut RecordingState, output: &str)
    ensures
        final(state)@ == (StateView::Done { file: output@ }),
{
    *state = RecordingState::Done { file: String::from_str(output) };
}

/// The name of a capture ends in `.mp4`.
pub proof fn capture_path_has_extension(dir: Seq<char>, stamp: Seq<char>)
    ensures
        ends_with(capture_path(dir, stamp), ".mp4"@),
{
    reveal_strlit(".mp4");
    let path = capture_path(dir, stamp);
    assert(path.skip(path.len() - 4) =~= ".mp4"@);
}

/// In one directory, two time stamps name two capture files.
pub proof fn stamps_name_captures(dir: Seq<char>, first: Seq<char>, second: Seq<char>)
    requires
        first != second,
    ensures
        capture_path(dir, first) != capture_path(dir, second),
{
    let a = capture_path(dir, first);
    let b = capture_path(dir, second);
    if a == b {
        reveal_strlit("/");
        reveal_strlit(".mp4");
        let from: int = dir.len() as int + 1;
        assert(a.len() == dir.len() + 1 + first.len() + 4);
        assert(b.len() == dir.len() + 1 + second.len() + 4);
        assert(first =~= a.subrange(from, from + first.len()));
        assert(second =~= b.subrange(from, from + second.len()));
    }
}

/// Two files with the extension `.mp4` are compressed into two files.
pub proof fn compressed_names_differ(a: Seq<char>, b: Seq<char>)
    requires
        ends_with(a, ".mp4"@),
        ends_with(b, ".mp4"@),
        a != b,
    ensures
        compressed_name(a) != compressed_name(b),
{
    let x = compressed_name(a);
    let y = compressed_name(b);
    if x == y {
        reveal_strlit(".mp4");
        reveal_strlit(".compressed.mp4");
        let stem_a = a.take(a.len() - 4);
        let stem_b = b.take(b.len() - 4);
        assert(x.len() == stem_a.len() + 15);
        assert(y.len() == stem_b.len() + 15);
        assert(stem_a =~= x.take(stem_a.len() as int));
        assert(stem_b =~= y.take(stem_b.len() as int));
        assert(a =~= stem_a + a.skip(a.len() - 4));
        assert(b =~= stem_b + b.skip(b.len() - 4));
    }
}

/// `start` is refused in each state in which a recording is under way, and
/// `stop` in each state but `Started`.
pub proof fn refusals(state: StateView)
    ensures
        state is Started || state is Stopping || state is Compressing ==> !state.ready(),
        state is Waiting || state is Done ==> state.ready(),
        state !is Started ==> state.stopping() == state,
{
}

/// From `Done`, a capture that is started and stopped ends in `Done` again:
/// with the process running, `stop` is accepted, and the compression leaves
/// the compressed capture as the recording. Its file is another one than
/// that of the cycle before, unless the two cycles name their captures alike.
pub proof fn restart_names_new_file(
    dir_before: Seq<char>,
    stamp_before: Seq<char>,
    dir: Seq<char>,
    stamp: Seq<char>,
    process_id: u32,
)
    requires
        process_id > 0,
        capture_path(dir_before, stamp_before) != capture_path(dir, stamp),
    ensures
        ({
            let before = StateView::Done {
                file: compressed_name(capture_path(dir_before, stamp_before)),
            };
            let file = capture_path(dir, stamp);
            let running = before.capture_started(process_id, file);
            let after = StateView::Done { file: compressed_name(file) };
            &&& before.ready()
            &&& running == StateView::Started { progress: None, process_id, file }
            &&& running.stopping() == StateView::Stopping { process_id, file }
            &&& after->Done_file != before->Done_file
        }),
{
    capture_path_has_extension(dir_before, stamp_before);
    capture_path_has_extension(dir, stamp);
    compressed_names_differ(capture_path(dir_before, stamp_before), capture_path(dir, stamp));
}

} // verus!
