//! The encoder's progress protocol: `key=value` lines that accumulate into a
//! progress record, which a `progress` line commits.
use vstd::prelude::*;
use vstd::string::{StrSliceExecFns, StringExecFns};
use crate::text::{
    decimal_u64, find, is_space, is_whitespace, lemma_find_at, lemma_find_first,
    lemma_trim_end_at, lemma_trim_end_takes, lemma_trim_start_at, lemma_trim_start_skips,
    parse_u64, same_text, trim, trim_end, trim_start,
};

verus! {

/// What the encoder will do after a progress record.
#[derive(Clone, Copy, Debug, PartialEq, Eq, Structural)]
pub enum Status {
    /// More progress records follow.
    Continue,
    /// The encoder has finished: this record is the last of the session.
    End,
}

impl Default for Status {
    fn default() -> (s: Self)
        ensures
            s == Status::Continue,
    {
        Status::Continue
    }
}

impl Status {
    /// The one-letter label of the status.
    pub open spec fn label(self) -> Seq<char> {
        match self {
            Status::Continue => "C"@,
            Status::End => "E"@,
        }
    }

    /// Writes the status as its one-letter label.
    pub fn to_string(&self) -> (s: String)
        ensures
            s@ == self.label(),
    {
        match self {
            Status::Continue => String::from_str("C"),
            Status::End => String::from_str("E"),
        }
    }
}

/// A floating-point reading of the encoder, kept as the bit pattern of its
/// IEEE 754 double. The parser stores and hands on such a value and never
/// computes with it; the caller reads it from the text and turns it back
/// into a number.
#[derive(Clone, Copy, Debug, PartialEq, Eq)]
pub struct Rate {
    pub bits: u64,
}

/// One progress report of the encoder. A field is `None` until a line of the
/// protocol has set it: the protocol promises none of them.
#[derive(Clone, Copy, Debug, PartialEq, Eq)]
pub struct Progress {
    /// The frame that the encoder is on.
    pub frame: Option<u64>,
    /// The frame rate at which the encoder works.
    pub fps: Option<Rate>,
    /// The bytes written so far.
    pub total_size: Option<u64>,
    /// How far into the output the encoder is, in microseconds.
    pub out_time: Option<u64>,
    /// The frames that were duplicated.
    pub dup_frames: Option<u64>,
    /// The frames that were dropped.
    pub drop_frames: Option<u64>,
    /// The speed of the encoder as a multiple of real time.
    pub speed: Option<Rate>,
    /// What the encoder does next.
    pub status: Status,
}

/// The counters of a progress record: the fields that hold an unsigned number.
#[derive(Clone, Copy, Debug, PartialEq, Eq)]
pub enum Counter {
    Frame,
    TotalSize,
    OutTime,
    DupFrames,
    DropFrames,
}

/// The fields of a progress record that hold a floating-point reading.
#[derive(Clone, Copy, Debug, PartialEq, Eq)]
pub enum RateField {
    Fps,
    Speed,
}

impl Progress {
    /// The record in which no field is set and the status is `Continue`.
    pub open spec fn empty() -> Progress {
        Progress {
            frame: None,
            fps: None,
            total_size: None,
            out_time: None,
            dup_frames: None,
            drop_frames: None,
            speed: None,
            status: Status::Continue,
        }
    }

    /// The value of counter `c`.
    pub open spec fn counter(self, c: Counter) -> Option<u64> {
        match c {
            Counter::Frame => self.frame,
            Counter::TotalSize => self.total_size,
            Counter::OutTime => self.out_time,
            Counter::DupFrames => self.dup_frames,
            Counter::DropFrames => self.drop_frames,
        }
    }

    /// The reading in field `f`.
    pub open spec fn rate(self, f: RateField) -> Option<Rate> {
        match f {
            RateField::Fps => self.fps,
            RateField::Speed => self.speed,
        }
    }

    /// The record with counter `c` set to `v` and every other field as it was.
    pub open spec fn with_counter(self, c: Counter, v: u64) -> Progress {
        match c {
            Counter::Frame => Progress { frame: Some(v), ..self },
            Counter::TotalSize => Progress { total_size: Some(v), ..self },
            Counter::OutTime => Progress { out_time: Some(v), ..self },
            Counter::DupFrames => Progress { dup_frames: Some(v), ..self },
            Counter::DropFrames => Progress { drop_frames: Some(v), ..self },
        }
    }

    /// The record with field `f` set to `r` and every other field as it was.
    pub open spec fn with_rate(self, f: RateField, r: Rate) -> Progress {
        match f {
            RateField::Fps => Progress { fps: Some(r), ..self },
            RateField::Speed => Progress { speed: Some(r), ..self },
        }
    }

    /// The record with its status set to `status`.
    pub open spec fn with_status(self, status: Status) -> Progress {
        Progress { status, ..self }
    }

    /// Sets counter `c` to `v`.
    pub fn set_counter(&mut self, c: Counter, v: u64)
        ensures
            *final(self) == old(self).with_counter(c, v),
    {
        match c {
            Counter::Frame => { self.frame = Some(v); },
            Counter::TotalSize => { self.total_size = Some(v); },
            Counter::OutTime => { self.out_time = Some(v); },
            Counter::DupFrames => { self.dup_frames = Some(v); },
            Counter::DropFrames => { self.drop_frames = Some(v); },
        }
    }

    /// Sets field `f` to the reading `r`.
    pub fn set_rate(&mut self, f: RateField, r: Rate)
        ensures
            *final(self) == old(self).with_rate(f, r),
    {
        match f {
            RateField::Fps => { self.fps = Some(r); },
            RateField::Speed => { self.speed = Some(r); },
        }
    }
}

impl Default for Progress {
    fn default() -> (p: Self)
        ensures
            p == Progress::empty(),
    {
        Progress {
            frame: None,
            fps: None,
            total_size: None,
            out_time: None,
            dup_frames: None,
            drop_frames: None,
            speed: None,
            status: Status::Continue,
        }
    }
}

/// The conversion that a value of the protocol failed.
#[derive(Clone, Copy, Debug, PartialEq, Eq)]
pub enum Conversion {
    /// The text is no unsigned 64-bit number.
    Unsigned,
    /// The text is no floating-point number.
    Floating,
}

/// What ends a session before the encoder has reported its end.
#[derive(Debug, PartialEq, Eq)]
pub enum Error {
    /// The connection could not be read; the text is the cause.
    IoError(String),
    /// A line was no `key=value` pair; the text is the line as it was read.
    KeyValueParseError(String),
    /// The `progress` key had a value other than `continue` and `end`.
    UnknownStatusError(String),
    /// A value was not the number that its key calls for; the text is what
    /// failed to convert.
    OtherParseError(Conversion, String),
}

/// An [`Error`] with its texts as sequences of characters.
pub enum ErrorView {
    IoError(Seq<char>),
    KeyValueParseError(Seq<char>),
    UnknownStatusError(Seq<char>),
    OtherParseError(Conversion, Seq<char>),
}

impl View for Error {
    type V = ErrorView;

    open spec fn view(&self) -> ErrorView {
        match self {
            Error::IoError(cause) => ErrorView::IoError(cause@),
            Error::KeyValueParseError(line) => ErrorView::KeyValueParseError(line@),
            Error::UnknownStatusError(value) => ErrorView::UnknownStatusError(value@),
            Error::OtherParseError(conversion, text) => ErrorView::OtherParseError(
                *conversion,
                text@,
            ),
        }
    }
}

/// The key and the value that a line of the protocol holds: the trimmed line
/// is cut at its first `=`, the key loses its trailing whitespace and the
/// value its leading whitespace. A line without `=` holds no pair.
pub open spec fn split_pair(line: Seq<char>) -> Option<(Seq<char>, Seq<char>)> {
    let t = trim(line);
    let i = find(t, '=');
    if i < t.len() {
        Some((trim_end(t.take(i)), trim_start(t.skip(i + 1))))
    } else {
        None
    }
}

/// Splits a line of the protocol into its key and its value.
pub fn parse_line<'a>(line: &'a str) -> (pair: Option<(&'a str, &'a str)>)
    ensures
        pair is Some <==> split_pair(line@) is Some,
        pair matches Some((key, value)) ==> split_pair(line@) == Some((key@, value@)),
{
    let n = line.unicode_len();
    let mut a: usize = 0;
    while a < n && is_whitespace(line.get_char(a))
        invariant
            a <= n,
            n == line@.len(),
            forall|j: int| 0 <= j < a ==> is_space(#[trigger] line@[j]),
        decreases n - a,
    {
        a += 1;
    }
    let mut b: usize = n;
    while b > a && is_whitespace(line.get_char(b - 1))
        invariant
            a <= b <= n,
            n == line@.len(),
            forall|j: int| b <= j < n ==> is_space(#[trigger] line@[j]),
        decreases b,
    {
        b -= 1;
    }
    let ghost t = line@.subrange(a as int, b as int);
    proof {
        lemma_trim_start_at(line@, a as int);
        let rest = line@.skip(a as int);
        assert forall|j: int| b - a <= j < rest.len() implies is_space(#[trigger] rest[j]) by {
            assert(is_space(line@[j + a]));
        }
        lemma_trim_end_at(rest, b - a);
        assert(rest.take(b - a) =~= t);
        assert(trim(line@) == t);
    }
    let mut i: usize = a;
    while i < b && line.get_char(i) != '='
        invariant
            a <= i <= b <= n,
            n == line@.len(),
            forall|j: int| a <= j < i ==> #[trigger] line@[j] != '=',
        decreases b - i,
    {
        i += 1;
    }
    proof {
        assert forall|j: int| 0 <= j < i - a implies #[trigger] t[j] != '=' by {
            assert(line@[j + a] != '=');
        }
        lemma_find_at(t, '=', i - a);
    }
    if i == b {
        return None;
    }
    let mut e: usize = i;
    while e > a && is_whitespace(line.get_char(e - 1))
        invariant
            a <= e <= i < b <= n,
            n == line@.len(),
            forall|j: int| e <= j < i ==> is_space(#[trigger] line@[j]),
        decreases e,
    {
        e -= 1;
    }
    let mut v: usize = i + 1;
    while v < b && is_whitespace(line.get_char(v))
        invariant
            a <= i < v <= b <= n,
            n == line@.len(),
            forall|j: int| i < j < v ==> is_space(#[trigger] line@[j]),
        decreases b - v,
    {
        v += 1;
    }
    let key = line.substring_char(a, e);
    let value = line.substring_char(v, b);
    proof {
        let head = t.take(i - a);
        assert forall|j: int| e - a <= j < head.len() implies is_space(#[trigger] head[j]) by {
            assert(is_space(line@[j + a]));
        }
        lemma_trim_end_at(head, e - a);
        assert(head.take(e - a) =~= key@);
        let tail = t.skip(i - a + 1);
        assert forall|j: int| 0 <= j < v - i - 1 implies is_space(#[trigger] tail[j]) by {
            assert(is_space(line@[j + i + 1]));
        }
        lemma_trim_start_at(tail, v - i - 1);
        assert(tail.skip(v - i - 1) =~= value@);
    }
    Some((key, value))
}

/// A line holds a pair exactly if it holds a `=`.
pub proof fn pair_needs_delimiter(line: Seq<char>)
    ensures
        split_pair(line) is Some <==> line.contains('='),
{
    let a = lemma_trim_start_skips(line);
    let rest = line.skip(a);
    let k = lemma_trim_end_takes(rest);
    let t = trim(line);
    assert(t =~= line.subrange(a, a + k));
    lemma_find_first(t, '=');
    let i = find(t, '=');
    if i < t.len() {
        assert(line[a + i] == '=');
    }
    if line.contains('=') {
        let j = choose|j: int| 0 <= j < line.len() && line[j] == '=';
        assert(!is_space('='));
        if j < a {
            assert(is_space(line[j]));
        }
        if j >= a + k {
            assert(is_space(rest[j - a]));
        }
        assert(t[j - a] == '=');
    }
}

/// What the key of a line asks the parser to do.
#[derive(Clone, Copy, Debug, PartialEq, Eq)]
pub enum Key {
    /// Set a counter from the value.
    Counter(Counter),
    /// Set a floating-point field from the value.
    Rate(RateField),
    /// Commit the record: the value is its status.
    Commit,
    /// A key that the record has no field for.
    Unknown,
}

/// The meaning of each key of the protocol.
pub open spec fn key_kind(key: Seq<char>) -> Key {
    if key == "frame"@ {
        Key::Counter(Counter::Frame)
    } else if key == "fps"@ {
        Key::Rate(RateField::Fps)
    } else if key == "total_size"@ {
        Key::Counter(Counter::TotalSize)
    } else if key == "out_time_us"@ {
        Key::Counter(Counter::OutTime)
    } else if key == "dup_frames"@ {
        Key::Counter(Counter::DupFrames)
    } else if key == "drop_frames"@ {
        Key::Counter(Counter::DropFrames)
    } else if key == "speed"@ {
        Key::Rate(RateField::Speed)
    } else if key == "progress"@ {
        Key::Commit
    } else {
        Key::Unknown
    }
}

/// Looks a key up.
pub fn classify_key(key: &str) -> (kind: Key)
    ensures
        kind == key_kind(key@),
{
    if same_text(key, "frame") {
        Key::Counter(Counter::Frame)
    } else if same_text(key, "fps") {
        Key::Rate(RateField::Fps)
    } else if same_text(key, "total_size") {
        Key::Counter(Counter::TotalSize)
    } else if same_text(key, "out_time_us") {
        Key::Counter(Counter::OutTime)
    } else if same_text(key, "dup_frames") {
        Key::Counter(Counter::DupFrames)
    } else if same_text(key, "drop_frames") {
        Key::Counter(Counter::DropFrames)
    } else if same_text(key, "speed") {
        Key::Rate(RateField::Speed)
    } else if same_text(key, "progress") {
        Key::Commit
    } else {
        Key::Unknown
    }
}

/// The status that the value of a `progress` line names, if it names one.
pub open spec fn status_of(value: Seq<char>) -> Option<Status> {
    if value == "continue"@ {
        Some(Status::Continue)
    } else if value == "end"@ {
        Some(Status::End)
    } else {
        None
    }
}

/// The text of a field's value in which its number is written: the value
/// itself for `fps`; for `speed` the value without its last character, the
/// unit.
pub open spec fn rate_literal(f: RateField, value: Seq<char>) -> Seq<char> {
    match f {
        RateField::Fps => value,
        RateField::Speed => if value.len() > 0 {
            value.drop_last()
        } else {
            value
        },
    }
}

/// What the parser hands to its caller after an event.
#[derive(Debug, PartialEq, Eq)]
pub enum Step {
    /// Nothing: the caller reads on.
    Idle,
    /// The line sets a floating-point field. The caller reads the number from
    /// the text and reports it with [`ProgressParser::rate_read`].
    ReadRate(RateField, String),
    /// A completed record, to be sent on.
    Record(Progress),
    /// The error that ends the session, to be sent on.
    Failure(Error),
}

/// A [`Step`] with its texts as sequences of characters.
pub enum StepView {
    Idle,
    ReadRate(RateField, Seq<char>),
    Record(Progress),
    Failure(ErrorView),
}

impl View for Step {
    type V = StepView;

    open spec fn view(&self) -> StepView {
        match self {
            Step::Idle => StepView::Idle,
            Step::ReadRate(f, literal) => StepView::ReadRate(*f, literal@),
            Step::Record(p) => StepView::Record(*p),
            Step::Failure(e) => StepView::Failure(e@),
        }
    }
}

/// The parser of one session: the record that the lines read so far have
/// filled, and whether the channel to the consumer is closed. Once it is
/// closed the parser hands on nothing more.
#[derive(Clone, Copy, Debug, PartialEq, Eq)]
pub struct ProgressParser {
    pub record: Progress,
    pub closed: bool,
}

impl ProgressParser {
    /// The parser at the start of a session.
    pub open spec fn initial() -> ProgressParser {
        ProgressParser { record: Progress::empty(), closed: false }
    }

    /// The parser with its channel closed and its record as it was.
    pub open spec fn shut(self) -> ProgressParser {
        ProgressParser { closed: true, ..self }
    }

    /// The parser and what it hands on after the number of a counter line was
    /// read from `value`.
    pub open spec fn counter_step(self, c: Counter, value: Seq<char>) -> (ProgressParser, StepView) {
        match decimal_u64(value) {
            Some(v) => (
                ProgressParser { record: self.record.with_counter(c, v), ..self },
                StepView::Idle,
            ),
            None => (
                self.shut(),
                StepView::Failure(ErrorView::OtherParseError(Conversion::Unsigned, value)),
            ),
        }
    }

    /// The parser and what it hands on after a `progress` line with `value`.
    /// A status commits the record and empties the accumulator; the status
    /// `End` also closes the channel.
    pub open spec fn commit_step(self, value: Seq<char>) -> (ProgressParser, StepView) {
        match status_of(value) {
            Some(status) => (
                ProgressParser { record: Progress::empty(), closed: status == Status::End },
                StepView::Record(self.record.with_status(status)),
            ),
            None => (self.shut(), StepView::Failure(ErrorView::UnknownStatusError(value))),
        }
    }

    /// The parser and what it hands on after the line `line` was read.
    pub open spec fn line_step(self, line: Seq<char>) -> (ProgressParser, StepView) {
        if self.closed {
            (self, StepView::Idle)
        } else {
            match split_pair(line) {
                None => (self.shut(), StepView::Failure(ErrorView::KeyValueParseError(line))),
                Some((key, value)) => match key_kind(key) {
                    Key::Counter(c) => self.counter_step(c, value),
                    Key::Rate(f) => (self, StepView::ReadRate(f, rate_literal(f, value))),
                    Key::Commit => self.commit_step(value),
                    Key::Unknown => (self, StepView::Idle),
                },
            }
        }
    }

    /// The parser and what it hands on after the caller has read the number
    /// of field `f` from `literal`: `outcome` is the reading, or `None` where
    /// the text is no number.
    pub open spec fn rate_step(self, f: RateField, literal: Seq<char>, outcome: Option<Rate>) -> (
        ProgressParser,
        StepView,
    ) {
        if self.closed {
            (self, StepView::Idle)
        } else {
            match outcome {
                Some(r) => (
                    ProgressParser { record: self.record.with_rate(f, r), ..self },
                    StepView::Idle,
                ),
                None => (
                    self.shut(),
                    StepView::Failure(ErrorView::OtherParseError(Conversion::Floating, literal)),
                ),
            }
        }
    }

    /// The parser and what it hands on after a read of the connection failed
    /// for `cause`.
    pub open spec fn failure_step(self, cause: Seq<char>) -> (ProgressParser, StepView) {
        if self.closed {
            (self, StepView::Idle)
        } else {
            (self.shut(), StepView::Failure(ErrorView::IoError(cause)))
        }
    }

    /// A parser for a new session.
    pub fn new() -> (p: Self)
        ensures
            p == Self::initial(),
    {
        ProgressParser { record: Progress::default(), closed: false }
    }

    /// Whether the channel is closed.
    pub fn is_closed(&self) -> (b: bool)
        ensures
            b == self.closed,
    {
        self.closed
    }

    /// Closes the channel over a value that failed to convert.
    fn handle_parse_error(&mut self, conversion: Conversion, text: &str) -> (step: Step)
        ensures
            *final(self) == old(self).shut(),
            step@ == StepView::Failure(ErrorView::OtherParseError(conversion, text@)),
    {
        self.closed = true;
        Step::Failure(Error::OtherParseError(conversion, String::from_str(text)))
    }

    /// Takes one line of the connection, as it was read.
    pub fn feed_line(&mut self, line: &str) -> (step: Step)
        ensures
            (*final(self), step@) == old(self).line_step(line@),
    {
        if self.closed {
            return Step::Idle;
        }
        match parse_line(line) {
            None => {
                self.closed = true;
                Step::Failure(Error::KeyValueParseError(String::from_str(line)))
            },
            Some((key, value)) => match classify_key(key) {
                Key::Counter(c) => match parse_u64(value) {
                    Some(v) => {
                        self.record.set_counter(c, v);
                        Step::Idle
                    },
                    None => self.handle_parse_error(Conversion::Unsigned, value),
                },
                Key::Rate(f) => {
                    let literal = match f {
                        RateField::Fps => value,
                        RateField::Speed => {
                            let n = value.unicode_len();
                            if n > 0 {
                                value.substring_char(0, n - 1)
                            } else {
                                value
                            }
                        },
                    };
                    assert(literal@ =~= rate_literal(f, value@));
                    Step::ReadRate(f, String::from_str(literal))
                },
                Key::Commit => {
                    let status = if same_text(value, "continue") {
                        Status::Continue
                    } else if same_text(value, "end") {
                        Status::End
                    } else {
                        self.closed = true;
                        return Step::Failure(Error::UnknownStatusError(String::from_str(value)));
                    };
                    let mut record = self.record;
                    record.status = status;
                    self.record = Progress::default();
                    self.closed = status == Status::End;
                    Step::Record(record)
                },
                Key::Unknown => Step::Idle,
            },
        }
    }

    /// Takes the reading that the caller made of the text of a
    /// [`Step::ReadRate`]: the number, or `None` where the text is none.
    pub fn rate_read(&mut self, f: RateField, literal: &str, outcome: Option<Rate>) -> (step: Step)
        ensures
            (*final(self), step@) == old(self).rate_step(f, literal@, outcome),
    {
        if self.closed {
            return Step::Idle;
        }
        match outcome {
            Some(r) => {
                self.record.set_rate(f, r);
                Step::Idle
            },
            None => self.handle_parse_error(Conversion::Floating, literal),
        }
    }

    /// Takes the failure of a read of the connection.
    pub fn read_failed(&mut self, cause: &str) -> (step: Step)
        ensures
            (*final(self), step@) == old(self).failure_step(cause@),
    {
        if self.closed {
            return Step::Idle;
        }
        self.closed = true;
        Step::Failure(Error::IoError(String::from_str(cause)))
    }

    /// Takes the end of the connection: the channel closes and nothing is
    /// handed on.
    pub fn end_of_stream(&mut self)
        ensures
            *final(self) == old(self).shut(),
    {
        self.closed = true;
    }
}

/// What can reach the parser of a session.
pub enum Event {
    /// A line was read from the connection.
    Line(Seq<char>),
    /// The caller has read, or failed to read, the number of a field from a text.
    RateRead(RateField, Seq<char>, Option<Rate>),
    /// A read of the connection failed.
    ReadFailed(Seq<char>),
    /// The connection ended.
    EndOfStream,
}

impl ProgressParser {
    /// The parser and what it hands on after `event`.
    pub open spec fn event_step(self, event: Event) -> (ProgressParser, StepView) {
        match event {
            Event::Line(line) => self.line_step(line),
            Event::RateRead(f, literal, outcome) => self.rate_step(f, literal, outcome),
            Event::ReadFailed(cause) => self.failure_step(cause),
            Event::EndOfStream => (self.shut(), StepView::Idle),
        }
    }

    /// The parser after `events`, and the items that it has sent to the
    /// consumer on the way: the records and the error, in their order.
    pub open spec fn run(self, events: Seq<Event>) -> (ProgressParser, Seq<StepView>)
        decreases events.len(),
    {
        if events.len() == 0 {
            (self, Seq::empty())
        } else {
            let (next, step) = self.event_step(events[0]);
            let (last, sent) = next.run(events.drop_first());
            if step is Record || step is Failure {
                (last, seq![step] + sent)
            } else {
                (last, sent)
            }
        }
    }
}

/// The eight keys of the protocol are told apart: each has the meaning that
/// the protocol gives it.
pub proof fn key_table()
    ensures
        key_kind("frame"@) == Key::Counter(Counter::Frame),
        key_kind("fps"@) == Key::Rate(RateField::Fps),
        key_kind("total_size"@) == Key::Counter(Counter::TotalSize),
        key_kind("out_time_us"@) == Key::Counter(Counter::OutTime),
        key_kind("dup_frames"@) == Key::Counter(Counter::DupFrames),
        key_kind("drop_frames"@) == Key::Counter(Counter::DropFrames),
        key_kind("speed"@) == Key::Rate(RateField::Speed),
        key_kind("progress"@) == Key::Commit,
{
    reveal_strlit("frame");
    reveal_strlit("fps");
    reveal_strlit("total_size");
    reveal_strlit("out_time_us");
    reveal_strlit("dup_frames");
    reveal_strlit("drop_frames");
    reveal_strlit("speed");
    reveal_strlit("progress");
    assert("frame"@.len() == 5 && "fps"@.len() == 3 && "total_size"@.len() == 10);
    assert("out_time_us"@.len() == 11 && "dup_frames"@.len() == 10);
    assert("drop_frames"@.len() == 11 && "speed"@.len() == 5 && "progress"@.len() == 8);
    assert("frame"@[0] != "speed"@[0]);
    assert("total_size"@[0] != "dup_frames"@[0]);
    assert("out_time_us"@[0] != "drop_frames"@[0]);
}

/// A line whose key names a counter and whose value is a number sets that
/// counter to the number, leaves every other field and the channel as they
/// were, and hands nothing on.
pub proof fn counter_line_sets_counter(
    p: ProgressParser,
    line: Seq<char>,
    key: Seq<char>,
    value: Seq<char>,
    c: Counter,
    v: u64,
)
    requires
        !p.closed,
        split_pair(line) == Some((key, value)),
        key_kind(key) == Key::Counter(c),
        decimal_u64(value) == Some(v),
    ensures
        p.line_step(line).1 == StepView::Idle,
        !p.line_step(line).0.closed,
        p.line_step(line).0.record.counter(c) == Some(v),
        forall|d: Counter| d != c ==> p.line_step(line).0.record.counter(d) == p.record.counter(d),
        forall|f: RateField| p.line_step(line).0.record.rate(f) == p.record.rate(f),
        p.line_step(line).0.record.status == p.record.status,
{
}

/// A line whose key names a floating-point field leaves the parser as it was
/// and hands on the text to read; the reading that the caller reports sets
/// that field, leaves every other field and the channel as they were, and
/// hands nothing on.
pub proof fn rate_line_sets_rate(
    p: ProgressParser,
    line: Seq<char>,
    key: Seq<char>,
    value: Seq<char>,
    f: RateField,
    r: Rate,
)
    requires
        !p.closed,
        split_pair(line) == Some((key, value)),
        key_kind(key) == Key::Rate(f),
    ensures
        p.line_step(line) == (p, StepView::ReadRate(f, rate_literal(f, value))),
        p.rate_step(f, rate_literal(f, value), Some(r)).1 == StepView::Idle,
        !p.rate_step(f, rate_literal(f, value), Some(r)).0.closed,
        p.rate_step(f, rate_literal(f, value), Some(r)).0.record.rate(f) == Some(r),
        forall|g: RateField|
            g != f ==> p.rate_step(f, rate_literal(f, value), Some(r)).0.record.rate(g)
                == p.record.rate(g),
        forall|c: Counter|
            p.rate_step(f, rate_literal(f, value), Some(r)).0.record.counter(c)
                == p.record.counter(c),
        p.rate_step(f, rate_literal(f, value), Some(r)).0.record.status == p.record.status,
{
}

/// A counter that is unset stays unset over every event but a line with the
/// counter's own key.
pub proof fn counter_waits_for_its_key(p: ProgressParser, event: Event, c: Counter)
    requires
        p.record.counter(c) is None,
        !(event matches Event::Line(line) && split_pair(line) matches Some((key, value))
            && key_kind(key) == Key::Counter(c)),
    ensures
        p.event_step(event).0.record.counter(c) is None,
{
}

/// A floating-point field that is unset stays unset over every event but a
/// reading reported for that field.
pub proof fn rate_waits_for_its_reading(p: ProgressParser, event: Event, f: RateField)
    requires
        p.record.rate(f) is None,
        !(event matches Event::RateRead(g, literal, outcome) && g == f),
    ensures
        p.event_step(event).0.record.rate(f) is None,
{
}

/// On an open channel a `progress` line with the value `continue` or `end`
/// hands on one record, the accumulated fields with that status, and leaves
/// the accumulator empty.
pub proof fn commit_flushes_one_record(p: ProgressParser, line: Seq<char>, value: Seq<char>)
    requires
        !p.closed,
        split_pair(line) == Some(("progress"@, value)),
        value == "continue"@ || value == "end"@,
    ensures
        p.line_step(line).1 == StepView::Record(p.record.with_status(status_of(value)->0)),
        status_of(value) == Some(if value == "continue"@ { Status::Continue } else { Status::End }),
        p.line_step(line).0.record == Progress::empty(),
        p.run(seq![Event::Line(line)]).1 == seq![p.line_step(line).1],
{
    key_table();
    reveal_with_fuel(ProgressParser::run, 2);
    let events = seq![Event::Line(line)];
    assert(events.drop_first() =~= Seq::<Event>::empty());
    let step = p.line_step(line).1;
    assert(seq![step] + Seq::<StepView>::empty() =~= seq![step]);
}

/// A record is handed on by nothing but a `progress` line with the value
/// `continue` or `end`, read while the channel is open.
pub proof fn record_needs_commit(p: ProgressParser, event: Event)
    requires
        p.event_step(event).1 is Record,
    ensures
        !p.closed,
        event matches Event::Line(line) && split_pair(line) matches Some((key, value)) && key
            == "progress"@ && (value == "continue"@ || value == "end"@),
{
    key_table();
}

/// An error and the status `End` close the channel: whatever is handed on as
/// a failure or as the last record leaves the parser closed.
pub proof fn failure_and_end_close(p: ProgressParser, event: Event)
    ensures
        p.event_step(event).1 is Failure ==> p.event_step(event).0.closed,
        p.event_step(event).1 matches StepView::Record(r) ==> (p.event_step(event).0.closed
            <==> r.status == Status::End),
        p.closed ==> p.event_step(event).0.closed,
{
}

/// A closed channel carries nothing: whatever reaches the parser after the
/// channel was closed, no item is sent and the parser stays as it is.
pub proof fn closed_parser_is_silent(p: ProgressParser, events: Seq<Event>)
    requires
        p.closed,
    ensures
        p.run(events) == (p, Seq::<StepView>::empty()),
    decreases events.len(),
{
    if events.len() > 0 {
        assert(p.event_step(events[0]) == (p, StepView::Idle));
        closed_parser_is_silent(p, events.drop_first());
    }
}

/// A line without `=`, read while the channel is open, sends the error that
/// carries the line and closes the channel: of that line and of all that
/// follows it, the error is the only item sent.
pub proof fn line_without_delimiter_closes(
    p: ProgressParser,
    line: Seq<char>,
    later: Seq<Event>,
)
    requires
        !p.closed,
        !line.contains('='),
    ensures
        p.line_step(line) == (
            p.shut(),
            StepView::Failure(ErrorView::KeyValueParseError(line)),
        ),
        p.run(seq![Event::Line(line)] + later) == (
            p.shut(),
            seq![StepView::Failure(ErrorView::KeyValueParseError(line))],
        ),
{
    pair_needs_delimiter(line);
    let events = seq![Event::Line(line)] + later;
    assert(events.drop_first() =~= later);
    closed_parser_is_silent(p.shut(), later);
    let failure = StepView::Failure(ErrorView::KeyValueParseError(line));
    assert(seq![failure] + Seq::<StepView>::empty() =~= seq![failure]);
}

/// Whether `line` is a commit marker: a `progress` line with the value
/// `continue` or `end`.
pub open spec fn is_commit(line: Seq<char>) -> bool {
    split_pair(line) matches Some((key, value)) && key == "progress"@ && status_of(value) is Some
}

/// The number of commit markers among the lines of `events`.
pub open spec fn commits(events: Seq<Event>) -> nat
    decreases events.len(),
{
    if events.len() == 0 {
        0
    } else {
        let first: nat = if events[0] matches Event::Line(line) && is_commit(line) {
            1
        } else {
            0
        };
        first + commits(events.drop_first())
    }
}

/// The number of records among the items `sent`.
pub open spec fn records(sent: Seq<StepView>) -> nat
    decreases sent.len(),
{
    if sent.len() == 0 {
        0
    } else {
        let first: nat = if sent[0] is Record {
            1
        } else {
            0
        };
        first + records(sent.drop_first())
    }
}

/// Over a whole session no record is sent without a commit marker, and
/// while the channel stays open every marker sends its record: the records
/// sent are never more than the markers read, and exactly as many where the
/// channel is still open at the end.
pub proof fn records_answer_commits(p: ProgressParser, events: Seq<Event>)
    ensures
        records(p.run(events).1) <= commits(events),
        !p.run(events).0.closed ==> !p.closed && records(p.run(events).1) == commits(events),
    decreases events.len(),
{
    if events.len() > 0 {
        key_table();
        let (next, step) = p.event_step(events[0]);
        let rest = events.drop_first();
        let (last, sent) = next.run(rest);
        records_answer_commits(next, rest);
        if p.closed {
            closed_parser_is_silent(p, events);
        }
        if next.closed {
            closed_parser_is_silent(next, rest);
        }
        if step is Record || step is Failure {
            assert((seq![step] + sent).drop_first() =~= sent);
        }
    }
}

/// An error is the last item of its session: where the parser sends a
/// failure, it sends nothing behind it.
pub proof fn failure_is_last(p: ProgressParser, events: Seq<Event>, i: int)
    requires
        0 <= i < p.run(events).1.len(),
        p.run(events).1[i] is Failure,
    ensures
        i == p.run(events).1.len() - 1,
    decreases events.len(),
{
    if events.len() > 0 {
        let (next, step) = p.event_step(events[0]);
        let rest = events.drop_first();
        let (last, sent) = next.run(rest);
        if step is Failure {
            closed_parser_is_silent(next, rest);
        } else if step is Record {
            assert(p.run(events).1 == seq![step] + sent);
            assert(i > 0);
            assert((seq![step] + sent)[i] == sent[i - 1]);
            failure_is_last(next, rest, i - 1);
        } else {
            failure_is_last(next, rest, i);
        }
    }
}

} // verus!
