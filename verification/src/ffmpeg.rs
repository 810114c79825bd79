//! The argument list of an encoder run: inputs, options and outputs are
//! collected in call order and written out in the order that the encoder
//! reads them in.
use vstd::prelude::*;
use vstd::string::StringExecFns;
use crate::text::{decimal, to_decimal};

verus! {

/// One option of the encoder.
#[derive(Debug, PartialEq, Eq)]
pub enum Parameter {
    /// A bare flag, written `-flag`.
    Single(String),
    /// A key with its value, written as the two arguments `-key` and `value`.
    KeyValue(String, String),
}

/// A [`Parameter`] with its texts as sequences of characters.
pub enum ParameterView {
    Single(Seq<char>),
    KeyValue(Seq<char>, Seq<char>),
}

impl View for Parameter {
    type V = ParameterView;

    open spec fn view(&self) -> ParameterView {
        match self {
            Parameter::Single(flag) => ParameterView::Single(flag@),
            Parameter::KeyValue(key, value) => ParameterView::KeyValue(key@, value@),
        }
    }
}

impl ParameterView {
    /// The arguments that write the option.
    pub open spec fn tokens(self) -> Seq<Seq<char>> {
        match self {
            ParameterView::Single(flag) => seq!["-"@ + flag],
            ParameterView::KeyValue(key, value) => seq!["-"@ + key, value],
        }
    }
}

/// The arguments that write the options `ps`, one option after the other.
pub open spec fn option_tokens(ps: Seq<ParameterView>) -> Seq<Seq<char>>
    decreases ps.len(),
{
    if ps.len() == 0 {
        Seq::empty()
    } else {
        option_tokens(ps.drop_last()) + ps.last().tokens()
    }
}

/// The arguments that name the input files `urls`: `-i` before each.
pub open spec fn input_tokens(urls: Seq<Seq<char>>) -> Seq<Seq<char>>
    decreases urls.len(),
{
    if urls.len() == 0 {
        Seq::empty()
    } else {
        input_tokens(urls.drop_last()) + seq!["-i"@, urls.last()]
    }
}

/// A file that the encoder reads or writes.
#[derive(Debug, PartialEq, Eq)]
pub struct File {
    pub url: String,
}

impl File {
    /// The file at `url`.
    pub fn new(url: &str) -> (f: File)
        ensures
            f.url@ == url@,
    {
        File { url: String::from_str(url) }
    }
}

/// What becomes of a standard stream of the encoder process.
#[derive(Clone, Copy, Debug, PartialEq, Eq)]
pub enum Stream {
    /// It is discarded.
    Null,
    /// It is captured for the supervisor.
    Piped,
    /// It is the supervisor's own.
    Inherit,
}

/// The characters of each text of `v`.
pub open spec fn texts(v: Seq<String>) -> Seq<Seq<char>> {
    Seq::new(v.len(), |i: int| v[i]@)
}

/// The address of each file of `v`.
pub open spec fn urls(v: Seq<File>) -> Seq<Seq<char>> {
    Seq::new(v.len(), |i: int| v[i].url@)
}

/// The view of each option of `v`.
pub open spec fn parameters(v: Seq<Parameter>) -> Seq<ParameterView> {
    Seq::new(v.len(), |i: int| v[i]@)
}

/// An encoder run in the making.
#[derive(Debug, PartialEq, Eq)]
pub struct FfmpegBuilder {
    /// The files to read.
    pub inputs: Vec<File>,
    /// The options that follow the inputs.
    pub options: Vec<Parameter>,
    /// The options that stand directly before the outputs.
    pub output_options: Vec<Parameter>,
    /// The files to write.
    pub outputs: Vec<File>,
    /// What becomes of the standard error stream of the process.
    pub stderr: Stream,
}

/// A [`FfmpegBuilder`] with its texts as sequences of characters.
pub struct BuilderView {
    pub inputs: Seq<Seq<char>>,
    pub options: Seq<ParameterView>,
    pub output_options: Seq<ParameterView>,
    pub outputs: Seq<Seq<char>>,
    pub stderr: Stream,
}

impl BuilderView {
    /// The run without files and options, its standard error discarded.
    pub open spec fn empty() -> BuilderView {
        BuilderView {
            inputs: Seq::empty(),
            options: Seq::empty(),
            output_options: Seq::empty(),
            outputs: Seq::empty(),
            stderr: Stream::Null,
        }
    }

    /// The argument list of the run: the inputs, each behind `-i`; the
    /// options; the options of the outputs; the outputs. Each group is in the
    /// order in which it was filled.
    pub open spec fn args(self) -> Seq<Seq<char>> {
        input_tokens(self.inputs) + option_tokens(self.options) + option_tokens(
            self.output_options,
        ) + self.outputs
    }
}

impl View for FfmpegBuilder {
    type V = BuilderView;

    open spec fn view(&self) -> BuilderView {
        BuilderView {
            inputs: urls(self.inputs@),
            options: parameters(self.options@),
            output_options: parameters(self.output_options@),
            outputs: urls(self.outputs@),
            stderr: self.stderr,
        }
    }
}

/// The address to which an encoder reports its progress when the supervisor
/// listens on `port` of the local host.
pub open spec fn progress_address(port: u16) -> Seq<char> {
    "tcp://127.0.0.1:"@ + decimal(port as nat)
}

/// Writes the address of the progress listener on `port`.
pub fn progress_url(port: u16) -> (url: String)
    ensures
        url@ == progress_address(port),
{
    let mut url = String::from_str("tcp://127.0.0.1:");
    let digits = to_decimal(port as u64);
    url.append(digits.as_str());
    url
}

/// Appends the arguments of `option` to `args`.
fn push_parameter(args: &mut Vec<String>, option: &Parameter)
    ensures
        texts(final(args)@) == texts(old(args)@) + option@.tokens(),
{
    match option {
        Parameter::Single(flag) => {
            let mut token = String::from_str("-");
            token.append(flag.as_str());
            args.push(token);
        },
        Parameter::KeyValue(key, value) => {
            let mut token = String::from_str("-");
            token.append(key.as_str());
            args.push(token);
            args.push(value.clone());
        },
    }
    assert(texts(args@) =~= texts(old(args)@) + option@.tokens());
}

impl FfmpegBuilder {
    /// A run without files and options.
    pub fn new() -> (b: Self)
        ensures
            b@ == BuilderView::empty(),
    {
        let b = FfmpegBuilder {
            inputs: Vec::new(),
            options: Vec::new(),
            output_options: Vec::new(),
            outputs: Vec::new(),
            stderr: Stream::Null,
        };
        assert(b@.inputs =~= Seq::empty());
        assert(b@.options =~= Seq::empty());
        assert(b@.output_options =~= Seq::empty());
        assert(b@.outputs =~= Seq::empty());
        b
    }

    /// Sets what becomes of the standard error stream.
    pub fn stderr(self, stream: Stream) -> (b: Self)
        ensures
            b@ == (BuilderView { stderr: stream, ..self@ }),
    {
        let mut b = self;
        b.stderr = stream;
        b
    }

    /// Adds an option behind those already there.
    pub fn option(self, option: Parameter) -> (b: Self)
        ensures
            b@ == (BuilderView { options: self@.options.push(option@), ..self@ }),
    {
        let mut b = self;
        b.options.push(option);
        assert(b@.options =~= self@.options.push(option@));
        b
    }

    /// Adds an option of the outputs behind those already there.
    pub fn output_option(self, option: Parameter) -> (b: Self)
        ensures
            b@ == (BuilderView { output_options: self@.output_options.push(option@), ..self@ }),
    {
        let mut b = self;
        b.output_options.push(option);
        assert(b@.output_options =~= self@.output_options.push(option@));
        b
    }

    /// Adds a file to read behind those already there.
    pub fn input(self, file: File) -> (b: Self)
        ensures
            b@ == (BuilderView { inputs: self@.inputs.push(file.url@), ..self@ }),
    {
        let mut b = self;
        b.inputs.push(file);
        assert(b@.inputs =~= self@.inputs.push(file.url@));
        b
    }

    /// Adds a file to write behind those already there.
    pub fn output(self, file: File) -> (b: Self)
        ensures
            b@ == (BuilderView { outputs: self@.outputs.push(file.url@), ..self@ }),
    {
        let mut b = self;
        b.outputs.push(file);
        assert(b@.outputs =~= self@.outputs.push(file.url@));
        b
    }

    /// Tells the encoder to report its progress to the listener on `port` of
    /// the local host: the option `progress` with that address, behind the
    /// options already there.
    pub fn report_progress_to(self, port: u16) -> (b: Self)
        ensures
            b@ == (BuilderView {
                options: self@.options.push(
                    ParameterView::KeyValue("progress"@, progress_address(port)),
                ),
                ..self@
            }),
    {
        let key = String::from_str("progress");
        let url = progress_url(port);
        self.option(Parameter::KeyValue(key, url))
    }

    /// Writes the argument list of the run.
    pub fn to_args(&self) -> (args: Vec<String>)
        ensures
            texts(args@) == self@.args(),
    {
        let mut args: Vec<String> = Vec::new();
        assert(texts(args@) =~= Seq::empty());
        let mut i: usize = 0;
        while i < self.inputs.len()
            invariant
                i <= self.inputs.len(),
                texts(args@) == input_tokens(self@.inputs.take(i as int)),
            decreases self.inputs.len() - i,
        {
            let ghost before = texts(args@);
            args.push(String::from_str("-i"));
            args.push(self.inputs[i].url.clone());
            proof {
                let next = self@.inputs.take(i + 1);
                assert(next.drop_last() =~= self@.inputs.take(i as int));
                assert(texts(args@) =~= before + seq!["-i"@, next.last()]);
            }
            i += 1;
        }
        assert(self@.inputs.take(i as int) =~= self@.inputs);
        let ghost head = texts(args@);
        let mut j: usize = 0;
        assert(head + option_tokens(self@.options.take(0)) =~= head);
        while j < self.options.len()
            invariant
                j <= self.options.len(),
                texts(args@) == head + option_tokens(self@.options.take(j as int)),
            decreases self.options.len() - j,
        {
            let ghost before = texts(args@);
            push_parameter(&mut args, &self.options[j]);
            proof {
                let next = self@.options.take(j + 1);
                assert(next.drop_last() =~= self@.options.take(j as int));
                assert(texts(args@) =~= head + option_tokens(next));
            }
            j += 1;
        }
        assert(self@.options.take(j as int) =~= self@.options);
        let ghost middle = texts(args@);
        let mut k: usize = 0;
        assert(middle + option_tokens(self@.output_options.take(0)) =~= middle);
        while k < self.output_options.len()
            invariant
                k <= self.output_options.len(),
                texts(args@) == middle + option_tokens(self@.output_options.take(k as int)),
            decreases self.output_options.len() - k,
        {
            push_parameter(&mut args, &self.output_options[k]);
            proof {
                let next = self@.output_options.take(k + 1);
                assert(next.drop_last() =~= self@.output_options.take(k as int));
                assert(texts(args@) =~= middle + option_tokens(next));
            }
            k += 1;
        }
        assert(self@.output_options.take(k as int) =~= self@.output_options);
        let ghost front = texts(args@);
        let mut m: usize = 0;
        assert(front + self@.outputs.take(0) =~= front);
        while m < self.outputs.len()
            invariant
                m <= self.outputs.len(),
                texts(args@) == front + self@.outputs.take(m as int),
            decreases self.outputs.len() - m,
        {
            let ghost before = texts(args@);
            args.push(self.outputs[m].url.clone());
            proof {
                let next = self@.outputs.take(m + 1);
                assert(next =~= self@.outputs.take(m as int).push(self.outputs[m as int].url@));
                assert(texts(args@) =~= before.push(self.outputs[m as int].url@));
                assert(texts(args@) =~= front + next);
            }
            m += 1;
        }
        assert(self@.outputs.take(m as int) =~= self@.outputs);
        args
    }
}

/// Options are written in the order in which they stand: the arguments of a
/// list of options are those of its front part, then those of its back part.
pub proof fn options_keep_their_order(front: Seq<ParameterView>, back: Seq<ParameterView>)
    ensures
        option_tokens(front + back) == option_tokens(front) + option_tokens(back),
    decreases back.len(),
{
    if back.len() == 0 {
        assert(front + back =~= front);
        assert(option_tokens(front) + option_tokens(back) =~= option_tokens(front));
    } else {
        let all = front + back;
        assert(all.drop_last() =~= front + back.drop_last());
        options_keep_their_order(front, back.drop_last());
        assert(option_tokens(all) =~= option_tokens(front) + option_tokens(back));
    }
}

/// An option that is added goes behind the arguments already written: the
/// argument list of the longer run is that of the shorter one with the
/// arguments of the option put in before those of the output options.
pub proof fn added_option_follows(b: BuilderView, option: ParameterView)
    ensures
        (BuilderView { options: b.options.push(option), ..b }).args() == input_tokens(b.inputs)
            + option_tokens(b.options) + option.tokens() + option_tokens(b.output_options)
            + b.outputs,
{
    assert(b.options.push(option).drop_last() =~= b.options);
}

} // verus!
