//! A request: the metrics to report and the fully buffered input, with the
//! input's name where it came from a file.

use vstd::prelude::*;
use vstd::string::*;
use crate::count::CountError;
use crate::modes::{
    effective_modes, flag_mode, flags_of, in_report_order, is_mode_flag,
    lemma_effective_modes_ordered, FlagSet, ProgOption,
};
use crate::report::{
    countable, lemma_one_space_per_value, metric, metrics, parse_contents, spaces_in, summary,
};

verus! {

/// A request on the contents of a named file.
pub struct FileArgs {
    flag: Vec<ProgOption>,
    contents: Vec<u8>,
    filename: String,
}

/// A request on what was read from the standard input.
pub struct StdInArgs {
    flag: Vec<ProgOption>,
    contents: Vec<u8>,
}

/// A request, by where its input came from.
pub enum ProgArgs {
    File(FileArgs),
    StdIn(StdInArgs),
}

/// The path among the arguments: the last argument that is no flag, if
/// there is one.
pub open spec fn path_in(args: Seq<String>) -> Option<Seq<char>>
    decreases args.len(),
{
    if args.len() == 0 {
        None
    } else if !is_mode_flag(args.last()@) {
        Some(args.last()@)
    } else {
        path_in(args.drop_last())
    }
}

/// What the summary line ends with: the file's name, or nothing.
pub open spec fn name_text(name: Option<Seq<char>>) -> Seq<char> {
    match name {
        Some(text) => text,
        None => Seq::empty(),
    }
}

impl FileArgs {
    #[verifier::type_invariant]
    spec fn modes_in_order(&self) -> bool {
        in_report_order(self.flag@)
    }

    /// The metrics to report, in order.
    pub closed spec fn modes(&self) -> Seq<ProgOption> {
        self.flag@
    }

    /// The input.
    pub closed spec fn bytes(&self) -> Seq<u8> {
        self.contents@
    }

    /// The file's name.
    pub closed spec fn name(&self) -> Seq<char> {
        self.filename@
    }
}

impl StdInArgs {
    #[verifier::type_invariant]
    spec fn modes_in_order(&self) -> bool {
        in_report_order(self.flag@)
    }

    /// The metrics to report, in order.
    pub closed spec fn modes(&self) -> Seq<ProgOption> {
        self.flag@
    }

    /// The input.
    pub closed spec fn bytes(&self) -> Seq<u8> {
        self.contents@
    }
}

impl ProgArgs {
    /// The metrics to report, in order.
    pub open spec fn modes(&self) -> Seq<ProgOption> {
        match self {
            ProgArgs::File(args) => args.modes(),
            ProgArgs::StdIn(args) => args.modes(),
        }
    }

    /// The input.
    pub open spec fn bytes(&self) -> Seq<u8> {
        match self {
            ProgArgs::File(args) => args.bytes(),
            ProgArgs::StdIn(args) => args.bytes(),
        }
    }

    /// The name of the file that the input came from, if it came from one.
    pub open spec fn name(&self) -> Option<Seq<char>> {
        match self {
            ProgArgs::File(args) => Some(args.name()),
            ProgArgs::StdIn(_) => None,
        }
    }

    /// The line that answers the request.
    pub open spec fn line(&self) -> Seq<char> {
        summary(self.modes(), self.bytes()) + name_text(self.name())
    }

    /// `outcome` is what `process` may return on this request.
    pub open spec fn answered_by(&self, outcome: Result<String, CountError>) -> bool {
        match outcome {
            Ok(line) => countable(self.modes(), self.bytes()) && line@ == self.line(),
            Err(_) => !countable(self.modes(), self.bytes()),
        }
    }

    /// The metrics to report. In every request they are at least one and
    /// stand in the order of the summary line.
    pub fn flags(&self) -> (flags: &Vec<ProgOption>)
        ensures
            flags@ == self.modes(),
            in_report_order(flags@),
    {
        match self {
            ProgArgs::File(args) => {
                proof {
                    use_type_invariant(args);
                }
                &args.flag
            },
            ProgArgs::StdIn(args) => {
                proof {
                    use_type_invariant(args);
                }
                &args.flag
            },
        }
    }

    /// The input.
    pub fn contents(&self) -> (contents: &Vec<u8>)
        ensures
            contents@ == self.bytes(),
    {
        match self {
            ProgArgs::File(args) => &args.contents,
            ProgArgs::StdIn(args) => &args.contents,
        }
    }

    /// The name of the file that the input came from, if it came from one.
    pub fn filename(&self) -> (filename: Option<&String>)
        ensures
            match filename {
                Some(text) => self.name() == Some(text@),
                None => self.name() is None,
            },
    {
        match self {
            ProgArgs::File(args) => Some(&args.filename),
            ProgArgs::StdIn(_) => None,
        }
    }

    /// Makes the request of a command line. `args` are the arguments after
    /// the program's name, and `contents` is the whole input: the contents of
    /// the file that `input_path` names, or of the standard input where it
    /// names none.
    pub fn build(args: Vec<String>, contents: Vec<u8>) -> (request: ProgArgs)
        ensures
            request.modes() == effective_modes(args@),
            request.bytes() == contents@,
            request.name() == path_in(args@),
    {
        let flag: Vec<ProgOption> = FlagSet::parse(&args).effective_modes();
        match input_path(&args) {
            Some(filename) => ProgArgs::File(FileArgs { flag, contents, filename }),
            None => ProgArgs::StdIn(StdInArgs { flag, contents }),
        }
    }
}

/// A request has one answer: two outcomes of `process` on it agree on
/// failure, and on success hold the same line.
pub proof fn lemma_one_answer(
    request: ProgArgs,
    first: Result<String, CountError>,
    second: Result<String, CountError>,
)
    requires
        request.answered_by(first),
        request.answered_by(second),
    ensures
        first is Ok <==> second is Ok,
        first is Ok ==> first->Ok_0@ == second->Ok_0@,
        first is Err ==> first->Err_0 == second->Err_0,
{
    if first is Err {
        match (first->Err_0, second->Err_0) {
            (CountError::Encoding, CountError::Encoding) => {},
        }
    }
}

/// Arguments without a flag ask for what the flags for lines, words and
/// bytes together ask for: the same metrics in the same order, and so the
/// same line on every input.
pub proof fn lemma_no_flag_means_lines_words_bytes(
    plain: Seq<String>,
    explicit: Seq<String>,
    bytes: Seq<u8>,
)
    requires
        flags_of(plain).is_empty(),
        flags_of(explicit) == (FlagSet { lines: true, words: true, bytes: true, chars: false }),
    ensures
        effective_modes(plain) == seq![
            ProgOption::CountLines,
            ProgOption::CountWords,
            ProgOption::CountBytes,
        ],
        effective_modes(explicit) == effective_modes(plain),
        countable(effective_modes(explicit), bytes) == countable(effective_modes(plain), bytes),
        summary(effective_modes(explicit), bytes) == summary(effective_modes(plain), bytes),
{
    assert(effective_modes(explicit) =~= effective_modes(plain));
}

/// The line holds one value, and with it one space, for each metric to
/// report: where a flag was given, as many as there are metrics asked for.
/// The value at each place is that of the metric at that place.
pub proof fn lemma_one_value_per_mode(args: Seq<String>, bytes: Seq<u8>)
    ensures
        metrics(effective_modes(args), bytes).len() == effective_modes(args).len(),
        spaces_in(summary(effective_modes(args), bytes)) == effective_modes(args).len(),
        !flags_of(args).is_empty() ==> metrics(effective_modes(args), bytes).len() == flags_of(
            args,
        ).size(),
        forall|i: int|
            0 <= i < effective_modes(args).len() ==> #[trigger] metrics(
                effective_modes(args),
                bytes,
            )[i] == metric(effective_modes(args)[i], bytes),
{
    lemma_effective_modes_ordered(flags_of(args));
    lemma_one_space_per_value(metrics(effective_modes(args), bytes));
}

/// The path of the file to read: the last argument that is no flag. `None`
/// where every argument is a flag: the input is then the standard input.
pub fn input_path(args: &Vec<String>) -> (path: Option<String>)
    ensures
        match path {
            Some(text) => path_in(args@) == Some(text@),
            None => path_in(args@) is None,
        },
{
    let mut i: usize = args.len();
    assert(args@.take(i as int) =~= args@);
    while i > 0
        invariant
            i <= args@.len(),
            path_in(args@) == path_in(args@.take(i as int)),
        decreases i,
    {
        let ghost rest = args@.take(i as int);
        assert(rest.drop_last() =~= args@.take(i - 1));
        assert(rest.last() == args@[i - 1]);
        i = i - 1;
        if flag_mode(args[i].as_str()).is_none() {
            return Some(args[i].clone());
        }
    }
    None
}

/// Answers a request with its summary line: the value of each metric, in
/// order, each followed by one space, and then the file's name where the
/// input came from a file. Fails with `Encoding`, and with no line, exactly
/// where some metric needs text and the input is not well-formed UTF-8.
pub fn process(prog_args: ProgArgs) -> (outcome: Result<String, CountError>)
    ensures
        prog_args.answered_by(outcome),
{
    match prog_args {
        ProgArgs::StdIn(args) => {
            match parse_contents(args.flag, &args.contents) {
                Ok(line) => {
                    assert(line@ =~= prog_args.line());
                    Ok(line)
                },
                Err(e) => Err(e),
            }
        },
        ProgArgs::File(args) => {
            match parse_contents(args.flag, &args.contents) {
                Ok(line) => Ok(line.concat(args.filename.as_str())),
                Err(e) => Err(e),
            }
        },
    }
}

} // verus!
