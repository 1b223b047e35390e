//! The metrics that can be asked for, the flags that ask for them, and the
//! order in which they are reported.

use vstd::prelude::*;
use vstd::string::*;

verus! {

/// One countable metric.
#[derive(Clone, Copy, Debug, PartialEq, Eq, Structural)]
pub enum ProgOption {
    CountBytes,
    CountLines,
    CountWords,
    CountChars,
}

/// The letter of the flag that asks for a metric, in lower and upper case.
pub open spec fn flag_letters(mode: ProgOption) -> (char, char) {
    match mode {
        ProgOption::CountBytes => ('c', 'C'),
        ProgOption::CountLines => ('l', 'L'),
        ProgOption::CountWords => ('w', 'W'),
        ProgOption::CountChars => ('m', 'M'),
    }
}

/// The argument is the flag of `mode`: a hyphen and the mode's letter, in
/// either case.
pub open spec fn names_mode(arg: Seq<char>, mode: ProgOption) -> bool {
    &&& arg.len() == 2
    &&& arg[0] == '-'
    &&& (arg[1] == flag_letters(mode).0 || arg[1] == flag_letters(mode).1)
}

/// The argument is the flag of some metric.
pub open spec fn is_mode_flag(arg: Seq<char>) -> bool {
    exists|mode: ProgOption| names_mode(arg, mode)
}

/// Some argument is the flag of `mode`.
pub open spec fn requested(args: Seq<String>, mode: ProgOption) -> bool {
    exists|i: int| 0 <= i < args.len() && names_mode(#[trigger] args[i]@, mode)
}

/// The place of a metric in the summary line: lines, words, bytes, characters.
pub open spec fn rank(mode: ProgOption) -> int {
    match mode {
        ProgOption::CountLines => 0,
        ProgOption::CountWords => 1,
        ProgOption::CountBytes => 2,
        ProgOption::CountChars => 3,
    }
}

/// The metrics are at least one and stand in the order of the summary line,
/// so that none stands twice.
pub open spec fn in_report_order(modes: Seq<ProgOption>) -> bool {
    &&& modes.len() > 0
    &&& forall|i: int, j: int|
        0 <= i < j < modes.len() ==> rank(#[trigger] modes[i]) < rank(#[trigger] modes[j])
}

/// `mode` if it is wanted, else nothing.
pub open spec fn only_if(wanted: bool, mode: ProgOption) -> Seq<ProgOption> {
    if wanted {
        seq![mode]
    } else {
        Seq::empty()
    }
}

/// Which metrics the flags of a command line ask for.
#[derive(Clone, Copy, Debug, PartialEq, Eq, Structural)]
pub struct FlagSet {
    pub lines: bool,
    pub words: bool,
    pub bytes: bool,
    pub chars: bool,
}

/// The flags that an argument list holds.
pub open spec fn flags_of(args: Seq<String>) -> FlagSet {
    FlagSet {
        lines: requested(args, ProgOption::CountLines),
        words: requested(args, ProgOption::CountWords),
        bytes: requested(args, ProgOption::CountBytes),
        chars: requested(args, ProgOption::CountChars),
    }
}

/// The metrics that an argument list leads to.
pub open spec fn effective_modes(args: Seq<String>) -> Seq<ProgOption> {
    flags_of(args).effective()
}

impl FlagSet {
    /// The set asks for `mode`.
    pub open spec fn has(self, mode: ProgOption) -> bool {
        match mode {
            ProgOption::CountLines => self.lines,
            ProgOption::CountWords => self.words,
            ProgOption::CountBytes => self.bytes,
            ProgOption::CountChars => self.chars,
        }
    }

    /// No flag was given.
    pub open spec fn is_empty(self) -> bool {
        !self.lines && !self.words && !self.bytes && !self.chars
    }

    /// How many metrics the set asks for.
    pub open spec fn size(self) -> nat {
        only_if(self.lines, ProgOption::CountLines).len() + only_if(
            self.words,
            ProgOption::CountWords,
        ).len() + only_if(self.bytes, ProgOption::CountBytes).len() + only_if(
            self.chars,
            ProgOption::CountChars,
        ).len()
    }

    /// The metrics asked for, in the order of the summary line.
    pub open spec fn listed(self) -> Seq<ProgOption> {
        only_if(self.lines, ProgOption::CountLines) + only_if(self.words, ProgOption::CountWords)
            + only_if(self.bytes, ProgOption::CountBytes) + only_if(
            self.chars,
            ProgOption::CountChars,
        )
    }

    /// The metrics to report: those asked for, or lines, words and bytes
    /// where none was.
    pub open spec fn effective(self) -> Seq<ProgOption> {
        if self.is_empty() {
            seq![ProgOption::CountLines, ProgOption::CountWords, ProgOption::CountBytes]
        } else {
            self.listed()
        }
    }

    /// Reads the flags off an argument list. Arguments that are no flags are
    /// passed over.
    pub fn parse(args: &Vec<String>) -> (flags: FlagSet)
        ensures
            flags == flags_of(args@),
    {
        FlagSet {
            lines: is_requested(args, ProgOption::CountLines),
            words: is_requested(args, ProgOption::CountWords),
            bytes: is_requested(args, ProgOption::CountBytes),
            chars: is_requested(args, ProgOption::CountChars),
        }
    }

    /// The metrics to report, in the order of the summary line.
    pub fn effective_modes(&self) -> (modes: Vec<ProgOption>)
        ensures
            modes@ == self.effective(),
            in_report_order(modes@),
    {
        let mut modes: Vec<ProgOption> = Vec::new();
        if self.lines {
            modes.push(ProgOption::CountLines);
        }
        if self.words {
            modes.push(ProgOption::CountWords);
        }
        if self.bytes {
            modes.push(ProgOption::CountBytes);
        }
        if self.chars {
            modes.push(ProgOption::CountChars);
        }
        if modes.len() == 0 {
            modes.push(ProgOption::CountLines);
            modes.push(ProgOption::CountWords);
            modes.push(ProgOption::CountBytes);
        }
        assert(modes@ =~= self.effective());
        modes
    }
}

/// Whatever the flags, the metrics to report are at least one and stand in
/// the order lines, words, bytes, characters, so that none stands twice.
/// Where a flag was given they are the metrics asked for, each once.
pub proof fn lemma_effective_modes_ordered(flags: FlagSet)
    ensures
        in_report_order(flags.effective()),
        !flags.is_empty() ==> flags.effective().len() == flags.size(),
        !flags.is_empty() ==> forall|mode: ProgOption|
            flags.effective().contains(mode) <==> flags.has(mode),
{
    let modes = flags.effective();
    if !flags.is_empty() {
        assert forall|mode: ProgOption| modes.contains(mode) <==> flags.has(mode) by {
            if flags.has(mode) {
                let lines = only_if(flags.lines, ProgOption::CountLines).len() as int;
                let words = only_if(flags.words, ProgOption::CountWords).len() as int;
                let bytes = only_if(flags.bytes, ProgOption::CountBytes).len() as int;
                let at = match mode {
                    ProgOption::CountLines => 0,
                    ProgOption::CountWords => lines,
                    ProgOption::CountBytes => lines + words,
                    ProgOption::CountChars => lines + words + bytes,
                };
                assert(modes[at] == mode);
            }
        }
    }
}

/// The metric whose flag the argument is, if it is one.
pub fn flag_mode(arg: &str) -> (mode: Option<ProgOption>)
    ensures
        mode matches Some(m) ==> names_mode(arg@, m),
        mode is None <==> !is_mode_flag(arg@),
{
    if arg.unicode_len() != 2 {
        return None;
    }
    if arg.get_char(0) != '-' {
        return None;
    }
    let letter: char = arg.get_char(1);
    if letter == 'c' || letter == 'C' {
        assert(names_mode(arg@, ProgOption::CountBytes));
        Some(ProgOption::CountBytes)
    } else if letter == 'l' || letter == 'L' {
        assert(names_mode(arg@, ProgOption::CountLines));
        Some(ProgOption::CountLines)
    } else if letter == 'w' || letter == 'W' {
        assert(names_mode(arg@, ProgOption::CountWords));
        Some(ProgOption::CountWords)
    } else if letter == 'm' || letter == 'M' {
        assert(names_mode(arg@, ProgOption::CountChars));
        Some(ProgOption::CountChars)
    } else {
        None
    }
}

/// Whether some argument is the flag of `mode`.
pub fn is_requested(args: &Vec<String>, mode: ProgOption) -> (found: bool)
    ensures
        found == requested(args@, mode),
{
    let mut i: usize = 0;
    while i < args.len()
        invariant
            i <= args@.len(),
            forall|j: int| 0 <= j < i ==> !names_mode(#[trigger] args@[j]@, mode),
        decreases args@.len() - i,
    {
        match flag_mode(args[i].as_str()) {
            Some(m) => {
                if m == mode {
                    return true;
                }
            },
            None => {},
        }
        i = i + 1;
    }
    false
}

} // verus!
