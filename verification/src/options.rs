//! The command line: the file to read and the lines of it to take.

use vstd::prelude::*;
use vstd::string::*;

verus! {

/// What the command line asks for.
#[derive(Debug)]
pub struct Options {
    /// The file that holds the declaration.
    pub filename: String,
    /// The first line to take, counted from 1; the first line of the file
    /// where none is given.
    pub start: Option<u32>,
    /// The last line to take, counted from 1; the last line of the file
    /// where none is given.
    pub end: Option<u32>,
}

/// The options as plain values.
pub struct OptionsView {
    pub filename: Seq<char>,
    pub start: Option<u32>,
    pub end: Option<u32>,
}

impl View for Options {
    type V = OptionsView;

    open spec fn view(&self) -> OptionsView {
        OptionsView { filename: self.filename@, start: self.start, end: self.end }
    }
}

/// Why a command line is refused.
#[derive(Debug, PartialEq, Eq)]
pub enum OptionsError {
    /// What follows `--start` is no number.
    InvalidStart,
    /// What follows `--end` is no number.
    InvalidEnd,
    /// No file is named, or more than one.
    Usage,
}

/// The two options that take a line number.
#[derive(Debug, PartialEq, Eq)]
pub enum LineFlag {
    Start,
    End,
}

/// The number that a text stands for, if it stands for one that fits in 32
/// bits.
pub uninterp spec fn parsed_number(text: Seq<char>) -> Option<u32>;

/// Calls `str::parse::<u32>` of the standard library and drops the reason of
/// a failure. Nothing is claimed of the result but that it is the same for
/// the same text: it is `parsed_number` of the text.
#[verifier::external_body]
fn parse_number(text: &str) -> (number: Option<u32>)
    ensures
        number == parsed_number(text@),
{
    text.parse::<u32>().ok()
}

/// The options with which reading starts: no file, no line numbers.
pub open spec fn no_options() -> OptionsView {
    OptionsView { filename: Seq::empty(), start: None, end: None }
}

/// Which line option an argument names, if any: `--start` or `-s`, `--end`
/// or `-e`.
pub open spec fn line_flag(arg: Seq<char>) -> Option<LineFlag> {
    if arg == "--start"@ || arg == "-s"@ {
        Some(LineFlag::Start)
    } else if arg == "--end"@ || arg == "-e"@ {
        Some(LineFlag::End)
    } else {
        None
    }
}

/// The options after a line option was given `number`, the value its
/// argument parsed to: the number is stored, and an argument that is no
/// number is refused under the option's name.
pub open spec fn with_line(options: OptionsView, flag: LineFlag, number: Option<u32>) -> Result<
    OptionsView,
    OptionsError,
> {
    match (flag, number) {
        (LineFlag::Start, Some(line)) => Ok(OptionsView { start: Some(line), ..options }),
        (LineFlag::End, Some(line)) => Ok(OptionsView { end: Some(line), ..options }),
        (LineFlag::Start, None) => Err(OptionsError::InvalidStart),
        (LineFlag::End, None) => Err(OptionsError::InvalidEnd),
    }
}

/// What the arguments from `from` on make of `options`. `named` says whether
/// a file has been named already.
///
/// A line option takes the argument behind it as its number; as the last
/// argument it has none and changes nothing. The first other argument names
/// the file, a second one is refused. At the end a file must be named, and
/// its name must not be empty.
pub open spec fn read_args(
    args: Seq<Seq<char>>,
    from: int,
    options: OptionsView,
    named: bool,
) -> Result<OptionsView, OptionsError>
    decreases args.len() - from,
{
    if from < 0 || from >= args.len() {
        if options.filename.len() == 0 {
            Err(OptionsError::Usage)
        } else {
            Ok(options)
        }
    } else {
        match line_flag(args[from]) {
            Some(flag) => if from + 1 < args.len() {
                match with_line(options, flag, parsed_number(args[from + 1])) {
                    Ok(next) => read_args(args, from + 2, next, named),
                    Err(e) => Err(e),
                }
            } else {
                read_args(args, from + 1, options, named)
            },
            None => if named {
                Err(OptionsError::Usage)
            } else {
                read_args(args, from + 1, OptionsView { filename: args[from], ..options }, true)
            },
        }
    }
}

/// Whether `arg` is the text `text`.
fn is_text(arg: &String, text: &str) -> (same: bool)
    ensures
        same == (arg@ == text@),
{
    *arg == String::from_str(text)
}

/// Which line option `arg` names, if any.
pub fn line_flag_of(arg: &String) -> (flag: Option<LineFlag>)
    ensures
        flag == line_flag(arg@),
{
    if is_text(arg, "--start") || is_text(arg, "-s") {
        Some(LineFlag::Start)
    } else if is_text(arg, "--end") || is_text(arg, "-e") {
        Some(LineFlag::End)
    } else {
        None
    }
}

impl Default for Options {
    fn default() -> (options: Options)
        ensures
            options@ == no_options(),
    {
        Options { filename: String::new(), start: None, end: None }
    }
}

impl Options {
    /// Stores `number` as the line that `flag` names. Where the option's
    /// argument was no number, `number` is `None` and the option is refused.
    pub fn with_line(self, flag: LineFlag, number: Option<u32>) -> (r: Result<Options, OptionsError>)
        ensures
            match r {
                Ok(options) => with_line(self@, flag, number) == Ok::<OptionsView, OptionsError>(
                    options@,
                ),
                Err(e) => with_line(self@, flag, number) == Err::<OptionsView, OptionsError>(e),
            },
    {
        match (flag, number) {
            (LineFlag::Start, Some(line)) => Ok(
                Options { filename: self.filename, start: Some(line), end: self.end },
            ),
            (LineFlag::End, Some(line)) => Ok(
                Options { filename: self.filename, start: self.start, end: Some(line) },
            ),
            (LineFlag::Start, None) => Err(OptionsError::InvalidStart),
            (LineFlag::End, None) => Err(OptionsError::InvalidEnd),
        }
    }

    /// Reads the options from the arguments of the command line, the
    /// program's own name left out.
    pub fn parse(args: Vec<String>) -> (r: Result<Options, OptionsError>)
        ensures
            match r {
                Ok(options) => read_args(args.deep_view(), 0, no_options(), false) == Ok::<
                    OptionsView,
                    OptionsError,
                >(options@),
                Err(e) => read_args(args.deep_view(), 0, no_options(), false) == Err::<
                    OptionsView,
                    OptionsError,
                >(e),
            },
    {
        let mut options = Options::default();
        let mut named = false;
        let mut i: usize = 0;
        while i < args.len()
            invariant
                i <= args@.len(),
                read_args(args.deep_view(), 0, no_options(), false) == read_args(
                    args.deep_view(),
                    i as int,
                    options@,
                    named,
                ),
            decreases args@.len() - i,
        {
            assert(args.deep_view()[i as int] == args@[i as int]@);
            match line_flag_of(&args[i]) {
                Some(flag) => {
                    if i + 1 < args.len() {
                        assert(args.deep_view()[i + 1] == args@[i + 1]@);
                        let number = parse_number(args[i + 1].as_str());
                        match options.with_line(flag, number) {
                            Ok(next) => {
                                options = next;
                            },
                            Err(e) => {
                                return Err(e);
                            },
                        }
                        i += 2;
                    } else {
                        i += 1;
                    }
                },
                None => {
                    if named {
                        return Err(OptionsError::Usage);
                    }
                    options.filename = args[i].clone();
                    named = true;
                    i += 1;
                },
            }
        }
        if options.filename.as_str().is_empty() {
            Err(OptionsError::Usage)
        } else {
            Ok(options)
        }
    }
}

} // verus!
