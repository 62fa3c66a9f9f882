//! Parser for the commands of the interactive simulation environment.
//!
//! A command line is a sequence of words separated by white space (as
//! `str::split_whitespace` splits it). The first word names the command and
//! must start with `/`; it is matched case-insensitively (after
//! `str::to_lowercase`). The remaining words are its arguments.
//!
//! Numbers of steps and display precisions are parsed here, as
//! `str::parse` parses unsigned integers. A duration and the value of a
//! parameter are real numbers: their text is checked here (see
//! [`real_text`](crate::cli::real_text)) and handed back as written, and the
//! caller converts it.

use crate::cli::real_text::{is_positive_real_text, is_real_text, real_text_kind};
use vstd::prelude::*;

verus! {

// ---------------------------------------------------------------------------
// Characters, trimming and words
// ---------------------------------------------------------------------------

/// The Unicode `White_Space` characters (those for which
/// `char::is_whitespace` holds).
pub open spec fn is_white_space(c: char) -> bool {
    let n = c as u32;
    ||| 0x09 <= n <= 0x0D
    ||| n == 0x20
    ||| n == 0x85
    ||| n == 0xA0
    ||| n == 0x1680
    ||| 0x2000 <= n <= 0x200A
    ||| n == 0x2028
    ||| n == 0x2029
    ||| n == 0x202F
    ||| n == 0x205F
    ||| n == 0x3000
}

/// Whether `c` is a Unicode white-space character.
pub fn is_white_space_char(c: char) -> (r: bool)
    ensures
        r == is_white_space(c),
{
    let n = c as u32;
    (0x09 <= n && n <= 0x0D) || n == 0x20 || n == 0x85 || n == 0xA0 || n == 0x1680 || (0x2000 <= n
        && n <= 0x200A) || n == 0x2028 || n == 0x2029 || n == 0x202F || n == 0x205F || n == 0x3000
}

/// `s` without its leading white space.
pub open spec fn trim_start(s: Seq<char>) -> Seq<char>
    decreases s.len(),
{
    if s.len() > 0 && is_white_space(s[0]) {
        trim_start(s.drop_first())
    } else {
        s
    }
}

/// `s` without its trailing white space.
pub open spec fn trim_end(s: Seq<char>) -> Seq<char>
    decreases s.len(),
{
    if s.len() > 0 && is_white_space(s.last()) {
        trim_end(s.drop_last())
    } else {
        s
    }
}

/// `s` without leading and trailing white space (`str::trim`).
pub open spec fn trim(s: Seq<char>) -> Seq<char> {
    trim_end(trim_start(s))
}

/// Length of the run of non-white-space characters that starts `s`.
pub open spec fn word_len(s: Seq<char>) -> nat
    decreases s.len(),
{
    if s.len() > 0 && !is_white_space(s[0]) {
        word_len(s.drop_first()) + 1
    } else {
        0
    }
}

/// The words of `s`: its maximal runs of non-white-space characters, in
/// order (`str::split_whitespace`).
pub open spec fn words(s: Seq<char>) -> Seq<Seq<char>>
    decreases s.len(),
{
    let t = trim_start(s);
    if t.len() == 0 {
        seq![]
    } else {
        let n = word_len(t);
        proof {
            lemma_trim_start(s);
            lemma_word_len_bounds(t);
        }
        seq![t.take(n as int)] + words(t.skip(n as int))
    }
}

/// The leading white space of `s` is dropped: what is left is a suffix of
/// `s` that is empty or starts with a non-white-space character.
pub proof fn lemma_trim_start(s: Seq<char>)
    ensures
        trim_start(s).len() <= s.len(),
        trim_start(s) == s.skip(s.len() - trim_start(s).len()),
        trim_start(s).len() > 0 ==> !is_white_space(trim_start(s)[0]),
    decreases s.len(),
{
    if s.len() > 0 && is_white_space(s[0]) {
        lemma_trim_start(s.drop_first());
        assert(s.drop_first().skip(s.drop_first().len() - trim_start(s).len()) =~= s.skip(
            s.len() - trim_start(s).len(),
        ));
    } else {
        assert(s.skip(0) =~= s);
    }
}

/// A word is non-empty when the text starts with a non-white-space
/// character, and never longer than the text.
pub proof fn lemma_word_len_bounds(s: Seq<char>)
    ensures
        word_len(s) <= s.len(),
        s.len() > 0 && !is_white_space(s[0]) ==> word_len(s) > 0,
    decreases s.len(),
{
    if s.len() > 0 && !is_white_space(s[0]) {
        lemma_word_len_bounds(s.drop_first());
    }
}

/// The word that starts `s` ends at the first white space, or at the end.
proof fn lemma_word_len(s: Seq<char>, n: int)
    requires
        0 <= n <= s.len(),
        forall|k: int| 0 <= k < n ==> !is_white_space(#[trigger] s[k]),
        n == s.len() || is_white_space(s[n]),
    ensures
        word_len(s) == n,
    decreases n,
{
    if n > 0 {
        lemma_word_len(s.drop_first(), n - 1);
    }
}

/// A string of views of strings.
pub open spec fn views(v: Seq<String>) -> Seq<Seq<char>> {
    v.map_values(|w: String| w@)
}

/// Appends one character to a string (`String::push`).
#[verifier::external_body]
fn push_char(s: &mut String, c: char)
    ensures
        final(s)@ == old(s)@.push(c),
{
    s.push(c);
}

/// The characters of `s`, in order.
pub fn chars_of(s: &str) -> (r: Vec<char>)
    ensures
        r@ == s@,
{
    let mut v: Vec<char> = Vec::new();
    for c in it: s.chars()
        invariant
            v@ == it.seq().take(it.index() as int),
    {
        v.push(c);
    }
    v
}

/// The string made of `s[start..end]`.
fn string_of_range(s: &Vec<char>, start: usize, end: usize) -> (r: String)
    requires
        start <= end <= s.len(),
    ensures
        r@ == s@.subrange(start as int, end as int),
{
    let mut r = String::new();
    let mut i = start;
    while i < end
        invariant
            start <= i <= end <= s.len(),
            r@ == s@.subrange(start as int, i as int),
        decreases end - i,
    {
        push_char(&mut r, s[i]);
        assert(r@ =~= s@.subrange(start as int, i + 1));
        i += 1;
    }
    r
}

/// `s` without leading and trailing white space.
pub fn trim_chars(s: &Vec<char>) -> (r: String)
    ensures
        r@ == trim(s@),
{
    let mut i: usize = 0;
    assert(s@.skip(0) =~= s@);
    while i < s.len() && is_white_space_char(s[i])
        invariant
            i <= s.len(),
            trim_start(s@) == trim_start(s@.skip(i as int)),
        decreases s.len() - i,
    {
        assert(s@.skip(i as int).drop_first() =~= s@.skip(i + 1));
        i += 1;
    }
    let ghost t = s@.skip(i as int);
    assert(trim_start(t) == t);
    let mut j: usize = s.len();
    while j > i && is_white_space_char(s[j - 1])
        invariant
            i <= j <= s.len(),
            trim_end(t) == trim_end(s@.subrange(i as int, j as int)),
        decreases j - i,
    {
        assert(s@.subrange(i as int, j as int).drop_last() =~= s@.subrange(i as int, j - 1));
        j -= 1;
    }
    assert(t =~= s@.subrange(i as int, s.len() as int));
    string_of_range(s, i, j)
}

/// The words of `s`, in order.
pub fn split_words(s: &Vec<char>) -> (r: Vec<String>)
    ensures
        views(r@) == words(s@),
{
    let mut r: Vec<String> = Vec::new();
    let mut i: usize = 0;
    assert(s@.skip(0) =~= s@);
    while i < s.len()
        invariant
            i <= s.len(),
            words(s@) == views(r@) + words(s@.skip(i as int)),
        decreases s.len() - i,
    {
        if is_white_space_char(s[i]) {
            assert(s@.skip(i as int).drop_first() =~= s@.skip(i + 1));
            i += 1;
        } else {
            let start = i;
            while i < s.len() && !is_white_space_char(s[i])
                invariant
                    start <= i <= s.len(),
                    forall|k: int| start <= k < i ==> !is_white_space(#[trigger] s@[k]),
                decreases s.len() - i,
            {
                i += 1;
            }
            let w = string_of_range(s, start, i);
            proof {
                let t = s@.skip(start as int);
                lemma_word_len(t, i - start);
                assert(trim_start(t) == t);
                assert(t.take(i - start) =~= w@);
                assert(t.skip(i - start) =~= s@.skip(i as int));
                assert(views(r@.push(w)) =~= views(r@).push(w@));
            }
            r.push(w);
        }
    }
    assert(views(r@) + words(s@.skip(i as int)) =~= views(r@));
    r
}

// ---------------------------------------------------------------------------
// Unsigned integers
// ---------------------------------------------------------------------------

/// An ASCII decimal digit.
pub open spec fn is_ascii_digit(c: char) -> bool {
    0x30 <= c as u32 <= 0x39
}

/// Every character of `s` is an ASCII decimal digit.
pub open spec fn all_digits(s: Seq<char>) -> bool {
    forall|i: int| 0 <= i < s.len() ==> is_ascii_digit(#[trigger] s[i])
}

/// The value of the decimal digits `s`, most significant first.
pub open spec fn digits_value(s: Seq<char>) -> nat
    decreases s.len(),
{
    if s.len() == 0 {
        0
    } else {
        digits_value(s.drop_last()) * 10 + (s.last() as u32 - 0x30) as nat
    }
}

/// The digits of an unsigned number: the text after an optional `+` sign.
pub open spec fn unsigned_digits(s: Seq<char>) -> Seq<char> {
    if s.len() > 0 && s[0] == '+' {
        s.drop_first()
    } else {
        s
    }
}

/// What `str::parse` gives for an unsigned integer type whose largest value
/// is `max`: an optional `+`, then one or more ASCII digits whose value is at
/// most `max`; anything else is an error.
pub open spec fn unsigned_value(s: Seq<char>, max: int) -> Option<int> {
    let d = unsigned_digits(s);
    if d.len() > 0 && all_digits(d) && digits_value(d) <= max {
        Some(digits_value(d) as int)
    } else {
        None
    }
}

/// Parses `s` as an unsigned integer of at most `max`.
pub fn parse_unsigned(s: &Vec<char>, max: u64) -> (r: Option<u64>)
    ensures
        match r {
            Some(v) => unsigned_value(s@, max as int) == Some(v as int),
            None => unsigned_value(s@, max as int) is None,
        },
{
    let start: usize = if s.len() > 0 && s[0] == '+' {
        1
    } else {
        0
    };
    let ghost d = unsigned_digits(s@);
    assert(d =~= s@.skip(start as int));
    if start == s.len() {
        return None;
    }
    let mut value: u64 = 0;
    let mut over = false;
    let mut i = start;
    assert(s@.subrange(start as int, start as int) =~= Seq::<char>::empty());
    while i < s.len()
        invariant
            start <= i <= s.len(),
            d == s@.skip(start as int),
            d == unsigned_digits(s@),
            forall|k: int| start <= k < i ==> is_ascii_digit(#[trigger] s@[k]),
            !over ==> value == digits_value(s@.subrange(start as int, i as int)) && value <= max,
            over ==> digits_value(s@.subrange(start as int, i as int)) > max,
        decreases s.len() - i,
    {
        let c = s[i];
        let n = c as u32;
        if !(0x30 <= n && n <= 0x39) {
            assert(d[i - start] == c);
            assert(!all_digits(d));
            return None;
        }
        let ghost prev = s@.subrange(start as int, i as int);
        assert(s@.subrange(start as int, i + 1).drop_last() =~= prev);
        if !over {
            let digit = (n - 0x30) as u64;
            match value.checked_mul(10) {
                Some(m) => match m.checked_add(digit) {
                    Some(v) => {
                        if v <= max {
                            value = v;
                        } else {
                            over = true;
                        }
                    },
                    None => {
                        over = true;
                    },
                },
                None => {
                    over = true;
                },
            }
        }
        i += 1;
    }
    assert(s@.subrange(start as int, s.len() as int) =~= d);
    if over {
        None
    } else {
        Some(value)
    }
}

// ---------------------------------------------------------------------------
// Commands
// ---------------------------------------------------------------------------

pub const EMPTY_COMMAND: &'static str = "Empty command. Type /help for available commands.";
pub const UNKNOWN_INPUT_PREFIX: &'static str = "Unknown input \"";
pub const UNKNOWN_INPUT_SUFFIX: &'static str = "\". Commands start with /. Type /help for help.";
pub const UNKNOWN_COMMAND_PREFIX: &'static str = "Unknown command \"";
pub const UNKNOWN_COMMAND_SUFFIX: &'static str = "\". Type /help for available commands.";
pub const SIMULATE_USAGE: &'static str = "Usage: /simulate <duration_seconds> or /simulate <N>steps";
pub const INVALID_STEPS_PREFIX: &'static str = "Invalid step count \"";
pub const INVALID_STEPS_SUFFIX: &'static str = "\". Must be a positive integer.";
pub const PLOT_USAGE: &'static str = "Usage: /plot <signal1> [signal2 ...] [-o output.svg]";
pub const PLOT_MISSING_PATH: &'static str = "Expected file path after -o flag.";
pub const PLOT_NO_SIGNALS: &'static str = "No signal names provided. Usage: /plot <signal1> [signal2 ...]";
pub const INVALID_DURATION_PREFIX: &'static str = "Invalid duration \"";
pub const INVALID_DURATION_SUFFIX: &'static str =
    "\". Provide a positive number (seconds) or e.g. 100steps.";
pub const SET_USAGE: &'static str = "Usage: /set <name> <value>";
pub const INVALID_VALUE_PREFIX: &'static str = "Invalid value \"";
pub const INVALID_VALUE_SUFFIX: &'static str = "\". Must be a number.";
pub const SAVE_USAGE: &'static str = "Usage: /save <filename.csv>";
pub const FORMAT_INVALID_PREFIX: &'static str = "Invalid format argument \"";
pub const FORMAT_INVALID_SUFFIX: &'static str =
    "\". Use: /format [default|fixed|scientific] [precision]";

/// How long to simulate.
#[derive(Debug, Clone, PartialEq)]
pub enum SimulateArg {
    /// A duration in seconds: the text of a positive real number, as
    /// written (converted by the caller).
    Duration(String),
    /// A number of steps.
    Steps(u64),
}

#[derive(Debug, Clone, PartialEq)]
pub struct PlotArgs {
    pub signals: Vec<String>,
    pub output: Option<String>,
}

#[derive(Debug, Clone, PartialEq)]
pub struct FormatArgs {
    pub notation: Option<String>,
    pub precision: Option<usize>,
}

#[derive(Debug, Clone, PartialEq)]
pub struct ParseError {
    pub message: String,
}

/// Parsed CLI command.
#[derive(Debug, Clone, PartialEq)]
pub enum Command {
    /// Run simulation for a duration (seconds) or a number of steps.
    Simulate(SimulateArg),
    /// Generate an SVG plot of the named signals.
    Plot(PlotArgs),
    /// Set a scenario parameter: its name, and its value, the text of a real
    /// number as written (converted by the caller).
    SetParam(String, String),
    /// Export logged data to a CSV file.
    Save(String),
    /// Reset simulation to t=0 and re-initialize the scenario.
    Reset,
    /// Print current simulation status (time, step count, params).
    Status,
    /// List all logged signal names.
    Signals,
    /// List all parameters and their values.
    Params,
    /// Show the latest value of all or selected signals.
    Snapshot(Vec<String>),
    /// Configure display notation and/or precision.
    Format(FormatArgs),
    /// Print help text.
    Help,
    /// Exit the REPL.
    Quit,
}

/// [`SimulateArg`] as mathematical values.
pub enum SimulateArgSpec {
    Duration(Seq<char>),
    Steps(int),
}

/// [`Command`] as mathematical values.
pub enum CommandSpec {
    Simulate(SimulateArgSpec),
    Plot(Seq<Seq<char>>, Option<Seq<char>>),
    SetParam(Seq<char>, Seq<char>),
    Save(Seq<char>),
    Reset,
    Status,
    Signals,
    Params,
    Snapshot(Seq<Seq<char>>),
    Format(Option<Seq<char>>, Option<int>),
    Help,
    Quit,
}

/// The text of an optional string.
pub open spec fn opt_view(o: Option<String>) -> Option<Seq<char>> {
    match o {
        Some(s) => Some(s@),
        None => None,
    }
}

impl View for Command {
    type V = CommandSpec;

    open spec fn view(&self) -> CommandSpec {
        match self {
            Command::Simulate(SimulateArg::Duration(d)) => CommandSpec::Simulate(
                SimulateArgSpec::Duration(d@),
            ),
            Command::Simulate(SimulateArg::Steps(n)) => CommandSpec::Simulate(
                SimulateArgSpec::Steps(*n as int),
            ),
            Command::Plot(p) => CommandSpec::Plot(views(p.signals@), opt_view(p.output)),
            Command::SetParam(n, v) => CommandSpec::SetParam(n@, v@),
            Command::Save(p) => CommandSpec::Save(p@),
            Command::Reset => CommandSpec::Reset,
            Command::Status => CommandSpec::Status,
            Command::Signals => CommandSpec::Signals,
            Command::Params => CommandSpec::Params,
            Command::Snapshot(names) => CommandSpec::Snapshot(views(names@)),
            Command::Format(f) => CommandSpec::Format(
                opt_view(f.notation),
                match f.precision {
                    Some(p) => Some(p as int),
                    None => None,
                },
            ),
            Command::Help => CommandSpec::Help,
            Command::Quit => CommandSpec::Quit,
        }
    }
}

/// A parse result as mathematical values: the command, or the error message.
pub open spec fn result_view(r: Result<Command, ParseError>) -> Result<CommandSpec, Seq<char>> {
    match r {
        Ok(c) => Ok(c@),
        Err(e) => Err(e.message@),
    }
}

/// `s` ends with `suffix`.
pub open spec fn ends_with(s: Seq<char>, suffix: Seq<char>) -> bool {
    s.len() >= suffix.len() && s.skip(s.len() - suffix.len()) == suffix
}

/// `s` without its last `suffix.len()` characters.
pub open spec fn without_suffix(s: Seq<char>, suffix: Seq<char>) -> Seq<char> {
    s.take(s.len() - suffix.len())
}

/// The number part of a step count written `<N>steps` (a trailing `step`
/// before `steps` is dropped too).
pub open spec fn step_count_digits(arg: Seq<char>) -> Seq<char> {
    let n = without_suffix(arg, "steps"@);
    if ends_with(n, "step"@) {
        without_suffix(n, "step"@)
    } else {
        n
    }
}

/// `/simulate <duration_seconds>` or `/simulate <N>steps`. A duration must
/// be the text of a positive real number ([`is_positive_real_text`]). A text
/// whose value is too small for an `f64` (such as `1e-400`, which rounds to
/// zero) passes this check; rounding is the caller's conversion.
pub open spec fn simulate_spec(args: Seq<Seq<char>>) -> Result<CommandSpec, Seq<char>> {
    if args.len() == 0 {
        Err(SIMULATE_USAGE@)
    } else {
        let arg = args[0];
        if ends_with(arg, "steps"@) {
            match unsigned_value(step_count_digits(arg), u64::MAX as int) {
                Some(n) if n > 0 => Ok(CommandSpec::Simulate(SimulateArgSpec::Steps(n))),
                _ => Err(INVALID_STEPS_PREFIX@ + arg + INVALID_STEPS_SUFFIX@),
            }
        } else if is_positive_real_text(arg) {
            Ok(CommandSpec::Simulate(SimulateArgSpec::Duration(arg)))
        } else {
            Err(INVALID_DURATION_PREFIX@ + arg + INVALID_DURATION_SUFFIX@)
        }
    }
}

/// The flag that introduces the output path of a plot.
pub open spec fn is_output_flag(arg: Seq<char>) -> bool {
    arg == "-o"@ || arg == "--output"@
}

/// Scans the arguments of `/plot`: the signal names, and the path after the
/// last output flag; `None` when a flag ends the arguments.
pub open spec fn plot_scan(
    args: Seq<Seq<char>>,
    signals: Seq<Seq<char>>,
    output: Option<Seq<char>>,
) -> Option<(Seq<Seq<char>>, Option<Seq<char>>)>
    decreases args.len(),
{
    if args.len() == 0 {
        Some((signals, output))
    } else if is_output_flag(args[0]) {
        if args.len() >= 2 {
            plot_scan(args.skip(2), signals, Some(args[1]))
        } else {
            None
        }
    } else {
        plot_scan(args.drop_first(), signals.push(args[0]), output)
    }
}

/// `/plot <signal1> [signal2 ...] [-o output.svg]`.
pub open spec fn plot_spec(args: Seq<Seq<char>>) -> Result<CommandSpec, Seq<char>> {
    if args.len() == 0 {
        Err(PLOT_USAGE@)
    } else {
        match plot_scan(args, seq![], None) {
            None => Err(PLOT_MISSING_PATH@),
            Some((signals, output)) => if signals.len() == 0 {
                Err(PLOT_NO_SIGNALS@)
            } else {
                Ok(CommandSpec::Plot(signals, output))
            },
        }
    }
}

/// A display notation accepted by `/format`.
pub open spec fn is_notation(arg: Seq<char>) -> bool {
    arg == "default"@ || arg == "fixed"@ || arg == "scientific"@ || arg == "sci"@
}

/// Scans the arguments of `/format`: the last notation and the last
/// precision given; the first argument that is neither is an error.
pub open spec fn format_scan(
    args: Seq<Seq<char>>,
    notation: Option<Seq<char>>,
    precision: Option<int>,
) -> Result<CommandSpec, Seq<char>>
    decreases args.len(),
{
    if args.len() == 0 {
        Ok(CommandSpec::Format(notation, precision))
    } else if is_notation(args[0]) {
        format_scan(args.drop_first(), Some(args[0]), precision)
    } else {
        match unsigned_value(args[0], usize::MAX as int) {
            Some(p) => format_scan(args.drop_first(), notation, Some(p)),
            None => Err(FORMAT_INVALID_PREFIX@ + args[0] + FORMAT_INVALID_SUFFIX@),
        }
    }
}

/// The command named `name` (already lower-cased) applied to `args`.
pub open spec fn command_spec(name: Seq<char>, args: Seq<Seq<char>>) -> Result<
    CommandSpec,
    Seq<char>,
> {
    if name == "/simulate"@ || name == "/sim"@ || name == "/run"@ {
        simulate_spec(args)
    } else if name == "/plot"@ {
        plot_spec(args)
    } else if name == "/set"@ {
        if args.len() < 2 {
            Err(SET_USAGE@)
        } else if is_real_text(args[1]) {
            Ok(CommandSpec::SetParam(args[0], args[1]))
        } else {
            Err(INVALID_VALUE_PREFIX@ + args[1] + INVALID_VALUE_SUFFIX@)
        }
    } else if name == "/save"@ || name == "/export"@ {
        if args.len() == 0 {
            Err(SAVE_USAGE@)
        } else {
            Ok(CommandSpec::Save(args[0]))
        }
    } else if name == "/reset"@ {
        Ok(CommandSpec::Reset)
    } else if name == "/status"@ {
        Ok(CommandSpec::Status)
    } else if name == "/signals"@ || name == "/sigs"@ {
        Ok(CommandSpec::Signals)
    } else if name == "/params"@ {
        Ok(CommandSpec::Params)
    } else if name == "/snapshot"@ || name == "/snap"@ {
        Ok(CommandSpec::Snapshot(args))
    } else if name == "/format"@ || name == "/fmt"@ {
        format_scan(args, None, None)
    } else if name == "/help"@ || name == "/h"@ || name == "/?"@ {
        Ok(CommandSpec::Help)
    } else if name == "/quit"@ || name == "/exit"@ || name == "/q"@ {
        Ok(CommandSpec::Quit)
    } else {
        Err(UNKNOWN_COMMAND_PREFIX@ + name + UNKNOWN_COMMAND_SUFFIX@)
    }
}

/// The lower-case form of a text, as `str::to_lowercase` gives it.
pub uninterp spec fn lowercase_of(s: Seq<char>) -> Seq<char>;

/// Every character of `s` is ASCII.
pub open spec fn is_ascii(s: Seq<char>) -> bool {
    forall|k: int| 0 <= k < s.len() ==> (#[trigger] s[k]) as u32 <= 0x7f
}

/// `c` in lower case when it is an ASCII upper-case letter; otherwise `c`.
pub open spec fn ascii_lower(c: char) -> char {
    if 'A' <= c && c <= 'Z' {
        ((c as u32) + 32) as char
    } else {
        c
    }
}

/// `s` with every ASCII upper-case letter replaced by its lower-case form.
pub open spec fn ascii_lowercase(s: Seq<char>) -> Seq<char> {
    s.map_values(|c: char| ascii_lower(c))
}

/// `str::to_lowercase`: the text with every character replaced by its
/// Unicode lower-case mapping. The result is named, not stated, except for
/// an ASCII text, which the Unicode mapping lowers letter by letter: `A`-`Z`
/// become `a`-`z` and every other ASCII character stays as it is.
#[verifier::external_body]
fn to_lowercase(s: &str) -> (r: String)
    ensures
        r@ == lowercase_of(s@),
        is_ascii(s@) ==> r@ == ascii_lowercase(s@),
{
    s.to_lowercase()
}

/// What a command line parses to: an error when it holds only white space,
/// or when its trimmed text does not start with `/`; otherwise the command
/// named by its first word, lower-cased, applied to its other words.
pub open spec fn parse_spec(input: Seq<char>) -> Result<CommandSpec, Seq<char>> {
    let t = trim(input);
    if t.len() == 0 {
        Err(EMPTY_COMMAND@)
    } else if t[0] != '/' {
        Err(UNKNOWN_INPUT_PREFIX@ + t + UNKNOWN_INPUT_SUFFIX@)
    } else {
        let w = words(input);
        command_spec(lowercase_of(w[0]), w.skip(1))
    }
}

/// [`parse_spec`] for a command line whose first word is ASCII: the first
/// word is lowered letter by letter.
pub open spec fn parse_ascii_spec(input: Seq<char>) -> Result<CommandSpec, Seq<char>> {
    let t = trim(input);
    if t.len() == 0 {
        Err(EMPTY_COMMAND@)
    } else if t[0] != '/' {
        Err(UNKNOWN_INPUT_PREFIX@ + t + UNKNOWN_INPUT_SUFFIX@)
    } else {
        let w = words(input);
        command_spec(ascii_lowercase(w[0]), w.skip(1))
    }
}

/// The first word of a command line, or the empty text when it has none.
pub open spec fn first_word(input: Seq<char>) -> Seq<char> {
    if words(input).len() > 0 {
        words(input)[0]
    } else {
        seq![]
    }
}

// ---------------------------------------------------------------------------
// Parsing
// ---------------------------------------------------------------------------

/// Whether the text of `s` is `lit`.
fn text_is(s: &String, lit: &str) -> (r: bool)
    ensures
        r == (s@ == lit@),
{
    let l = String::from_str(lit);
    *s == l
}

/// An error with the message `message`.
fn error(message: &str) -> (r: ParseError)
    ensures
        r.message@ == message@,
{
    ParseError { message: String::from_str(message) }
}

/// An error whose message quotes `item` between `prefix` and `suffix`.
fn quoted_error(prefix: &str, item: &str, suffix: &str) -> (r: ParseError)
    ensures
        r.message@ == prefix@ + item@ + suffix@,
{
    let mut m = String::from_str(prefix);
    m.append(item);
    m.append(suffix);
    ParseError { message: m }
}

/// Copies of `v[from..]`.
fn strings_from(v: &Vec<String>, from: usize) -> (r: Vec<String>)
    requires
        from <= v.len(),
    ensures
        views(r@) == views(v@).skip(from as int),
{
    let mut r: Vec<String> = Vec::new();
    let mut i = from;
    while i < v.len()
        invariant
            from <= i <= v.len(),
            views(r@) == views(v@).subrange(from as int, i as int),
        decreases v.len() - i,
    {
        let ghost prev = r@;
        let c = v[i].clone();
        r.push(c);
        assert(views(r@) =~= views(prev).push(v@[i as int]@));
        assert(views(r@) =~= views(v@).subrange(from as int, i + 1));
        i += 1;
    }
    assert(views(v@).subrange(from as int, v.len() as int) =~= views(v@).skip(from as int));
    r
}

/// Whether `s` ends with `suffix`.
fn text_ends_with(s: &Vec<char>, suffix: &str) -> (r: bool)
    ensures
        r == ends_with(s@, suffix@),
{
    let suf = chars_of(suffix);
    if s.len() < suf.len() {
        return false;
    }
    let off = s.len() - suf.len();
    let mut i: usize = 0;
    while i < suf.len()
        invariant
            off == s.len() - suf.len(),
            suf@ == suffix@,
            i <= suf.len(),
            forall|k: int| 0 <= k < i ==> s@[off + k] == suf@[k],
        decreases suf.len() - i,
    {
        if s[off + i] != suf[i] {
            assert(s@.skip(off as int)[i as int] != suf@[i as int]);
            return false;
        }
        i += 1;
    }
    assert(s@.skip(off as int) =~= suf@);
    true
}

/// The step count of `/simulate <N>steps`, from an argument ending in
/// `steps`.
fn parse_step_count(arg: &String) -> (r: Result<Command, ParseError>)
    requires
        ends_with(arg@, "steps"@),
    ensures
        result_view(r) == match unsigned_value(step_count_digits(arg@), u64::MAX as int) {
            Some(n) if n > 0 => Ok(CommandSpec::Simulate(SimulateArgSpec::Steps(n))),
            _ => Err(INVALID_STEPS_PREFIX@ + arg@ + INVALID_STEPS_SUFFIX@),
        },
{
    let chars = chars_of(arg.as_str());
    let steps_len = chars_of("steps").len();
    let mut digits: Vec<char> = Vec::new();
    let mut i: usize = 0;
    while i < chars.len() - steps_len
        invariant
            steps_len == "steps"@.len(),
            chars@ == arg@,
            chars.len() >= steps_len,
            i <= chars.len() - steps_len,
            digits@ == chars@.take(i as int),
        decreases chars.len() - steps_len - i,
    {
        digits.push(chars[i]);
        i += 1;
    }
    assert(digits@ =~= without_suffix(arg@, "steps"@));
    if text_ends_with(&digits, "step") {
        let step_len = chars_of("step").len();
        digits.truncate(digits.len() - step_len);
        assert(digits@ =~= without_suffix(without_suffix(arg@, "steps"@), "step"@));
    }
    match parse_unsigned(&digits, u64::MAX) {
        Some(n) => {
            if n > 0 {
                Ok(Command::Simulate(SimulateArg::Steps(n)))
            } else {
                Err(quoted_error(INVALID_STEPS_PREFIX, arg.as_str(), INVALID_STEPS_SUFFIX))
            }
        },
        None => Err(quoted_error(INVALID_STEPS_PREFIX, arg.as_str(), INVALID_STEPS_SUFFIX)),
    }
}

/// `/simulate <duration_seconds>` or `/simulate <N>steps`.
pub fn parse_simulate(args: &Vec<String>) -> (r: Result<Command, ParseError>)
    ensures
        result_view(r) == simulate_spec(views(args@)),
{
    if args.len() == 0 {
        return Err(error(SIMULATE_USAGE));
    }
    let arg = &args[0];
    let chars = chars_of(arg.as_str());
    if text_ends_with(&chars, "steps") {
        parse_step_count(arg)
    } else {
        match real_text_kind(&chars) {
            Some(true) => Ok(Command::Simulate(SimulateArg::Duration(arg.clone()))),
            _ => Err(quoted_error(INVALID_DURATION_PREFIX, arg.as_str(), INVALID_DURATION_SUFFIX)),
        }
    }
}

/// `/plot <signal1> [signal2 ...] [-o output.svg]`.
pub fn parse_plot(args: &Vec<String>) -> (r: Result<Command, ParseError>)
    ensures
        result_view(r) == plot_spec(views(args@)),
{
    if args.len() == 0 {
        return Err(error(PLOT_USAGE));
    }
    let ghost all = views(args@);
    let mut signals: Vec<String> = Vec::new();
    let mut output: Option<String> = None;
    let mut i: usize = 0;
    assert(all.skip(0) =~= all);
    assert(views(signals@) =~= seq![]);
    while i < args.len()
        invariant
            all == views(args@),
            i <= args.len(),
            plot_scan(all, seq![], None) == plot_scan(all.skip(i as int), views(signals@), opt_view(output)),
        decreases args.len() - i,
    {
        let arg = &args[i];
        if text_is(arg, "-o") || text_is(arg, "--output") {
            if i + 1 < args.len() {
                output = Some(args[i + 1].clone());
                assert(all.skip(i as int).skip(2) =~= all.skip(i + 2));
                i += 2;
            } else {
                return Err(error(PLOT_MISSING_PATH));
            }
        } else {
            let ghost prev = signals@;
            signals.push(arg.clone());
            assert(all.skip(i as int).drop_first() =~= all.skip(i + 1));
            assert(views(signals@) =~= views(prev).push(arg@));
            i += 1;
        }
    }
    if signals.len() == 0 {
        return Err(error(PLOT_NO_SIGNALS));
    }
    Ok(Command::Plot(PlotArgs { signals, output }))
}

/// `/format [default|fixed|scientific|sci] [precision]`.
pub fn parse_format(args: &Vec<String>) -> (r: Result<Command, ParseError>)
    ensures
        result_view(r) == format_scan(views(args@), None, None),
{
    let ghost all = views(args@);
    let mut notation: Option<String> = None;
    let mut precision: Option<usize> = None;
    let mut i: usize = 0;
    assert(all.skip(0) =~= all);
    while i < args.len()
        invariant
            all == views(args@),
            i <= args.len(),
            format_scan(all, None, None) == format_scan(
                all.skip(i as int),
                opt_view(notation),
                match precision {
                    Some(p) => Some(p as int),
                    None => None,
                },
            ),
        decreases args.len() - i,
    {
        let arg = &args[i];
        assert(all.skip(i as int).drop_first() =~= all.skip(i + 1));
        if text_is(arg, "default") || text_is(arg, "fixed") || text_is(arg, "scientific")
            || text_is(arg, "sci") {
            notation = Some(arg.clone());
        } else {
            let chars = chars_of(arg.as_str());
            match parse_unsigned(&chars, usize::MAX as u64) {
                Some(p) => {
                    precision = Some(p as usize);
                },
                None => {
                    return Err(quoted_error(FORMAT_INVALID_PREFIX, arg.as_str(), FORMAT_INVALID_SUFFIX));
                },
            }
        }
        i += 1;
    }
    Ok(Command::Format(FormatArgs { notation, precision }))
}

/// The command named `name` (already lower-cased) applied to `args`.
pub fn parse_command(name: &String, args: &Vec<String>) -> (r: Result<Command, ParseError>)
    ensures
        result_view(r) == command_spec(name@, views(args@)),
{
    if text_is(name, "/simulate") || text_is(name, "/sim") || text_is(name, "/run") {
        parse_simulate(args)
    } else if text_is(name, "/plot") {
        parse_plot(args)
    } else if text_is(name, "/set") {
        if args.len() < 2 {
            Err(error(SET_USAGE))
        } else {
            let value = chars_of(args[1].as_str());
            match real_text_kind(&value) {
                Some(_) => Ok(Command::SetParam(args[0].clone(), args[1].clone())),
                None => Err(quoted_error(INVALID_VALUE_PREFIX, args[1].as_str(), INVALID_VALUE_SUFFIX)),
            }
        }
    } else if text_is(name, "/save") || text_is(name, "/export") {
        if args.len() == 0 {
            Err(error(SAVE_USAGE))
        } else {
            Ok(Command::Save(args[0].clone()))
        }
    } else if text_is(name, "/reset") {
        Ok(Command::Reset)
    } else if text_is(name, "/status") {
        Ok(Command::Status)
    } else if text_is(name, "/signals") || text_is(name, "/sigs") {
        Ok(Command::Signals)
    } else if text_is(name, "/params") {
        Ok(Command::Params)
    } else if text_is(name, "/snapshot") || text_is(name, "/snap") {
        let names = strings_from(args, 0);
        assert(views(args@).skip(0) =~= views(args@));
        Ok(Command::Snapshot(names))
    } else if text_is(name, "/format") || text_is(name, "/fmt") {
        parse_format(args)
    } else if text_is(name, "/help") || text_is(name, "/h") || text_is(name, "/?") {
        Ok(Command::Help)
    } else if text_is(name, "/quit") || text_is(name, "/exit") || text_is(name, "/q") {
        Ok(Command::Quit)
    } else {
        Err(quoted_error(UNKNOWN_COMMAND_PREFIX, name.as_str(), UNKNOWN_COMMAND_SUFFIX))
    }
}

/// A text that is not empty once trimmed has at least one word, and its
/// first word starts with the first character of the trimmed text.
pub proof fn lemma_trim_and_words(s: Seq<char>)
    ensures
        trim(s).len() > 0 ==> words(s).len() > 0 && words(s)[0].len() > 0 && words(s)[0][0]
            == trim(s)[0],
{
    let t = trim_start(s);
    lemma_trim_start(s);
    lemma_trim_end_prefix(t);
    if t.len() > 0 {
        lemma_word_len_bounds(t);
    }
}

/// Trailing white space is dropped from the end only: what is left is a
/// prefix.
pub proof fn lemma_trim_end_prefix(s: Seq<char>)
    ensures
        trim_end(s).len() <= s.len(),
        trim_end(s) == s.take(trim_end(s).len() as int),
        s.len() > 0 && !is_white_space(s[0]) ==> trim_end(s).len() > 0,
    decreases s.len(),
{
    if s.len() > 0 && is_white_space(s.last()) {
        lemma_trim_end_prefix(s.drop_last());
        assert(s.drop_last().take(trim_end(s).len() as int) =~= s.take(trim_end(s).len() as int));
    } else {
        assert(s.take(s.len() as int) =~= s);
    }
}

/// Parse a raw input line into a [`Command`].
pub fn parse(input: &str) -> (r: Result<Command, ParseError>)
    ensures
        result_view(r) == parse_spec(input@),
        is_ascii(first_word(input@)) ==> result_view(r) == parse_ascii_spec(input@),
{
    let chars = chars_of(input);
    let trimmed = trim_chars(&chars);
    let tc = chars_of(trimmed.as_str());
    if tc.len() == 0 {
        return Err(error(EMPTY_COMMAND));
    }
    if tc[0] != '/' {
        return Err(quoted_error(UNKNOWN_INPUT_PREFIX, trimmed.as_str(), UNKNOWN_INPUT_SUFFIX));
    }
    let parts = split_words(&chars);
    proof {
        lemma_trim_and_words(input@);
    }
    let name = to_lowercase(parts[0].as_str());
    let args = strings_from(&parts, 1);
    parse_command(&name, &args)
}

// ---------------------------------------------------------------------------
// Laws
// ---------------------------------------------------------------------------

/// The aliases of a command parse as the command itself: `/sim` and `/run`
/// as `/simulate`, `/export` as `/save`, `/sigs` as `/signals`, `/snap` as
/// `/snapshot`, `/fmt` as `/format`, `/h` and `/?` as `/help`, `/exit` and
/// `/q` as `/quit`.
pub proof fn lemma_command_aliases(args: Seq<Seq<char>>)
    ensures
        command_spec("/sim"@, args) == command_spec("/simulate"@, args),
        command_spec("/run"@, args) == command_spec("/simulate"@, args),
        command_spec("/export"@, args) == command_spec("/save"@, args),
        command_spec("/sigs"@, args) == command_spec("/signals"@, args),
        command_spec("/snap"@, args) == command_spec("/snapshot"@, args),
        command_spec("/fmt"@, args) == command_spec("/format"@, args),
        command_spec("/h"@, args) == command_spec("/help"@, args),
        command_spec("/?"@, args) == command_spec("/help"@, args),
        command_spec("/exit"@, args) == command_spec("/quit"@, args),
        command_spec("/q"@, args) == command_spec("/quit"@, args),
{
    reveal_strlit("/simulate");
    reveal_strlit("/sim");
    reveal_strlit("/run");
    reveal_strlit("/plot");
    reveal_strlit("/set");
    reveal_strlit("/save");
    reveal_strlit("/export");
    reveal_strlit("/reset");
    reveal_strlit("/status");
    reveal_strlit("/signals");
    reveal_strlit("/sigs");
    reveal_strlit("/params");
    reveal_strlit("/snapshot");
    reveal_strlit("/snap");
    reveal_strlit("/format");
    reveal_strlit("/fmt");
    reveal_strlit("/help");
    reveal_strlit("/h");
    reveal_strlit("/?");
    reveal_strlit("/quit");
    reveal_strlit("/exit");
    reveal_strlit("/q");
    assert("/sim"@.len() != "/simulate"@.len());
    assert("/run"@.len() != "/simulate"@.len());
    assert("/run"@[1] != "/sim"@[1]);
    assert("/export"@.len() != "/simulate"@.len());
    assert("/export"@.len() != "/sim"@.len());
    assert("/export"@.len() != "/run"@.len());
    assert("/export"@.len() != "/plot"@.len());
    assert("/export"@.len() != "/set"@.len());
    assert("/export"@.len() != "/save"@.len());
    assert("/save"@.len() != "/simulate"@.len());
    assert("/save"@.len() != "/sim"@.len());
    assert("/save"@.len() != "/run"@.len());
    assert("/save"@[1] != "/plot"@[1]);
    assert("/save"@.len() != "/set"@.len());
    assert("/sigs"@.len() != "/simulate"@.len());
    assert("/sigs"@.len() != "/sim"@.len());
    assert("/sigs"@.len() != "/run"@.len());
    assert("/sigs"@[1] != "/plot"@[1]);
    assert("/sigs"@.len() != "/set"@.len());
    assert("/sigs"@[2] != "/save"@[2]);
    assert("/sigs"@.len() != "/export"@.len());
    assert("/sigs"@.len() != "/reset"@.len());
    assert("/sigs"@.len() != "/status"@.len());
    assert("/sigs"@.len() != "/signals"@.len());
    assert("/signals"@.len() != "/simulate"@.len());
    assert("/signals"@.len() != "/sim"@.len());
    assert("/signals"@.len() != "/run"@.len());
    assert("/signals"@.len() != "/plot"@.len());
    assert("/signals"@.len() != "/set"@.len());
    assert("/signals"@.len() != "/save"@.len());
    assert("/signals"@.len() != "/export"@.len());
    assert("/signals"@.len() != "/reset"@.len());
    assert("/signals"@.len() != "/status"@.len());
    assert("/snap"@.len() != "/simulate"@.len());
    assert("/snap"@.len() != "/sim"@.len());
    assert("/snap"@.len() != "/run"@.len());
    assert("/snap"@[1] != "/plot"@[1]);
    assert("/snap"@.len() != "/set"@.len());
    assert("/snap"@[2] != "/save"@[2]);
    assert("/snap"@.len() != "/export"@.len());
    assert("/snap"@.len() != "/reset"@.len());
    assert("/snap"@.len() != "/status"@.len());
    assert("/snap"@.len() != "/signals"@.len());
    assert("/snap"@[2] != "/sigs"@[2]);
    assert("/snap"@.len() != "/params"@.len());
    assert("/snap"@.len() != "/snapshot"@.len());
    assert("/snapshot"@[2] != "/simulate"@[2]);
    assert("/snapshot"@.len() != "/sim"@.len());
    assert("/snapshot"@.len() != "/run"@.len());
    assert("/snapshot"@.len() != "/plot"@.len());
    assert("/snapshot"@.len() != "/set"@.len());
    assert("/snapshot"@.len() != "/save"@.len());
    assert("/snapshot"@.len() != "/export"@.len());
    assert("/snapshot"@.len() != "/reset"@.len());
    assert("/snapshot"@.len() != "/status"@.len());
    assert("/snapshot"@.len() != "/signals"@.len());
    assert("/snapshot"@.len() != "/sigs"@.len());
    assert("/snapshot"@.len() != "/params"@.len());
    assert("/fmt"@.len() != "/simulate"@.len());
    assert("/fmt"@[1] != "/sim"@[1]);
    assert("/fmt"@[1] != "/run"@[1]);
    assert("/fmt"@.len() != "/plot"@.len());
    assert("/fmt"@[1] != "/set"@[1]);
    assert("/fmt"@.len() != "/save"@.len());
    assert("/fmt"@.len() != "/export"@.len());
    assert("/fmt"@.len() != "/reset"@.len());
    assert("/fmt"@.len() != "/status"@.len());
    assert("/fmt"@.len() != "/signals"@.len());
    assert("/fmt"@.len() != "/sigs"@.len());
    assert("/fmt"@.len() != "/params"@.len());
    assert("/fmt"@.len() != "/snapshot"@.len());
    assert("/fmt"@.len() != "/snap"@.len());
    assert("/fmt"@.len() != "/format"@.len());
    assert("/format"@.len() != "/simulate"@.len());
    assert("/format"@.len() != "/sim"@.len());
    assert("/format"@.len() != "/run"@.len());
    assert("/format"@.len() != "/plot"@.len());
    assert("/format"@.len() != "/set"@.len());
    assert("/format"@.len() != "/save"@.len());
    assert("/format"@[1] != "/export"@[1]);
    assert("/format"@.len() != "/reset"@.len());
    assert("/format"@[1] != "/status"@[1]);
    assert("/format"@.len() != "/signals"@.len());
    assert("/format"@.len() != "/sigs"@.len());
    assert("/format"@[1] != "/params"@[1]);
    assert("/format"@.len() != "/snapshot"@.len());
    assert("/format"@.len() != "/snap"@.len());
    assert("/h"@.len() != "/simulate"@.len());
    assert("/h"@.len() != "/sim"@.len());
    assert("/h"@.len() != "/run"@.len());
    assert("/h"@.len() != "/plot"@.len());
    assert("/h"@.len() != "/set"@.len());
    assert("/h"@.len() != "/save"@.len());
    assert("/h"@.len() != "/export"@.len());
    assert("/h"@.len() != "/reset"@.len());
    assert("/h"@.len() != "/status"@.len());
    assert("/h"@.len() != "/signals"@.len());
    assert("/h"@.len() != "/sigs"@.len());
    assert("/h"@.len() != "/params"@.len());
    assert("/h"@.len() != "/snapshot"@.len());
    assert("/h"@.len() != "/snap"@.len());
    assert("/h"@.len() != "/format"@.len());
    assert("/h"@.len() != "/fmt"@.len());
    assert("/h"@.len() != "/help"@.len());
    assert("/help"@.len() != "/simulate"@.len());
    assert("/help"@.len() != "/sim"@.len());
    assert("/help"@.len() != "/run"@.len());
    assert("/help"@[1] != "/plot"@[1]);
    assert("/help"@.len() != "/set"@.len());
    assert("/help"@[1] != "/save"@[1]);
    assert("/help"@.len() != "/export"@.len());
    assert("/help"@.len() != "/reset"@.len());
    assert("/help"@.len() != "/status"@.len());
    assert("/help"@.len() != "/signals"@.len());
    assert("/help"@[1] != "/sigs"@[1]);
    assert("/help"@.len() != "/params"@.len());
    assert("/help"@.len() != "/snapshot"@.len());
    assert("/help"@[1] != "/snap"@[1]);
    assert("/help"@.len() != "/format"@.len());
    assert("/help"@.len() != "/fmt"@.len());
    assert("/?"@.len() != "/simulate"@.len());
    assert("/?"@.len() != "/sim"@.len());
    assert("/?"@.len() != "/run"@.len());
    assert("/?"@.len() != "/plot"@.len());
    assert("/?"@.len() != "/set"@.len());
    assert("/?"@.len() != "/save"@.len());
    assert("/?"@.len() != "/export"@.len());
    assert("/?"@.len() != "/reset"@.len());
    assert("/?"@.len() != "/status"@.len());
    assert("/?"@.len() != "/signals"@.len());
    assert("/?"@.len() != "/sigs"@.len());
    assert("/?"@.len() != "/params"@.len());
    assert("/?"@.len() != "/snapshot"@.len());
    assert("/?"@.len() != "/snap"@.len());
    assert("/?"@.len() != "/format"@.len());
    assert("/?"@.len() != "/fmt"@.len());
    assert("/?"@.len() != "/help"@.len());
    assert("/?"@[1] != "/h"@[1]);
    assert("/exit"@.len() != "/simulate"@.len());
    assert("/exit"@.len() != "/sim"@.len());
    assert("/exit"@.len() != "/run"@.len());
    assert("/exit"@[1] != "/plot"@[1]);
    assert("/exit"@.len() != "/set"@.len());
    assert("/exit"@[1] != "/save"@[1]);
    assert("/exit"@.len() != "/export"@.len());
    assert("/exit"@.len() != "/reset"@.len());
    assert("/exit"@.len() != "/status"@.len());
    assert("/exit"@.len() != "/signals"@.len());
    assert("/exit"@[1] != "/sigs"@[1]);
    assert("/exit"@.len() != "/params"@.len());
    assert("/exit"@.len() != "/snapshot"@.len());
    assert("/exit"@[1] != "/snap"@[1]);
    assert("/exit"@.len() != "/format"@.len());
    assert("/exit"@.len() != "/fmt"@.len());
    assert("/exit"@[1] != "/help"@[1]);
    assert("/exit"@.len() != "/h"@.len());
    assert("/exit"@.len() != "/?"@.len());
    assert("/exit"@[1] != "/quit"@[1]);
    assert("/quit"@.len() != "/simulate"@.len());
    assert("/quit"@.len() != "/sim"@.len());
    assert("/quit"@.len() != "/run"@.len());
    assert("/quit"@[1] != "/plot"@[1]);
    assert("/quit"@.len() != "/set"@.len());
    assert("/quit"@[1] != "/save"@[1]);
    assert("/quit"@.len() != "/export"@.len());
    assert("/quit"@.len() != "/reset"@.len());
    assert("/quit"@.len() != "/status"@.len());
    assert("/quit"@.len() != "/signals"@.len());
    assert("/quit"@[1] != "/sigs"@[1]);
    assert("/quit"@.len() != "/params"@.len());
    assert("/quit"@.len() != "/snapshot"@.len());
    assert("/quit"@[1] != "/snap"@[1]);
    assert("/quit"@.len() != "/format"@.len());
    assert("/quit"@.len() != "/fmt"@.len());
    assert("/quit"@[1] != "/help"@[1]);
    assert("/quit"@.len() != "/h"@.len());
    assert("/quit"@.len() != "/?"@.len());
    assert("/q"@.len() != "/simulate"@.len());
    assert("/q"@.len() != "/sim"@.len());
    assert("/q"@.len() != "/run"@.len());
    assert("/q"@.len() != "/plot"@.len());
    assert("/q"@.len() != "/set"@.len());
    assert("/q"@.len() != "/save"@.len());
    assert("/q"@.len() != "/export"@.len());
    assert("/q"@.len() != "/reset"@.len());
    assert("/q"@.len() != "/status"@.len());
    assert("/q"@.len() != "/signals"@.len());
    assert("/q"@.len() != "/sigs"@.len());
    assert("/q"@.len() != "/params"@.len());
    assert("/q"@.len() != "/snapshot"@.len());
    assert("/q"@.len() != "/snap"@.len());
    assert("/q"@.len() != "/format"@.len());
    assert("/q"@.len() != "/fmt"@.len());
    assert("/q"@.len() != "/help"@.len());
    assert("/q"@[1] != "/h"@[1]);
    assert("/q"@[1] != "/?"@[1]);
    assert("/q"@.len() != "/quit"@.len());
    assert("/q"@.len() != "/exit"@.len());
}

/// White space in front of a text is dropped by trimming and splitting.
pub proof fn lemma_leading_white_space(w: Seq<char>, s: Seq<char>)
    requires
        forall|i: int| 0 <= i < w.len() ==> is_white_space(#[trigger] w[i]),
    ensures
        trim_start(w + s) == trim_start(s),
        words(w + s) == words(s),
        trim(w + s) == trim(s),
    decreases w.len(),
{
    if w.len() > 0 {
        assert((w + s).drop_first() =~= w.drop_first() + s);
        lemma_leading_white_space(w.drop_first(), s);
    } else {
        assert(w + s =~= s);
    }
}

/// Trailing white space is dropped from the end by trimming.
proof fn lemma_trim_end_white_space(s: Seq<char>, w: Seq<char>)
    requires
        forall|i: int| 0 <= i < w.len() ==> is_white_space(#[trigger] w[i]),
    ensures
        trim_end(s + w) == trim_end(s),
    decreases w.len(),
{
    if w.len() > 0 {
        assert((s + w).drop_last() =~= s + w.drop_last());
        lemma_trim_end_white_space(s, w.drop_last());
    } else {
        assert(s + w =~= s);
    }
}

/// Trimming the start of a text followed by white space.
proof fn lemma_trim_start_append(s: Seq<char>, w: Seq<char>)
    requires
        forall|i: int| 0 <= i < w.len() ==> is_white_space(#[trigger] w[i]),
    ensures
        trim_start(s).len() > 0 ==> trim_start(s + w) == trim_start(s) + w,
        trim_start(s).len() == 0 ==> trim_start(s + w).len() == 0,
    decreases s.len(),
{
    if s.len() > 0 && is_white_space(s[0]) {
        assert((s + w).drop_first() =~= s.drop_first() + w);
        lemma_trim_start_append(s.drop_first(), w);
    } else if s.len() == 0 {
        assert(s + w =~= w);
        lemma_all_white(w);
    }
}

/// A text of white space trims to nothing.
proof fn lemma_all_white(w: Seq<char>)
    requires
        forall|i: int| 0 <= i < w.len() ==> is_white_space(#[trigger] w[i]),
    ensures
        trim_start(w).len() == 0,
    decreases w.len(),
{
    if w.len() > 0 {
        assert(forall|i: int|
            0 <= i < w.drop_first().len() ==> #[trigger] w.drop_first()[i] == w[i + 1]);
        lemma_all_white(w.drop_first());
    }
}

/// The first word of a text followed by white space is the first word of
/// the text.
proof fn lemma_word_len_append(t: Seq<char>, w: Seq<char>)
    requires
        w.len() > 0 ==> is_white_space(w[0]),
    ensures
        word_len(t + w) == word_len(t),
    decreases t.len(),
{
    if t.len() > 0 && !is_white_space(t[0]) {
        assert((t + w).drop_first() =~= t.drop_first() + w);
        lemma_word_len_append(t.drop_first(), w);
    } else if t.len() == 0 {
        assert(t + w =~= w);
    }
}

/// White space after a text does not change its words.
pub proof fn lemma_trailing_white_space(s: Seq<char>, w: Seq<char>)
    requires
        forall|i: int| 0 <= i < w.len() ==> is_white_space(#[trigger] w[i]),
    ensures
        words(s + w) == words(s),
        trim(s + w) == trim(s),
    decreases s.len(),
{
    lemma_trim_start_append(s, w);
    lemma_trim_start(s);
    let t = trim_start(s);
    if t.len() > 0 {
        lemma_word_len_bounds(t);
        lemma_word_len_append(t, w);
        let n = word_len(t);
        assert((t + w).take(n as int) =~= t.take(n as int));
        assert((t + w).skip(n as int) =~= t.skip(n as int) + w);
        lemma_trailing_white_space(t.skip(n as int), w);
        lemma_trim_end_white_space(t, w);
    } else {
        lemma_trim_start(s + w);
    }
}

/// The name of a command is matched without regard to the case of its ASCII
/// letters, while the arguments are kept as written: two command lines whose
/// first words lower to the same text, and whose other words are the same,
/// parse alike.
pub proof fn lemma_command_name_case_insensitive(a: Seq<char>, b: Seq<char>)
    requires
        trim(a).len() > 0 && trim(a)[0] == '/',
        trim(b).len() > 0 && trim(b)[0] == '/',
        ascii_lowercase(first_word(a)) == ascii_lowercase(first_word(b)),
        words(a).skip(1) == words(b).skip(1),
    ensures
        parse_ascii_spec(a) == parse_ascii_spec(b),
        parse_ascii_spec(a) == command_spec(ascii_lowercase(first_word(a)), words(a).skip(1)),
{
    lemma_trim_and_words(a);
    lemma_trim_and_words(b);
}

/// White space around a command line does not change what it parses to.
pub proof fn lemma_parse_ignores_surrounding_white_space(
    before: Seq<char>,
    line: Seq<char>,
    after: Seq<char>,
)
    requires
        forall|i: int| 0 <= i < before.len() ==> is_white_space(#[trigger] before[i]),
        forall|i: int| 0 <= i < after.len() ==> is_white_space(#[trigger] after[i]),
    ensures
        parse_spec(before + line + after) == parse_spec(line),
{
    lemma_trailing_white_space(line, after);
    lemma_leading_white_space(before, line + after);
    assert(before + line + after =~= before + (line + after));
}

} // verus!
