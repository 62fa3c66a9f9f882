//! The decisions of the interactive command loop.
//!
//! The loop reads a line (or learns that reading stopped), decides what to
//! do with it, and does it; reading, printing and running commands are the
//! caller's. [`repl_step`] is the decision: from what reading gave, the
//! action to perform.

use crate::cli::parser::{
    chars_of, parse, parse_spec, result_view, trim, trim_chars, Command, CommandSpec, ParseError,
};
use vstd::prelude::*;

verus! {

/// What reading a line gave.
#[derive(Debug, Clone, PartialEq)]
pub enum ReadOutcome {
    /// A line of input.
    Line(String),
    /// The user interrupted the input (Ctrl-C).
    Interrupted,
    /// The input ended (Ctrl-D).
    EndOfInput,
    /// Reading failed, with this description.
    Failed(String),
}

/// What the loop does next.
#[derive(Debug, Clone, PartialEq)]
pub enum ReplAction {
    /// Nothing: the line was blank. Read the next one.
    Skip,
    /// Add `history` to the line history, run `command`, and read on.
    Execute { history: String, command: Command },
    /// Add `history` to the line history, report `error`, and read on.
    Report { history: String, error: ParseError },
    /// Say goodbye and stop, after adding the line, if there is one, to the
    /// history.
    Finish(Option<String>),
    /// Report the read error and stop.
    Abort(String),
}

/// The decision for one outcome of reading: a blank line is skipped; any
/// other line goes to the history (trimmed) and is parsed; `/quit` stops
/// the loop, another command is run, a parse error is reported. An
/// interrupted or ended input stops the loop; a read error is reported and
/// stops it.
pub fn repl_step(outcome: ReadOutcome) -> (r: ReplAction)
    ensures
        match outcome {
            ReadOutcome::Line(line) => {
                if trim(line@).len() == 0 {
                    r is Skip
                } else {
                    match parse_spec(line@) {
                        Ok(CommandSpec::Quit) => r matches ReplAction::Finish(Some(h))
                            && h@ == trim(line@),
                        Ok(c) => r matches ReplAction::Execute { history, command }
                            && history@ == trim(line@) && command@ == c,
                        Err(m) => r matches ReplAction::Report { history, error }
                            && history@ == trim(line@) && error.message@ == m,
                    }
                }
            },
            ReadOutcome::Interrupted => r matches ReplAction::Finish(None),
            ReadOutcome::EndOfInput => r matches ReplAction::Finish(None),
            ReadOutcome::Failed(e) => r matches ReplAction::Abort(m) && m@ == e@,
        },
{
    match outcome {
        ReadOutcome::Line(line) => {
            let chars = chars_of(line.as_str());
            let trimmed = trim_chars(&chars);
            if trimmed.as_str().is_empty() {
                return ReplAction::Skip;
            }
            let parsed = parse(line.as_str());
            match parsed {
                Ok(Command::Quit) => ReplAction::Finish(Some(trimmed)),
                Ok(command) => ReplAction::Execute { history: trimmed, command },
                Err(error) => ReplAction::Report { history: trimmed, error },
            }
        },
        ReadOutcome::Interrupted => ReplAction::Finish(None),
        ReadOutcome::EndOfInput => ReplAction::Finish(None),
        ReadOutcome::Failed(e) => ReplAction::Abort(e),
    }
}

} // verus!
