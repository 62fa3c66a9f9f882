use pawer::cli::parser::{Command, ParseError, SimulateArg};
use pawer::cli::repl::{repl_step, ReadOutcome, ReplAction};

fn line(text: &str) -> ReadOutcome {
    ReadOutcome::Line(text.to_string())
}

#[test]
fn blank_lines_are_skipped() {
    assert_eq!(repl_step(line("")), ReplAction::Skip);
    assert_eq!(repl_step(line(" \t ")), ReplAction::Skip);
}

#[test]
fn commands_are_run_and_recorded_trimmed() {
    assert_eq!(
        repl_step(line("  /sim 20steps ")),
        ReplAction::Execute {
            history: "/sim 20steps".into(),
            command: Command::Simulate(SimulateArg::Steps(20)),
        }
    );
}

#[test]
fn parse_errors_are_reported_and_recorded() {
    assert_eq!(
        repl_step(line(" /nope ")),
        ReplAction::Report {
            history: "/nope".into(),
            error: ParseError {
                message: "Unknown command \"/nope\". Type /help for available commands.".into()
            },
        }
    );
}

#[test]
fn quit_interrupt_and_end_stop_the_loop() {
    assert_eq!(repl_step(line("/exit")), ReplAction::Finish(Some("/exit".into())));
    assert_eq!(repl_step(ReadOutcome::Interrupted), ReplAction::Finish(None));
    assert_eq!(repl_step(ReadOutcome::EndOfInput), ReplAction::Finish(None));
    assert_eq!(
        repl_step(ReadOutcome::Failed("broken pipe".into())),
        ReplAction::Abort("broken pipe".into())
    );
}
