use pawer::cli::parser::{
    chars_of, is_white_space_char, parse, parse_unsigned, Command, FormatArgs, PlotArgs,
    SimulateArg,
};

#[test]
fn parse_simulate_steps() {
    assert_eq!(
        parse("/simulate 100steps").unwrap(),
        Command::Simulate(SimulateArg::Steps(100))
    );
}

#[test]
fn parse_plot_signals() {
    assert_eq!(
        parse("/plot error output").unwrap(),
        Command::Plot(PlotArgs {
            signals: vec!["error".into(), "output".into()],
            output: None,
        })
    );
}

#[test]
fn parse_plot_with_output() {
    assert_eq!(
        parse("/plot error -o my_plot.svg").unwrap(),
        Command::Plot(PlotArgs {
            signals: vec!["error".into()],
            output: Some("my_plot.svg".into()),
        })
    );
}

#[test]
fn parse_save_file() {
    assert_eq!(
        parse("/save results.csv").unwrap(),
        Command::Save("results.csv".into())
    );
}

#[test]
fn parse_simple_commands() {
    assert_eq!(parse("/reset").unwrap(), Command::Reset);
    assert_eq!(parse("/status").unwrap(), Command::Status);
    assert_eq!(parse("/signals").unwrap(), Command::Signals);
    assert_eq!(parse("/help").unwrap(), Command::Help);
    assert_eq!(parse("/quit").unwrap(), Command::Quit);
    assert_eq!(parse("/snapshot").unwrap(), Command::Snapshot(vec![]));
}

#[test]
fn parse_snapshot_with_signals() {
    assert_eq!(
        parse("/snapshot freq_hz dq_d").unwrap(),
        Command::Snapshot(vec!["freq_hz".into(), "dq_d".into()])
    );
    assert_eq!(
        parse("/snap freq_hz").unwrap(),
        Command::Snapshot(vec!["freq_hz".into()])
    );
}

#[test]
fn parse_empty_input() {
    assert!(parse("").is_err());
    assert!(parse("   ").is_err());
}

#[test]
fn parse_unknown_command() {
    assert!(parse("/foo").is_err());
}

#[test]
fn parse_missing_slash() {
    assert!(parse("simulate 0.1").is_err());
}

fn message(input: &str) -> String {
    parse(input).unwrap_err().message
}

/// The duration of a parsed `/simulate`, converted as the caller converts it.
fn duration(input: &str) -> f64 {
    match parse(input).unwrap() {
        Command::Simulate(SimulateArg::Duration(text)) => text.parse::<f64>().unwrap(),
        other => panic!("not a duration: {:?}", other),
    }
}

#[test]
fn parse_simulate_duration() {
    assert_eq!(duration("/simulate 0.1"), 0.1);
}

#[test]
fn parse_set_param() {
    match parse("/set setpoint 1.5").unwrap() {
        Command::SetParam(name, value) => {
            assert_eq!(name, "setpoint");
            assert_eq!(value.parse::<f64>().unwrap(), 1.5);
        }
        other => panic!("not a parameter: {:?}", other),
    }
}

#[test]
fn parse_aliases() {
    assert_eq!(duration("/sim 0.1"), 0.1);
    assert_eq!(duration("/run 0.1"), 0.1);
    assert_eq!(parse("/sigs").unwrap(), Command::Signals);
    assert_eq!(parse("/exit").unwrap(), Command::Quit);
    assert_eq!(parse("/q").unwrap(), Command::Quit);
}

#[test]
fn parse_duration_text_is_kept_as_written() {
    assert_eq!(
        parse("/simulate 0.1").unwrap(),
        Command::Simulate(SimulateArg::Duration("0.1".into()))
    );
    assert_eq!(
        parse("/sim +1E-3").unwrap(),
        Command::Simulate(SimulateArg::Duration("+1E-3".into()))
    );
    assert_eq!(
        parse("/run inf").unwrap(),
        Command::Simulate(SimulateArg::Duration("inf".into()))
    );
    assert_eq!(
        parse("/run .5").unwrap(),
        Command::Simulate(SimulateArg::Duration(".5".into()))
    );
}

#[test]
fn parse_invalid_durations() {
    for arg in ["abc", "-1", "0", "0.0", "-0.5", "NaN", "-inf", "100step", "1e", "1.2.3", ".", "e5", "1e+"] {
        assert_eq!(
            message(&format!("/simulate {}", arg)),
            format!(
                "Invalid duration \"{}\". Provide a positive number (seconds) or e.g. 100steps.",
                arg
            )
        );
        let accepted = matches!(arg.parse::<f64>(), Ok(d) if d > 0.0);
        assert!(!accepted);
    }
}

#[test]
fn parse_set_values_like_f64() {
    for value in ["1.5", "-2", "+3.", ".25", "1e10", "2E-3", "inf", "-Infinity", "NaN", "0"] {
        assert!(value.parse::<f64>().is_ok());
        assert_eq!(
            parse(&format!("/set x {}", value)).unwrap(),
            Command::SetParam("x".into(), value.into())
        );
    }
    for value in ["abc", "1.2.3", "--1", "1e", "e1", ".", "+", "1_000", "0x10", "infin"] {
        assert!(value.parse::<f64>().is_err());
        assert_eq!(
            message(&format!("/set x {}", value)),
            format!("Invalid value \"{}\". Must be a number.", value)
        );
    }
    assert_eq!(parse("/set setpoint").unwrap_err().message, "Usage: /set <name> <value>");
}

#[test]
fn parse_command_name_case_but_not_arguments() {
    assert_eq!(parse("/RESET").unwrap(), Command::Reset);
    assert_eq!(parse("/ReSeT").unwrap(), Command::Reset);
    assert_eq!(
        parse("/PLOT Error -o Out.SVG").unwrap(),
        Command::Plot(PlotArgs { signals: vec!["Error".into()], output: Some("Out.SVG".into()) })
    );
    assert_eq!(duration("/SIM 2"), 2.0);
}

#[test]
fn parse_steps_variants_and_errors() {
    assert_eq!(
        parse("/run +7steps").unwrap(),
        Command::Simulate(SimulateArg::Steps(7))
    );
    assert_eq!(
        parse("/simulate 3stepsteps").unwrap(),
        Command::Simulate(SimulateArg::Steps(3))
    );
    assert_eq!(
        message("/simulate 0steps"),
        "Invalid step count \"0steps\". Must be a positive integer."
    );
    assert_eq!(
        message("/simulate -5steps"),
        "Invalid step count \"-5steps\". Must be a positive integer."
    );
    assert_eq!(
        message("/simulate 18446744073709551616steps"),
        "Invalid step count \"18446744073709551616steps\". Must be a positive integer."
    );
    assert_eq!(
        parse("/simulate 18446744073709551615steps").unwrap(),
        Command::Simulate(SimulateArg::Steps(u64::MAX))
    );
    assert_eq!(
        message("/simulate"),
        "Usage: /simulate <duration_seconds> or /simulate <N>steps"
    );
}

#[test]
fn parse_error_messages() {
    assert_eq!(message(""), "Empty command. Type /help for available commands.");
    assert_eq!(message(" \t\n "), "Empty command. Type /help for available commands.");
    assert_eq!(
        message("  simulate 0.1 "),
        "Unknown input \"simulate 0.1\". Commands start with /. Type /help for help."
    );
    assert_eq!(
        message("/FOO bar"),
        "Unknown command \"/foo\". Type /help for available commands."
    );
    assert_eq!(message("/plot"), "Usage: /plot <signal1> [signal2 ...] [-o output.svg]");
    assert_eq!(message("/plot a -o"), "Expected file path after -o flag.");
    assert_eq!(
        message("/plot -o out.svg"),
        "No signal names provided. Usage: /plot <signal1> [signal2 ...]"
    );
    assert_eq!(message("/save"), "Usage: /save <filename.csv>");
    assert_eq!(
        message("/format fixed wide"),
        "Invalid format argument \"wide\". Use: /format [default|fixed|scientific] [precision]"
    );
}

#[test]
fn parse_plot_last_output_wins() {
    assert_eq!(
        parse("/plot a --output x.svg b -o y.svg").unwrap(),
        Command::Plot(PlotArgs {
            signals: vec!["a".into(), "b".into()],
            output: Some("y.svg".into()),
        })
    );
}

#[test]
fn parse_format_arguments() {
    assert_eq!(
        parse("/format").unwrap(),
        Command::Format(FormatArgs { notation: None, precision: None })
    );
    assert_eq!(
        parse("/fmt sci 3").unwrap(),
        Command::Format(FormatArgs { notation: Some("sci".into()), precision: Some(3) })
    );
    assert_eq!(
        parse("/format 6 fixed 2").unwrap(),
        Command::Format(FormatArgs { notation: Some("fixed".into()), precision: Some(2) })
    );
}

#[test]
fn parse_is_case_insensitive_and_trims() {
    assert_eq!(parse("  /STATUS  ").unwrap(), Command::Status);
    assert_eq!(parse("/Help").unwrap(), Command::Help);
    assert_eq!(parse("/?").unwrap(), Command::Help);
    assert_eq!(parse("/h").unwrap(), Command::Help);
    assert_eq!(parse("/params").unwrap(), Command::Params);
    assert_eq!(parse("/export out.csv").unwrap(), Command::Save("out.csv".into()));
    assert_eq!(
        parse("\u{3000}/snap\u{2003}a\u{85}b").unwrap(),
        Command::Snapshot(vec!["a".into(), "b".into()])
    );
}

#[test]
fn white_space_matches_std() {
    for code in 0u32..0x11_0000 {
        if let Some(c) = char::from_u32(code) {
            assert_eq!(is_white_space_char(c), c.is_whitespace(), "at {code:#x}");
        }
    }
}

#[test]
fn unsigned_parsing_matches_std() {
    let cases = [
        "", "+", "-", "0", "+0", "-0", "007", "42", "+42", "4 2", "4a", "a4",
        "18446744073709551615", "18446744073709551616", "99999999999999999999999", "+-1",
    ];
    for text in cases {
        let chars = chars_of(text);
        assert_eq!(parse_unsigned(&chars, u64::MAX), text.parse::<u64>().ok(), "{text:?}");
        assert_eq!(
            parse_unsigned(&chars, u32::MAX as u64),
            text.parse::<u32>().ok().map(u64::from),
            "{text:?}"
        );
    }
}
