use pawer::angle::AngleWrapped;
use pawer::cli::commands::{first_signal_without_data, first_unknown_signal};
use pawer::cli::real_text::real_text_kind;
use pawer::cli::parser::{parse, Command};
use pawer::edge_detector::EdgeDetector;
use pawer::export::export_header;
use pawer::frames::{Abc, AlphaBeta, Dq};
use pawer::limit::{range_i32, range_with_status_i32, range_with_upper_limit_status_i32};
use pawer::off_delay::OffDelay;
use pawer::on_delay::OnDelay;
use pawer::on_off_delay::OnOffDelay;

#[test]
fn range_is_idempotent_and_monotone() {
    for v in -20..20 {
        let once = range_i32(v, -5, 7);
        assert!((-5..=7).contains(&once));
        assert_eq!(range_i32(once, -5, 7), once);
        assert!(range_i32(v, -5, 7) <= range_i32(v + 1, -5, 7));
        let status = range_with_status_i32(v, -5, 7);
        assert_eq!(status.value, once);
        assert_eq!(status.was_limited, once != v);
        let upper = range_with_upper_limit_status_i32(v, -5, 7);
        assert_eq!(upper.value, once);
        assert_eq!(upper.was_limited, v > 7);
    }
    assert_eq!(range_i32(i32::MIN, i32::MIN + 1, i32::MAX), i32::MIN + 1);
    assert_eq!(range_i32(i32::MAX, 0, 1), 1);
}

#[test]
fn angle_arithmetic_wraps_around_the_full_turn() {
    let max = AngleWrapped::from_raw(u32::MAX);
    let one = AngleWrapped::from_raw(1);
    assert_eq!((max + one).raw(), 0);
    assert_eq!((AngleWrapped::from_raw(0) - one).raw(), u32::MAX);
    assert_eq!((-one).raw(), u32::MAX);
    assert_eq!((-AngleWrapped::default()).raw(), 0);
    for (a, b) in [(3u32, 5u32), (u32::MAX - 2, 9), (0x8000_0000, 0x8000_0001)] {
        let x = AngleWrapped::from_raw(a);
        let y = AngleWrapped::from_raw(b);
        assert_eq!((x + y).raw(), (y + x).raw());
        assert_eq!(((x + y) - y).raw(), a);
        assert_eq!(((x - y) + y).raw(), a);
        assert_eq!((x - y).raw(), (x + (-y)).raw());
        assert_eq!((x + (-x)).raw(), 0);
        let mut z = x;
        z += y;
        z -= y;
        assert_eq!(z.raw(), a);
    }
}

#[test]
fn angle_equality_tolerance_and_order() {
    let a = AngleWrapped::from_raw(1000);
    assert!(a == AngleWrapped::from_raw(1000 + 682));
    assert!(a != AngleWrapped::from_raw(1000 + 683));
    assert!(AngleWrapped::from_raw(100) == AngleWrapped::from_raw(u32::MAX - 500));
    assert!(AngleWrapped::from_raw(100) != AngleWrapped::from_raw(u32::MAX - 600));
    assert!(AngleWrapped::from_raw(1) < AngleWrapped::from_raw(2));
    assert!(AngleWrapped::from_raw(u32::MAX) > AngleWrapped::from_raw(0));
}

#[test]
fn edges_follow_input_changes() {
    let mut det = EdgeDetector::new();
    let inputs = [true, true, false, false, true, false];
    let mut previous = false;
    for input in inputs {
        let rising = det.update(input);
        assert_eq!(rising, !previous && input);
        assert_eq!(det.is_falling_edge(), previous && !input);
        assert!(!(det.is_rising_edge() && det.is_falling_edge()));
        previous = input;
    }
}

#[test]
fn integer_frames_arithmetic() {
    let a = Abc::new(1i32, -2, 3);
    let b = Abc::splat(10i32);
    assert_eq!((a + b).as_array(), &[11, 8, 13]);
    assert_eq!((a - b).as_array(), &[-9, -12, -7]);
    assert_eq!((-a).as_array(), &[-1, 2, -3]);
    assert_eq!((a * 3).as_array(), &[3, -6, 9]);
    assert_eq!((b / 4).as_array(), &[2, 2, 2]);
    let mut c = a;
    c[1] = 7;
    assert_eq!(c.b(), 7);
    let ab = AlphaBeta::from_array([4u8, 6]);
    assert_eq!((ab + ab).as_array(), &[8, 12]);
    let dq = Dq::new(5i64, -5);
    assert_eq!((dq * -1).as_array(), &[-5, 5]);
    assert_eq!(Dq::<i64>::default().as_array(), &[0, 0]);
}

/// The on-delay output after each input, from a reset, as the timer's
/// documentation describes it: true when the input has been true for the
/// last `required` samples (and is true now).
fn on_delay_model(required: i32, inputs: &[bool]) -> Vec<bool> {
    let mut run = 0i64;
    inputs
        .iter()
        .map(|&i| {
            run = if i { run + 1 } else { 0 };
            i && run >= required as i64
        })
        .collect()
}

/// The off-delay output after each input, from a reset: true when the input
/// was true at some point and fewer than `required` false samples followed.
fn off_delay_model(required: i32, inputs: &[bool]) -> Vec<bool> {
    let mut seen_true = false;
    let mut falses = 0i64;
    inputs
        .iter()
        .map(|&i| {
            if i {
                seen_true = true;
                falses = 0;
            } else {
                falses += 1;
            }
            i || (seen_true && falses < required as i64)
        })
        .collect()
}

fn pattern(seed: u32, len: usize) -> Vec<bool> {
    let mut x = seed;
    (0..len)
        .map(|_| {
            x = x.wrapping_mul(1_103_515_245).wrapping_add(12_345);
            (x >> 16) % 3 != 0
        })
        .collect()
}

#[test]
fn delay_timers_match_their_description() {
    for required in [-2, 0, 1, 3, 7] {
        for seed in 0..20 {
            let inputs = pattern(seed, 60);
            let mut on = OnDelay::from_samples(required);
            let mut off = OffDelay::from_samples(required);
            let on_expected = on_delay_model(required, &inputs);
            let off_expected = off_delay_model(required, &inputs);
            for (k, &i) in inputs.iter().enumerate() {
                on.update(i);
                off.update(i);
                assert_eq!(on.output(), on_expected[k], "on-delay {required} {seed} {k}");
                assert_eq!(off.output(), off_expected[k], "off-delay {required} {seed} {k}");
            }
        }
    }
}

#[test]
fn on_off_delay_is_the_chain_of_both_stages() {
    for seed in 0..20 {
        let inputs = pattern(seed, 80);
        let mut timer = OnOffDelay::new();
        timer.configure_samples(4, 3);
        let on_outputs = on_delay_model(4, &inputs);
        let expected = off_delay_model(3, &on_outputs);
        for (k, &i) in inputs.iter().enumerate() {
            timer.update(i);
            assert_eq!(timer.output(), expected[k], "{seed} {k}");
        }
    }
}

#[test]
fn export_header_lists_time_then_signals() {
    let names = vec!["a".to_string(), "b".to_string()];
    assert_eq!(export_header(&names).unwrap(), vec!["time", "a", "b"]);
    assert_eq!(export_header(&Vec::new()).unwrap_err().0, "No signals to export.");
}

#[test]
fn unknown_signal_is_the_first_missing_one() {
    let available = vec!["x".to_string(), "y".to_string()];
    let requested = vec!["y".to_string(), "z".to_string(), "w".to_string()];
    assert_eq!(first_unknown_signal(&requested, &available), Some(1));
    assert_eq!(first_unknown_signal(&vec!["x".to_string()], &available), None);
    assert_eq!(first_unknown_signal(&Vec::new(), &available), None);
}

#[test]
fn surrounding_white_space_and_aliases_do_not_change_the_parse() {
    for line in ["/sim 10steps", "/plot a -o b.svg", "/fmt sci 2", "/q", "/bogus 1"] {
        let padded = format!(" \t{line}\u{2003} ");
        assert_eq!(parse(&padded), parse(line));
    }
    for (alias, name) in [
        ("/sim 5steps", "/simulate 5steps"),
        ("/run 5steps", "/simulate 5steps"),
        ("/export f.csv", "/save f.csv"),
        ("/sigs", "/signals"),
        ("/snap a", "/snapshot a"),
        ("/fmt fixed", "/format fixed"),
        ("/h", "/help"),
        ("/?", "/help"),
        ("/exit", "/quit"),
        ("/q", "/quit"),
    ] {
        assert_eq!(parse(alias), parse(name));
    }
    assert_eq!(parse("/QUIT").unwrap(), Command::Quit);
}

#[test]
fn command_names_ignore_case_of_ascii_letters() {
    for (a, b) in [
        ("/RESET", "/reset"),
        ("/Simulate 5steps", "/simulate 5steps"),
        ("/PlOt Sig -o F.svg", "/plot Sig -o F.svg"),
        ("/FMT SCI 2", "/fmt SCI 2"),
        ("/NOPE x", "/nope x"),
    ] {
        assert_eq!(parse(a), parse(b));
    }
    assert_ne!(parse("/plot Sig"), parse("/plot sig"));
}

#[test]
fn default_frames_are_frames_of_default_components() {
    assert_eq!(Dq::<i32>::new(i32::default(), i32::default()), Dq::<i32>::default());
    assert_eq!(AlphaBeta::<i32>::new(i32::default(), i32::default()), AlphaBeta::<i32>::default());
    assert_eq!(
        Abc::<i32>::new(i32::default(), i32::default(), i32::default()),
        Abc::<i32>::default()
    );
}

#[test]
fn first_signal_without_data_finds_the_first_empty_series() {
    assert_eq!(first_signal_without_data(&vec![3, 0, 2, 0]), Some(1));
    assert_eq!(first_signal_without_data(&vec![0]), Some(0));
    assert_eq!(first_signal_without_data(&vec![1, 5]), None);
    assert_eq!(first_signal_without_data(&vec![]), None);
}

#[test]
fn real_text_kind_agrees_with_f64_parsing() {
    let samples = [
        "0", "1", "-1", "+1", "1.", ".1", "1.5e3", "1.5E-3", "-0.0", "0e5", "00.000", "007",
        "inf", "INF", "-inf", "+Infinity", "infinity", "nan", "NaN", "-nan", "", "+", "-", ".",
        "e", "1e", "1e+", "1e-5x", "1..2", "1.2.3", "abc", " 1", "1 ", "0x1", "1_0", "inF", "infinit",
        "infinityy", "\u{ff11}", "1e0010", "9e99999", "Inf", "nAn", "5.", "-.5", "+.e1",
    ];
    for text in samples {
        let chars: Vec<char> = text.chars().collect();
        let expected = text.parse::<f64>().ok().map(|d| d > 0.0);
        assert_eq!(real_text_kind(&chars), expected, "{:?}", text);
    }
}
