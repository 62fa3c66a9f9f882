use pawer::off_delay::OffDelay;
use pawer::on_delay::OnDelay;
use pawer::on_off_delay::OnOffDelay;

const TS: f32 = 0.001; // 1 ms sampling time

/// The number of samples in `delay_s`, as the callers of the library round
/// it.
fn samples(delay_s: f32, sampling_time: f32) -> i32 {
    (delay_s / sampling_time).round() as i32
}

#[test]
fn on_delay_input_always_false_output_stays_false() {
    let mut timer = OnDelay::from_samples(samples(0.010, TS)); // 10 ms delay → 10 samples
    for _ in 0..100 {
        timer.update(false);
        assert!(!timer.output());
    }
}

#[test]
fn input_true_less_than_delay_output_stays_false() {
    let mut timer = OnDelay::from_samples(samples(0.010, TS)); // 10 samples
    for _ in 0..9 {
        timer.update(true);
    }
    assert!(!timer.output());
}

#[test]
fn input_true_exactly_delay_output_becomes_true() {
    let mut timer = OnDelay::from_samples(samples(0.010, TS)); // 10 samples
    for i in 0..10 {
        timer.update(true);
        if i < 9 {
            assert!(!timer.output(), "should still be false at sample {i}");
        }
    }
    assert!(timer.output());
}

#[test]
fn on_delay_output_stays_true_while_input_remains_true() {
    let mut timer = OnDelay::from_samples(samples(0.005, TS)); // 5 samples
    for _ in 0..5 {
        timer.update(true);
    }
    assert!(timer.output());
    for _ in 0..20 {
        timer.update(true);
        assert!(timer.output());
    }
}

#[test]
fn input_false_resets_counter_and_output() {
    let mut timer = OnDelay::from_samples(samples(0.005, TS)); // 5 samples
    // Reach output true
    for _ in 0..5 {
        timer.update(true);
    }
    assert!(timer.output());
    // Input goes false
    timer.update(false);
    assert!(!timer.output());
    // Need full delay again
    for _ in 0..4 {
        timer.update(true);
        assert!(!timer.output());
    }
    timer.update(true);
    assert!(timer.output());
}

#[test]
fn interrupted_input_resets_progress() {
    let mut timer = OnDelay::from_samples(samples(0.010, TS)); // 10 samples
    // 8 samples of true
    for _ in 0..8 {
        timer.update(true);
    }
    assert!(!timer.output());
    // Glitch false
    timer.update(false);
    assert!(!timer.output());
    // Must start counting from zero again
    for _ in 0..9 {
        timer.update(true);
        assert!(!timer.output());
    }
    timer.update(true);
    assert!(timer.output());
}

#[test]
fn on_delay_reconfigure_with_new_delay() {
    let mut timer = OnDelay::from_samples(samples(0.010, TS)); // 10 samples
    // Reach output true
    for _ in 0..10 {
        timer.update(true);
    }
    assert!(timer.output());
    // Reconfigure to 3 samples
    timer.configure_samples(samples(0.003, TS));
    assert!(!timer.output()); // configure calls reset
    for _ in 0..2 {
        timer.update(true);
        assert!(!timer.output());
    }
    timer.update(true);
    assert!(timer.output());
}

#[test]
fn zero_delay_output_immediately_true() {
    let mut timer = OnDelay::from_samples(samples(0.0, TS)); // 0 samples required
    timer.update(true);
    assert!(timer.output());
}

#[test]
fn zero_delay_output_false_when_input_false() {
    let mut timer = OnDelay::from_samples(samples(0.0, TS));
    timer.update(true);
    assert!(timer.output());
    timer.update(false);
    assert!(!timer.output());
}

#[test]
fn on_delay_reset_clears_state() {
    let mut timer = OnDelay::from_samples(samples(0.005, TS));
    for _ in 0..5 {
        timer.update(true);
    }
    assert!(timer.output());
    timer.reset();
    assert!(!timer.output());
    // Must count full delay again
    for _ in 0..4 {
        timer.update(true);
        assert!(!timer.output());
    }
    timer.update(true);
    assert!(timer.output());
}

#[test]
fn off_delay_input_always_false_output_stays_false() {
    let mut timer = OffDelay::from_samples(samples(0.010, TS)); // 10 samples
    for _ in 0..100 {
        timer.update(false);
        assert!(!timer.output());
    }
}

#[test]
fn input_true_output_immediately_true() {
    let mut timer = OffDelay::from_samples(samples(0.010, TS));
    timer.update(true);
    assert!(timer.output());
}

#[test]
fn output_stays_true_during_off_delay() {
    let mut timer = OffDelay::from_samples(samples(0.005, TS)); // 5 samples
    timer.update(true);
    assert!(timer.output());
    // Input goes false — output stays true for 4 more samples
    for i in 0..4 {
        timer.update(false);
        assert!(timer.output(), "should still be true at sample {i}");
    }
    // 5th false sample → output goes false
    timer.update(false);
    assert!(!timer.output());
}

#[test]
fn input_true_during_off_delay_resets_counter() {
    let mut timer = OffDelay::from_samples(samples(0.005, TS)); // 5 samples
    timer.update(true);
    // 3 false samples (counter at 3, still in delay)
    for _ in 0..3 {
        timer.update(false);
    }
    assert!(timer.output());
    // Input true again — resets counter
    timer.update(true);
    assert!(timer.output());
    // Now need full 5 false samples again
    for _ in 0..4 {
        timer.update(false);
        assert!(timer.output());
    }
    timer.update(false);
    assert!(!timer.output());
}

#[test]
fn zero_delay_output_false_immediately_when_input_false() {
    let mut timer = OffDelay::from_samples(samples(0.0, TS)); // 0 samples required
    timer.update(true);
    assert!(timer.output());
    timer.update(false);
    assert!(!timer.output());
}

#[test]
fn off_delay_output_stays_true_while_input_remains_true() {
    let mut timer = OffDelay::from_samples(samples(0.010, TS));
    for _ in 0..50 {
        timer.update(true);
        assert!(timer.output());
    }
}

#[test]
fn off_delay_reconfigure_with_new_delay() {
    let mut timer = OffDelay::from_samples(samples(0.010, TS)); // 10 samples
    timer.update(true);
    assert!(timer.output());
    // Reconfigure to 3 samples
    timer.configure_samples(samples(0.003, TS));
    assert!(!timer.output()); // configure calls reset
    timer.update(true);
    assert!(timer.output());
    for _ in 0..2 {
        timer.update(false);
        assert!(timer.output());
    }
    timer.update(false);
    assert!(!timer.output());
}

#[test]
fn off_delay_reset_clears_state() {
    let mut timer = OffDelay::from_samples(samples(0.005, TS));
    timer.update(true);
    assert!(timer.output());
    timer.reset();
    assert!(!timer.output());
    // False input should not trigger delay since output is already false
    timer.update(false);
    assert!(!timer.output());
}

#[test]
fn output_stays_false_after_delay_expires() {
    let mut timer = OffDelay::from_samples(samples(0.003, TS)); // 3 samples
    timer.update(true);
    // Expire the off-delay
    for _ in 0..3 {
        timer.update(false);
    }
    assert!(!timer.output());
    // Further false inputs keep it false
    for _ in 0..10 {
        timer.update(false);
        assert!(!timer.output());
    }
}

#[test]
fn multiple_on_off_cycles() {
    let mut timer = OffDelay::from_samples(samples(0.003, TS)); // 3 samples
    for _ in 0..3 {
        timer.update(true);
        assert!(timer.output());
        for _ in 0..2 {
            timer.update(false);
            assert!(timer.output());
        }
        timer.update(false);
        assert!(!timer.output());
    }
}

#[test]
fn on_delay_gates_rising_edge() {
    let mut timer = OnOffDelay::new();
    timer.configure_samples(samples(0.005, TS), samples(0.003, TS)); // on: 5 samples, off: 3 samples

    // Input true for 4 samples — not enough for on-delay
    for _ in 0..4 {
        timer.update(true);
        assert!(!timer.output());
    }
    // 5th sample — on-delay satisfied, off-delay input goes true → output true
    timer.update(true);
    assert!(timer.output());
}

#[test]
fn off_delay_gates_falling_edge() {
    let mut timer = OnOffDelay::new();
    timer.configure_samples(samples(0.005, TS), samples(0.003, TS)); // on: 5, off: 3

    // Activate
    for _ in 0..5 {
        timer.update(true);
    }
    assert!(timer.output());

    // Input goes false — on-delay resets immediately, off-delay starts counting
    for i in 0..2 {
        timer.update(false);
        assert!(
            timer.output(),
            "should still be true at off-delay sample {i}"
        );
    }
    timer.update(false);
    assert!(!timer.output());
}

#[test]
fn quick_toggle_does_not_pass_through() {
    let mut timer = OnOffDelay::new();
    timer.configure_samples(samples(0.005, TS), samples(0.003, TS)); // on: 5, off: 3

    // Short pulse — 3 samples true, then false
    for _ in 0..3 {
        timer.update(true);
    }
    timer.update(false);
    // On-delay was never satisfied, so output stays false
    assert!(!timer.output());
}

#[test]
fn on_off_delay_input_always_false_output_stays_false() {
    let mut timer = OnOffDelay::new();
    timer.configure_samples(samples(0.005, TS), samples(0.003, TS));
    for _ in 0..50 {
        timer.update(false);
        assert!(!timer.output());
    }
}

#[test]
fn full_on_off_cycle() {
    let mut timer = OnOffDelay::new();
    timer.configure_samples(samples(0.005, TS), samples(0.003, TS)); // on: 5, off: 3

    // Phase 1: off
    for _ in 0..10 {
        timer.update(false);
        assert!(!timer.output());
    }

    // Phase 2: ramp up — 5 true samples needed
    for _ in 0..4 {
        timer.update(true);
        assert!(!timer.output());
    }
    timer.update(true);
    assert!(timer.output());

    // Phase 3: stay on
    for _ in 0..10 {
        timer.update(true);
        assert!(timer.output());
    }

    // Phase 4: ramp down — 3 false samples needed
    for _ in 0..2 {
        timer.update(false);
        assert!(timer.output());
    }
    timer.update(false);
    assert!(!timer.output());

    // Phase 5: stay off
    for _ in 0..10 {
        timer.update(false);
        assert!(!timer.output());
    }
}

#[test]
fn reset_clears_both_timers() {
    let mut timer = OnOffDelay::new();
    timer.configure_samples(samples(0.005, TS), samples(0.003, TS));

    // Activate
    for _ in 0..5 {
        timer.update(true);
    }
    assert!(timer.output());

    timer.reset();
    assert!(!timer.output());

    // Must satisfy on-delay from scratch
    for _ in 0..4 {
        timer.update(true);
        assert!(!timer.output());
    }
    timer.update(true);
    assert!(timer.output());
}

#[test]
fn zero_delays_pass_through_immediately() {
    let mut timer = OnOffDelay::new();
    timer.configure_samples(samples(0.0, TS), samples(0.0, TS));

    timer.update(true);
    assert!(timer.output());
    timer.update(false);
    assert!(!timer.output());
}

#[test]
fn interrupted_on_delay_resets() {
    let mut timer = OnOffDelay::new();
    timer.configure_samples(samples(0.005, TS), samples(0.003, TS)); // on: 5, off: 3

    // 4 true samples
    for _ in 0..4 {
        timer.update(true);
    }
    assert!(!timer.output());

    // Glitch false — resets on-delay
    timer.update(false);
    assert!(!timer.output());

    // Must count full 5 again
    for _ in 0..4 {
        timer.update(true);
        assert!(!timer.output());
    }
    timer.update(true);
    assert!(timer.output());
}

#[test]
fn retriggered_during_off_delay() {
    let mut timer = OnOffDelay::new();
    timer.configure_samples(samples(0.005, TS), samples(0.003, TS));

    // Activate
    for _ in 0..5 {
        timer.update(true);
    }
    assert!(timer.output());

    // Start off-delay (2 false samples)
    for _ in 0..2 {
        timer.update(false);
    }
    assert!(timer.output());

    // Input true again — on-delay must count from 0
    // The on-delay was reset when input went false, so we need 5 true samples
    // Meanwhile off-delay continues running because on-delay output is false
    for _ in 0..4 {
        timer.update(true);
    }
    // On-delay not yet satisfied (only 4 samples), off-timer input still false
    // from the on-delay perspective: on-delay just got 4 true samples
    // Actually let's trace carefully:
    // After 2 false: on_timer counter=0, on_timer output=false; off_timer counting
    // true sample 1: on_timer counter=1, output=false; off_timer sees false → still counting
    // true sample 2: on_timer counter=2, output=false; off_timer sees false → counting
    // true sample 3: on_timer counter=3, output=false; off_timer sees false → off expires (was at 2+3=5 > 3)
    // Wait — the off_timer counter started when on_timer output went false.
    // After activation, on_timer output = true. When input goes false:
    //   false 1: on_timer counter=0, output=false. off_timer sees false, was true → counter=1
    //   false 2: on_timer counter=0, output=false. off_timer sees false → counter=2
    // Now true again:
    //   true 1: on_timer counter=1, output=false. off_timer sees false → counter=3 → output=false
    // So after this point off_timer output is false! Let's adjust the test.

    // Let's just verify the output after the retriggered sequence
    // At this point (4 true after 2 false), the off-delay has expired
    // The on-delay has 4 samples counted. One more needed.
    timer.update(true); // 5th true → on-delay fires → off-delay sees true → output true
    assert!(timer.output());
}
