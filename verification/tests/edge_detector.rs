use pawer::edge_detector::EdgeDetector;

#[test]
fn initial_state_has_no_edges() {
    let det = EdgeDetector::new();
    assert!(!det.is_rising_edge());
    assert!(!det.is_falling_edge());
}

#[test]
fn false_to_true_is_rising_edge() {
    let mut det = EdgeDetector::new();
    let rising = det.update(true);
    assert!(rising);
    assert!(det.is_rising_edge());
    assert!(!det.is_falling_edge());
}

#[test]
fn true_to_true_no_edge() {
    let mut det = EdgeDetector::new();
    det.update(true);
    det.update(true);
    assert!(!det.is_rising_edge());
    assert!(!det.is_falling_edge());
}

#[test]
fn true_to_false_is_falling_edge() {
    let mut det = EdgeDetector::new();
    det.update(true);
    det.update(false);
    assert!(!det.is_rising_edge());
    assert!(det.is_falling_edge());
}

#[test]
fn false_to_false_no_edge() {
    let mut det = EdgeDetector::new();
    det.update(false);
    assert!(!det.is_rising_edge());
    assert!(!det.is_falling_edge());
}

#[test]
fn edge_detector_reset_clears_state() {
    let mut det = EdgeDetector::new();
    det.update(true);
    assert!(det.is_rising_edge());

    det.reset();
    assert!(!det.is_rising_edge());
    assert!(!det.is_falling_edge());

    // After reset, previous_input is false, so true is a rising edge again.
    let rising = det.update(true);
    assert!(rising);
}

#[test]
fn sequence_detects_correct_edges() {
    let mut det = EdgeDetector::new();
    let inputs = [false, true, true, false, true];
    let expected_rising = [false, true, false, false, true];
    let expected_falling = [false, false, false, true, false];

    for (i, &input) in inputs.iter().enumerate() {
        det.update(input);
        assert_eq!(
            det.is_rising_edge(),
            expected_rising[i],
            "rising mismatch at index {i}"
        );
        assert_eq!(
            det.is_falling_edge(),
            expected_falling[i],
            "falling mismatch at index {i}"
        );
    }
}

#[test]
fn update_returns_rising_edge_flag() {
    let mut det = EdgeDetector::new();
    assert!(!det.update(false));
    assert!(det.update(true));
    assert!(!det.update(true));
    assert!(!det.update(false));
    assert!(det.update(true));
}

#[test]
fn edge_detector_default_matches_new() {
    let det = EdgeDetector::default();
    assert!(!det.is_rising_edge());
    assert!(!det.is_falling_edge());
}
