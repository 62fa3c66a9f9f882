use pawer::limit::{
    is_above_upper_limit_i32, lower_i32, range_i32, range_with_status_i32,
    range_with_upper_limit_status_i32, upper_i32,
};

#[test]
fn upper_i32_below_max() {
    assert_eq!(upper_i32(5, 10), 5);
}

#[test]
fn upper_i32_at_max() {
    assert_eq!(upper_i32(10, 10), 10);
}

#[test]
fn upper_i32_above_max() {
    assert_eq!(upper_i32(15, 10), 10);
}

#[test]
fn lower_i32_above_min() {
    assert_eq!(lower_i32(5, 0), 5);
}

#[test]
fn lower_i32_at_min() {
    assert_eq!(lower_i32(0, 0), 0);
}

#[test]
fn lower_i32_below_min() {
    assert_eq!(lower_i32(-5, 0), 0);
}

#[test]
fn range_i32_within() {
    assert_eq!(range_i32(5, 0, 10), 5);
}

#[test]
fn range_i32_at_bounds() {
    assert_eq!(range_i32(0, 0, 10), 0);
    assert_eq!(range_i32(10, 0, 10), 10);
}

#[test]
fn range_i32_below() {
    assert_eq!(range_i32(-5, 0, 10), 0);
}

#[test]
fn range_i32_above() {
    assert_eq!(range_i32(15, 0, 10), 10);
}

#[test]
fn is_above_upper_limit_i32_below() {
    assert!(!is_above_upper_limit_i32(5, 10));
}

#[test]
fn is_above_upper_limit_i32_at() {
    assert!(!is_above_upper_limit_i32(10, 10));
}

#[test]
fn is_above_upper_limit_i32_above() {
    assert!(is_above_upper_limit_i32(11, 10));
}

#[test]
fn range_with_status_i32_within() {
    let r = range_with_status_i32(5, 0, 10);
    assert_eq!(r.value, 5);
    assert!(!r.was_limited);
}

#[test]
fn range_with_status_i32_below() {
    let r = range_with_status_i32(-5, 0, 10);
    assert_eq!(r.value, 0);
    assert!(r.was_limited);
}

#[test]
fn range_with_status_i32_above() {
    let r = range_with_status_i32(15, 0, 10);
    assert_eq!(r.value, 10);
    assert!(r.was_limited);
}

#[test]
fn range_with_upper_limit_status_i32_within() {
    let r = range_with_upper_limit_status_i32(5, 0, 10);
    assert_eq!(r.value, 5);
    assert!(!r.was_limited);
}

#[test]
fn range_with_upper_limit_status_i32_below_lower() {
    let r = range_with_upper_limit_status_i32(-5, 0, 10);
    assert_eq!(r.value, 0);
    assert!(!r.was_limited);
}

#[test]
fn range_with_upper_limit_status_i32_above_upper() {
    let r = range_with_upper_limit_status_i32(15, 0, 10);
    assert_eq!(r.value, 10);
    assert!(r.was_limited);
}

#[test]
fn range_i32_negative_bounds() {
    assert_eq!(range_i32(-3, -10, -1), -3);
    assert_eq!(range_i32(-15, -10, -1), -10);
    assert_eq!(range_i32(0, -10, -1), -1);
}
