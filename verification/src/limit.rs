//! Clamping / saturation helpers for integer control signals.

use vstd::prelude::*;

verus! {

/// Result of a clamping operation that also reports whether the value was
/// limited.
#[derive(Debug, Clone, Copy, PartialEq)]
pub struct LimitResult<T> {
    pub value: T,
    pub was_limited: bool,
}

/// `value` clamped to at most `max_value`.
pub open spec fn spec_upper(value: int, max_value: int) -> int {
    if value > max_value { max_value } else { value }
}

/// `value` clamped to at least `min_value`.
pub open spec fn spec_lower(value: int, min_value: int) -> int {
    if value < min_value { min_value } else { value }
}

/// `value` clamped to `[min_value, max_value]`: first from above, then from below.
pub open spec fn spec_range(value: int, min_value: int, max_value: int) -> int {
    spec_lower(spec_upper(value, max_value), min_value)
}

/// Clamp `value` to at most `max_value` (integer).
pub fn upper_i32(value: i32, max_value: i32) -> (r: i32)
    ensures
        r == spec_upper(value as int, max_value as int),
{
    if value > max_value {
        max_value
    } else {
        value
    }
}

/// Clamp `value` to at least `min_value` (integer).
pub fn lower_i32(value: i32, min_value: i32) -> (r: i32)
    ensures
        r == spec_lower(value as int, min_value as int),
{
    if value < min_value {
        min_value
    } else {
        value
    }
}

/// Clamp `value` to `[min_value, max_value]` (integer).
///
/// The bounds must satisfy `min_value < max_value`.
pub fn range_i32(value: i32, min_value: i32, max_value: i32) -> (r: i32)
    requires
        min_value < max_value,
    ensures
        r == spec_range(value as int, min_value as int, max_value as int),
        min_value <= r <= max_value,
        min_value <= value <= max_value ==> r == value,
        value < min_value ==> r == min_value,
        value > max_value ==> r == max_value,
{
    lower_i32(upper_i32(value, max_value), min_value)
}

/// Returns `true` if `value` exceeds `max_value` (integer, exact comparison).
pub fn is_above_upper_limit_i32(value: i32, max_value: i32) -> (r: bool)
    ensures
        r == (value > max_value),
{
    value > max_value
}

/// Clamp to `[min_value, max_value]` and report whether the value was limited
/// (integer, exact comparison).
pub fn range_with_status_i32(value: i32, min_value: i32, max_value: i32) -> (r: LimitResult<i32>)
    requires
        min_value < max_value,
    ensures
        r.value == spec_range(value as int, min_value as int, max_value as int),
        r.was_limited == (value < min_value || value > max_value),
{
    let clamped = range_i32(value, min_value, max_value);
    LimitResult { value: clamped, was_limited: value != clamped }
}

/// Clamp to `[min_value, max_value]` but only flag `was_limited` when the
/// upper limit was hit (lower clamping is silent).
pub fn range_with_upper_limit_status_i32(value: i32, min_value: i32, max_value: i32) -> (r:
    LimitResult<i32>)
    requires
        min_value < max_value,
    ensures
        r.value == spec_range(value as int, min_value as int, max_value as int),
        r.was_limited == (value > max_value),
{
    let clamped = range_i32(value, min_value, max_value);
    LimitResult { value: clamped, was_limited: value > max_value }
}

// ---------------------------------------------------------------------------
// Laws
// ---------------------------------------------------------------------------

/// Clamping keeps the result within the bounds, and a value already within
/// the bounds is unchanged; so clamping twice is clamping once.
pub proof fn lemma_range_idempotent(value: int, min_value: int, max_value: int)
    requires
        min_value < max_value,
    ensures
        min_value <= spec_range(value, min_value, max_value) <= max_value,
        min_value <= value <= max_value ==> spec_range(value, min_value, max_value) == value,
        spec_range(spec_range(value, min_value, max_value), min_value, max_value) == spec_range(
            value,
            min_value,
            max_value,
        ),
{
}

/// Clamping preserves the order of values.
pub proof fn lemma_range_monotone(a: int, b: int, min_value: int, max_value: int)
    requires
        min_value < max_value,
        a <= b,
    ensures
        spec_range(a, min_value, max_value) <= spec_range(b, min_value, max_value),
{
}

/// A value is reported as limited exactly when clamping changes it, and a
/// value above the upper limit is clamped to that limit.
pub proof fn lemma_limited_iff_changed(value: int, min_value: int, max_value: int)
    requires
        min_value < max_value,
    ensures
        (value < min_value || value > max_value) <==> spec_range(value, min_value, max_value)
            != value,
        value > max_value ==> spec_range(value, min_value, max_value) == max_value,
{
}

} // verus!
