//! Wrapped angle type that maps the full `u32` range to \[0, 2π).
//!
//! An angle is held as a `u32`: the raw value `v` stands for `v · 2π / 2^32`
//! radians. Arithmetic on [`AngleWrapped`] uses `u32` overflow, so wrapping
//! past 0 or 2π is free on every target. Conversions from and to radians are
//! floating-point work and are done by the caller; this type holds the raw
//! representation and its integer arithmetic.

use core::cmp::Ordering;
use core::ops::{Add, AddAssign, Neg, Sub, SubAssign};
use vstd::prelude::*;
use vstd::std_specs::cmp::PartialEqSpecImpl;
use vstd::std_specs::cmp::PartialOrdSpecImpl;
use vstd::std_specs::ops::{AddSpecImpl, NegSpecImpl, SubSpecImpl};

verus! {

/// Number of distinct raw angle values: one full turn.
pub open spec fn full_turn() -> int {
    0x1_0000_0000
}

/// Raw value of the sum of two angles: addition modulo one full turn.
pub open spec fn raw_add(a: u32, b: u32) -> int {
    (a + b) % full_turn()
}

/// Raw value of the difference of two angles, modulo one full turn.
pub open spec fn raw_sub(a: u32, b: u32) -> int {
    (a - b) % full_turn()
}

/// Raw value of the negated angle, modulo one full turn.
pub open spec fn raw_neg(a: u32) -> int {
    (-a) % full_turn()
}

/// Maximum raw difference considered equal (about 1e-9 radians).
pub const EQ_EPSILON: u32 = 682;

/// Distance between two raw angles going the short way round the circle.
pub open spec fn raw_distance(a: u32, b: u32) -> int {
    let d = raw_sub(a, b);
    let e = raw_neg_int(d);
    if d <= e { d } else { e }
}

/// `(-x) mod 2^32` for an integer `x`.
pub open spec fn raw_neg_int(x: int) -> int {
    (-x) % full_turn()
}

/// Two angles are considered equal when they are within [`EQ_EPSILON`] of
/// each other, going the short way round the circle.
pub open spec fn approx_same(a: u32, b: u32) -> bool {
    raw_distance(a, b) <= EQ_EPSILON
}

/// An angle stored as a `u32` that wraps naturally to \[0, 2π) via integer
/// overflow.
#[derive(Clone, Copy, Debug)]
pub struct AngleWrapped {
    value: u32,
}

impl View for AngleWrapped {
    type V = u32;

    /// The raw `u32` representation.
    closed spec fn view(&self) -> u32 {
        self.value
    }
}

/// `x.wrapping_sub(y)` as an integer modulo one full turn.
proof fn lemma_wrapping_sub_mod(x: u32, y: u32)
    ensures
        vstd::wrapping::u32_specs::wrapping_sub(x, y) == raw_sub(x, y),
{
}

/// `x.wrapping_add(y)` as an integer modulo one full turn.
proof fn lemma_wrapping_add_mod(x: u32, y: u32)
    ensures
        vstd::wrapping::u32_specs::wrapping_add(x, y) == raw_add(x, y),
{
}

impl AngleWrapped {
    /// The angle whose raw `u32` representation is `value`.
    pub fn from_raw(value: u32) -> (r: Self)
        ensures
            r@ == value,
    {
        Self { value }
    }

    /// Return the raw `u32` representation (useful for embedded bit-level
    /// work).
    pub fn raw(&self) -> (r: u32)
        ensures
            r == self@,
    {
        self.value
    }
}

impl Default for AngleWrapped {
    /// The zero angle.
    fn default() -> (r: Self)
        ensures
            r@ == 0,
    {
        Self { value: 0 }
    }
}

// ── AngleWrapped <op> AngleWrapped ───────────────────────────────────────────

impl Add for AngleWrapped {
    type Output = Self;

    fn add(self, rhs: Self) -> (r: Self)
        ensures
            r@ == raw_add(self@, rhs@),
    {
        proof {
            lemma_wrapping_add_mod(self.value, rhs.value);
        }
        Self { value: self.value.wrapping_add(rhs.value) }
    }
}

impl AddSpecImpl for AngleWrapped {
    open spec fn obeys_add_spec() -> bool {
        true
    }

    open spec fn add_req(self, rhs: Self) -> bool {
        true
    }

    closed spec fn add_spec(self, rhs: Self) -> Self {
        AngleWrapped { value: raw_add(self.value, rhs.value) as u32 }
    }
}

impl Sub for AngleWrapped {
    type Output = Self;

    fn sub(self, rhs: Self) -> (r: Self)
        ensures
            r@ == raw_sub(self@, rhs@),
    {
        proof {
            lemma_wrapping_sub_mod(self.value, rhs.value);
        }
        Self { value: self.value.wrapping_sub(rhs.value) }
    }
}

impl SubSpecImpl for AngleWrapped {
    open spec fn obeys_sub_spec() -> bool {
        true
    }

    open spec fn sub_req(self, rhs: Self) -> bool {
        true
    }

    closed spec fn sub_spec(self, rhs: Self) -> Self {
        AngleWrapped { value: raw_sub(self.value, rhs.value) as u32 }
    }
}

impl AddAssign for AngleWrapped {
    fn add_assign(&mut self, rhs: Self)
        ensures
            final(self)@ == raw_add(old(self)@, rhs@),
    {
        proof {
            lemma_wrapping_add_mod(self.value, rhs.value);
        }
        self.value = self.value.wrapping_add(rhs.value);
    }
}

impl SubAssign for AngleWrapped {
    fn sub_assign(&mut self, rhs: Self)
        ensures
            final(self)@ == raw_sub(old(self)@, rhs@),
    {
        proof {
            lemma_wrapping_sub_mod(self.value, rhs.value);
        }
        self.value = self.value.wrapping_sub(rhs.value);
    }
}

// ── Negation ─────────────────────────────────────────────────────────────────

impl Neg for AngleWrapped {
    type Output = Self;

    fn neg(self) -> (r: Self)
        ensures
            r@ == raw_neg(self@),
    {
        proof {
            lemma_wrapping_sub_mod(0, self.value);
        }
        Self { value: 0u32.wrapping_sub(self.value) }
    }
}

impl NegSpecImpl for AngleWrapped {
    open spec fn obeys_neg_spec() -> bool {
        true
    }

    open spec fn neg_req(self) -> bool {
        true
    }

    closed spec fn neg_spec(self) -> Self {
        AngleWrapped { value: raw_neg(self.value) as u32 }
    }
}

// ── Approximate equality ─────────────────────────────────────────────────────

impl PartialEq for AngleWrapped {
    fn eq(&self, other: &Self) -> (r: bool) {
        let diff = self.value.wrapping_sub(other.value);
        // The wrapping difference can be close to 0 or close to u32::MAX
        // (i.e. just below zero); take the smaller side.
        let back = 0u32.wrapping_sub(diff);
        let min_diff = if back < diff { back } else { diff };
        proof {
            lemma_wrapping_sub_mod(self.value, other.value);
            lemma_wrapping_sub_mod(0, diff);
        }
        min_diff <= EQ_EPSILON
    }
}

impl PartialEqSpecImpl for AngleWrapped {
    open spec fn obeys_eq_spec() -> bool {
        true
    }

    open spec fn eq_spec(&self, other: &Self) -> bool {
        approx_same(self@, other@)
    }
}

// ── Ordering (raw u32) ──────────────────────────────────────────────────────

impl PartialOrd for AngleWrapped {
    fn partial_cmp(&self, other: &Self) -> (r: Option<Ordering>) {
        self.value.partial_cmp(&other.value)
    }
}

impl PartialOrdSpecImpl for AngleWrapped {
    open spec fn obeys_partial_cmp_spec() -> bool {
        true
    }

    open spec fn partial_cmp_spec(&self, other: &Self) -> Option<Ordering> {
        if self@ < other@ {
            Some(Ordering::Less)
        } else if self@ > other@ {
            Some(Ordering::Greater)
        } else {
            Some(Ordering::Equal)
        }
    }
}

// ── Laws ────────────────────────────────────────────────────────────────────

/// Raw results of the angle arithmetic are always valid raw values.
pub proof fn lemma_raw_results_in_range(a: u32, b: u32)
    ensures
        0 <= raw_add(a, b) < full_turn(),
        0 <= raw_sub(a, b) < full_turn(),
        0 <= raw_neg(a) < full_turn(),
{
}

/// Adding angles is commutative and associative, and the zero angle is its
/// identity: angles form a group under wrapping addition.
pub proof fn lemma_add_group(a: u32, b: u32, c: u32)
    ensures
        raw_add(a, b) == raw_add(b, a),
        raw_add(raw_add(a, b) as u32, c) == raw_add(a, raw_add(b, c) as u32),
        raw_add(a, 0) == a,
        raw_add(a, raw_neg(a) as u32) == 0,
{
}

/// Subtracting an angle undoes adding it, and adding undoes subtracting,
/// whatever the wrap-around.
pub proof fn lemma_sub_undoes_add(a: u32, b: u32)
    ensures
        raw_sub(raw_add(a, b) as u32, b) == a,
        raw_add(raw_sub(a, b) as u32, b) == a,
{
}

/// Subtracting is adding the negation, and negating twice gives the angle
/// back.
pub proof fn lemma_sub_is_add_neg(a: u32, b: u32)
    ensures
        raw_sub(a, b) == raw_add(a, raw_neg(b) as u32),
        raw_neg(raw_neg(a) as u32) == a,
        raw_sub(0, a) == raw_neg(a),
{
}

/// Approximate equality is reflexive and symmetric, and holds across the
/// wrap-around at 0 and 2π.
pub proof fn lemma_approx_same(a: u32, b: u32)
    ensures
        approx_same(a, a),
        approx_same(a, b) == approx_same(b, a),
        approx_same(0, 0xffff_ffff),
{
}

} // verus!
