//! Coordinate frame types for three-phase power electronics: the three-phase
//! [`Abc`] frame, the stationary [`AlphaBeta`] frame and the rotating [`Dq`]
//! frame, with element-wise and scalar arithmetic.
//!
//! The arithmetic is generic over the component type. Each operator is
//! specified through vstd's operator specifications: the operator on a frame
//! requires the operator's precondition on every pair of components, and when
//! the component type obeys its operator specification, the frame's result is
//! the component-wise result.

use core::ops::{Add, AddAssign, Div, DivAssign, Index, IndexMut, Mul, MulAssign, Neg, Sub, SubAssign};
use vstd::prelude::*;
use vstd::std_specs::ops::{
    AddSpec, AddSpecImpl, DivSpec, DivSpecImpl, MulSpec, MulSpecImpl, NegSpec, NegSpecImpl, SubSpec,
    SubSpecImpl,
};

verus! {

// ---------------------------------------------------------------------------
// Component-wise specifications shared by the three frames
// ---------------------------------------------------------------------------

/// Every pair of components can be added.
pub open spec fn add_req_each<T: Add<Output = T>>(a: Seq<T>, b: Seq<T>) -> bool {
    forall|i: int| 0 <= i < a.len() ==> #[trigger] a[i].add_req(b[i])
}

/// The component-wise sum.
pub open spec fn add_each<T: Add<Output = T>>(a: Seq<T>, b: Seq<T>) -> Seq<T> {
    Seq::new(a.len(), |i: int| a[i].add_spec(b[i]))
}

/// Every pair of components can be subtracted.
pub open spec fn sub_req_each<T: Sub<Output = T>>(a: Seq<T>, b: Seq<T>) -> bool {
    forall|i: int| 0 <= i < a.len() ==> #[trigger] a[i].sub_req(b[i])
}

/// The component-wise difference.
pub open spec fn sub_each<T: Sub<Output = T>>(a: Seq<T>, b: Seq<T>) -> Seq<T> {
    Seq::new(a.len(), |i: int| a[i].sub_spec(b[i]))
}

/// Every component can be negated.
pub open spec fn neg_req_each<T: Neg<Output = T>>(a: Seq<T>) -> bool {
    forall|i: int| 0 <= i < a.len() ==> #[trigger] a[i].neg_req()
}

/// The component-wise negation.
pub open spec fn neg_each<T: Neg<Output = T>>(a: Seq<T>) -> Seq<T> {
    Seq::new(a.len(), |i: int| a[i].neg_spec())
}

/// Every component can be multiplied by `k`.
pub open spec fn mul_req_each<T: Mul<T, Output = T>>(a: Seq<T>, k: T) -> bool {
    forall|i: int| 0 <= i < a.len() ==> #[trigger] a[i].mul_req(k)
}

/// Every component multiplied by `k`.
pub open spec fn mul_each<T: Mul<T, Output = T>>(a: Seq<T>, k: T) -> Seq<T> {
    Seq::new(a.len(), |i: int| a[i].mul_spec(k))
}

/// Every component can be divided by `k`.
pub open spec fn div_req_each<T: Div<T, Output = T>>(a: Seq<T>, k: T) -> bool {
    forall|i: int| 0 <= i < a.len() ==> #[trigger] a[i].div_req(k)
}

/// Every component divided by `k`.
pub open spec fn div_each<T: Div<T, Output = T>>(a: Seq<T>, k: T) -> Seq<T> {
    Seq::new(a.len(), |i: int| a[i].div_spec(k))
}

// ---------------------------------------------------------------------------
// Abc<T>
// ---------------------------------------------------------------------------

/// Three-phase (abc) coordinate frame.
#[derive(Debug, Clone, Copy, PartialEq)]
pub struct Abc<T> {
    values: [T; 3],
}

impl<T> View for Abc<T> {
    type V = Seq<T>;

    /// The components [a, b, c].
    closed spec fn view(&self) -> Seq<T> {
        self.values@
    }
}

impl<T> Abc<T> {
    /// A frame always has 3 components.
    pub proof fn lemma_len(&self)
        ensures
            self@.len() == 3,
    {
    }
}

impl<T: Copy + Default> Abc<T> {
    pub fn new(a: T, b: T, c: T) -> (r: Self)
        ensures
            r@ == seq![a, b, c],
    {
        let r = Self { values: [a, b, c] };
        assert(r@ =~= seq![a, b, c]);
        r
    }

    pub fn from_array(values: [T; 3]) -> (r: Self)
        ensures
            r@ == values@,
    {
        Self { values }
    }

    pub fn splat(value: T) -> (r: Self)
        ensures
            r@ == seq![value, value, value],
    {
        let r = Self { values: [value, value, value] };
        assert(r@ =~= seq![value, value, value]);
        r
    }

    pub fn a(&self) -> (r: T)
        ensures
            r == self@[0],
    {
        self.values[0]
    }

    pub fn b(&self) -> (r: T)
        ensures
            r == self@[1],
    {
        self.values[1]
    }

    pub fn c(&self) -> (r: T)
        ensures
            r == self@[2],
    {
        self.values[2]
    }

    pub fn a_mut(&mut self) -> (r: &mut T)
        ensures
            *r == old(self)@[0],
            final(self)@ == old(self)@.update(0, *final(r)),
    {
        &mut self.values[0]
    }

    pub fn b_mut(&mut self) -> (r: &mut T)
        ensures
            *r == old(self)@[1],
            final(self)@ == old(self)@.update(1, *final(r)),
    {
        &mut self.values[1]
    }

    pub fn c_mut(&mut self) -> (r: &mut T)
        ensures
            *r == old(self)@[2],
            final(self)@ == old(self)@.update(2, *final(r)),
    {
        &mut self.values[2]
    }

    pub fn as_array(&self) -> (r: &[T; 3])
        ensures
            r@ == self@,
    {
        &self.values
    }
}

impl<T: Copy + Default> Abc<T> {
    /// Where `T::default()` always gives the same value, the default frame is
    /// the frame that `new` builds from default components:
    /// `Abc::new(T::default(), T::default(), T::default()) == Abc::default()`.
    pub proof fn lemma_default_is_new_of_defaults(made: Self, dflt: Self, a: T, b: T, c: T)
        requires
            forall|x: T, y: T|
                call_ensures(T::default, (), x) && call_ensures(T::default, (), y) ==> x == y,
            call_ensures(T::default, (), a),
            call_ensures(T::default, (), b),
            call_ensures(T::default, (), c),
            made@ == seq![a, b, c],
            forall|i: int| 0 <= i < 3 ==> #[trigger] dflt@[i] == dflt@[0],
            call_ensures(T::default, (), dflt@[0]),
        ensures
            made@ == dflt@,
    {
        dflt.lemma_len();
        assert(made@ =~= dflt@);
    }
}

impl<T: Copy + Default> Default for Abc<T> {
    /// Every component is `T::default()`.
    fn default() -> (r: Self)
        ensures
            forall|i: int| 0 <= i < 3 ==> #[trigger] r@[i] == r@[0],
            call_ensures(T::default, (), r@[0]),
    {
        let d = T::default();
        let r = Self { values: [d, d, d] };
        assert(forall|i: int| 0 <= i < 3 ==> #[trigger] r@[i] == r@[0]);
        r
    }
}

impl<T> Index<usize> for Abc<T> {
    type Output = T;

    fn index(&self, idx: usize) -> (r: &T)
        ensures
            *r == self@[idx as int],
    {
        &self.values[idx]
    }
}

impl<T> vstd::std_specs::core::IndexSpecImpl<usize> for Abc<T> {
    open spec fn index_req(&self, index: &usize) -> bool {
        *index < 3
    }
}

impl<T> IndexMut<usize> for Abc<T> {
    fn index_mut(&mut self, idx: usize) -> (r: &mut T)
        requires
            idx < 3,
        ensures
            *r == old(self)@[idx as int],
            final(self)@ == old(self)@.update(idx as int, *final(r)),
    {
        &mut self.values[idx]
    }
}

impl<T: Copy + Add<Output = T>> Add for Abc<T> {
    type Output = Self;

    /// Component-wise `+`.
    fn add(self, rhs: Self) -> (r: Self)
        ensures
            <T as AddSpec>::obeys_add_spec() ==> r@ == add_each(self@, rhs@),
    {
        let r = Self {
            values: [self.values[0] + rhs.values[0], self.values[1] + rhs.values[1], self.values[2] + rhs.values[2]],
        };
        proof {
            if <T as AddSpec>::obeys_add_spec() {
                assert(r@ =~= add_each(self@, rhs@));
            }
        }
        r
    }
}

impl<T: Copy + Add<Output = T>> AddSpecImpl for Abc<T> {
    open spec fn obeys_add_spec() -> bool {
        <T as AddSpec>::obeys_add_spec()
    }

    open spec fn add_req(self, rhs: Self) -> bool {
        add_req_each(self@, rhs@)
    }

    closed spec fn add_spec(self, rhs: Self) -> Self {
        Abc { values: [self.values[0].add_spec(rhs.values[0]), self.values[1].add_spec(rhs.values[1]), self.values[2].add_spec(rhs.values[2])] }
    }
}

impl<T: Copy + Add<Output = T>> AddAssign for Abc<T> {
    /// Component-wise `+=`.
    fn add_assign(&mut self, rhs: Self)
        requires
            add_req_each(old(self)@, rhs@),
        ensures
            <T as AddSpec>::obeys_add_spec() ==> final(self)@ == add_each(old(self)@, rhs@),
    {
        proof {
            assert(add_req_each(self@, rhs@));
        }
        *self = *self + rhs;
    }
}

impl<T: Copy + Sub<Output = T>> Sub for Abc<T> {
    type Output = Self;

    /// Component-wise `-`.
    fn sub(self, rhs: Self) -> (r: Self)
        ensures
            <T as SubSpec>::obeys_sub_spec() ==> r@ == sub_each(self@, rhs@),
    {
        let r = Self {
            values: [self.values[0] - rhs.values[0], self.values[1] - rhs.values[1], self.values[2] - rhs.values[2]],
        };
        proof {
            if <T as SubSpec>::obeys_sub_spec() {
                assert(r@ =~= sub_each(self@, rhs@));
            }
        }
        r
    }
}

impl<T: Copy + Sub<Output = T>> SubSpecImpl for Abc<T> {
    open spec fn obeys_sub_spec() -> bool {
        <T as SubSpec>::obeys_sub_spec()
    }

    open spec fn sub_req(self, rhs: Self) -> bool {
        sub_req_each(self@, rhs@)
    }

    closed spec fn sub_spec(self, rhs: Self) -> Self {
        Abc { values: [self.values[0].sub_spec(rhs.values[0]), self.values[1].sub_spec(rhs.values[1]), self.values[2].sub_spec(rhs.values[2])] }
    }
}

impl<T: Copy + Sub<Output = T>> SubAssign for Abc<T> {
    /// Component-wise `-=`.
    fn sub_assign(&mut self, rhs: Self)
        requires
            sub_req_each(old(self)@, rhs@),
        ensures
            <T as SubSpec>::obeys_sub_spec() ==> final(self)@ == sub_each(old(self)@, rhs@),
    {
        proof {
            assert(sub_req_each(self@, rhs@));
        }
        *self = *self - rhs;
    }
}

impl<T: Copy + Neg<Output = T>> Neg for Abc<T> {
    type Output = Self;

    /// Component-wise negation.
    fn neg(self) -> (r: Self)
        ensures
            <T as NegSpec>::obeys_neg_spec() ==> r@ == neg_each(self@),
    {
        let r = Self { values: [self.values[0].neg(), self.values[1].neg(), self.values[2].neg()] };
        proof {
            if <T as NegSpec>::obeys_neg_spec() {
                assert(r@ =~= neg_each(self@));
            }
        }
        r
    }
}

impl<T: Copy + Neg<Output = T>> NegSpecImpl for Abc<T> {
    open spec fn obeys_neg_spec() -> bool {
        <T as NegSpec>::obeys_neg_spec()
    }

    open spec fn neg_req(self) -> bool {
        neg_req_each(self@)
    }

    closed spec fn neg_spec(self) -> Self {
        Abc { values: [self.values[0].neg_spec(), self.values[1].neg_spec(), self.values[2].neg_spec()] }
    }
}

impl<T: Copy + Mul<T, Output = T>> Mul<T> for Abc<T> {
    type Output = Self;

    /// Every component multiplied by `scalar`.
    fn mul(self, scalar: T) -> (r: Self)
        ensures
            <T as MulSpec>::obeys_mul_spec() ==> r@ == mul_each(self@, scalar),
    {
        let r = Self { values: [self.values[0] * scalar, self.values[1] * scalar, self.values[2] * scalar] };
        proof {
            if <T as MulSpec>::obeys_mul_spec() {
                assert(r@ =~= mul_each(self@, scalar));
            }
        }
        r
    }
}

impl<T: Copy + Mul<T, Output = T>> MulSpecImpl<T> for Abc<T> {
    open spec fn obeys_mul_spec() -> bool {
        <T as MulSpec>::obeys_mul_spec()
    }

    open spec fn mul_req(self, scalar: T) -> bool {
        mul_req_each(self@, scalar)
    }

    closed spec fn mul_spec(self, scalar: T) -> Self {
        Abc { values: [self.values[0].mul_spec(scalar), self.values[1].mul_spec(scalar), self.values[2].mul_spec(scalar)] }
    }
}

impl<T: Copy + Mul<T, Output = T>> MulAssign<T> for Abc<T> {
    /// Every component `*=` `scalar`.
    fn mul_assign(&mut self, scalar: T)
        requires
            mul_req_each(old(self)@, scalar),
        ensures
            <T as MulSpec>::obeys_mul_spec() ==> final(self)@ == mul_each(old(self)@, scalar),
    {
        proof {
            assert(mul_req_each(self@, scalar));
        }
        *self = *self * scalar;
    }
}

impl<T: Copy + Div<T, Output = T>> Div<T> for Abc<T> {
    type Output = Self;

    /// Every component divided by `scalar`.
    fn div(self, scalar: T) -> (r: Self)
        ensures
            <T as DivSpec>::obeys_div_spec() ==> r@ == div_each(self@, scalar),
    {
        let r = Self { values: [self.values[0] / scalar, self.values[1] / scalar, self.values[2] / scalar] };
        proof {
            if <T as DivSpec>::obeys_div_spec() {
                assert(r@ =~= div_each(self@, scalar));
            }
        }
        r
    }
}

impl<T: Copy + Div<T, Output = T>> DivSpecImpl<T> for Abc<T> {
    open spec fn obeys_div_spec() -> bool {
        <T as DivSpec>::obeys_div_spec()
    }

    open spec fn div_req(self, scalar: T) -> bool {
        div_req_each(self@, scalar)
    }

    closed spec fn div_spec(self, scalar: T) -> Self {
        Abc { values: [self.values[0].div_spec(scalar), self.values[1].div_spec(scalar), self.values[2].div_spec(scalar)] }
    }
}

impl<T: Copy + Div<T, Output = T>> DivAssign<T> for Abc<T> {
    /// Every component `/=` `scalar`.
    fn div_assign(&mut self, scalar: T)
        requires
            div_req_each(old(self)@, scalar),
        ensures
            <T as DivSpec>::obeys_div_spec() ==> final(self)@ == div_each(old(self)@, scalar),
    {
        proof {
            assert(div_req_each(self@, scalar));
        }
        *self = *self / scalar;
    }
}

// ---------------------------------------------------------------------------
// AlphaBeta<T>
// ---------------------------------------------------------------------------

/// Two-phase stationary (αβ) coordinate frame.
#[derive(Debug, Clone, Copy, PartialEq)]
pub struct AlphaBeta<T> {
    values: [T; 2],
}

impl<T> View for AlphaBeta<T> {
    type V = Seq<T>;

    /// The components [alpha, beta].
    closed spec fn view(&self) -> Seq<T> {
        self.values@
    }
}

impl<T> AlphaBeta<T> {
    /// A frame always has 2 components.
    pub proof fn lemma_len(&self)
        ensures
            self@.len() == 2,
    {
    }
}

impl<T: Copy + Default> AlphaBeta<T> {
    pub fn new(alpha: T, beta: T) -> (r: Self)
        ensures
            r@ == seq![alpha, beta],
    {
        let r = Self { values: [alpha, beta] };
        assert(r@ =~= seq![alpha, beta]);
        r
    }

    pub fn from_array(values: [T; 2]) -> (r: Self)
        ensures
            r@ == values@,
    {
        Self { values }
    }

    pub fn alpha(&self) -> (r: T)
        ensures
            r == self@[0],
    {
        self.values[0]
    }

    pub fn beta(&self) -> (r: T)
        ensures
            r == self@[1],
    {
        self.values[1]
    }

    pub fn alpha_mut(&mut self) -> (r: &mut T)
        ensures
            *r == old(self)@[0],
            final(self)@ == old(self)@.update(0, *final(r)),
    {
        &mut self.values[0]
    }

    pub fn beta_mut(&mut self) -> (r: &mut T)
        ensures
            *r == old(self)@[1],
            final(self)@ == old(self)@.update(1, *final(r)),
    {
        &mut self.values[1]
    }

    pub fn as_array(&self) -> (r: &[T; 2])
        ensures
            r@ == self@,
    {
        &self.values
    }
}

impl<T: Copy + Default> AlphaBeta<T> {
    /// Where `T::default()` always gives the same value, the default frame is
    /// the frame that `new` builds from default components:
    /// `AlphaBeta::new(T::default(), T::default()) == AlphaBeta::default()`.
    pub proof fn lemma_default_is_new_of_defaults(made: Self, dflt: Self, alpha: T, beta: T)
        requires
            forall|x: T, y: T|
                call_ensures(T::default, (), x) && call_ensures(T::default, (), y) ==> x == y,
            call_ensures(T::default, (), alpha),
            call_ensures(T::default, (), beta),
            made@ == seq![alpha, beta],
            forall|i: int| 0 <= i < 2 ==> #[trigger] dflt@[i] == dflt@[0],
            call_ensures(T::default, (), dflt@[0]),
        ensures
            made@ == dflt@,
    {
        dflt.lemma_len();
        assert(made@ =~= dflt@);
    }
}

impl<T: Copy + Default> Default for AlphaBeta<T> {
    /// Every component is `T::default()`.
    fn default() -> (r: Self)
        ensures
            forall|i: int| 0 <= i < 2 ==> #[trigger] r@[i] == r@[0],
            call_ensures(T::default, (), r@[0]),
    {
        let d = T::default();
        let r = Self { values: [d, d] };
        assert(forall|i: int| 0 <= i < 2 ==> #[trigger] r@[i] == r@[0]);
        r
    }
}

impl<T> Index<usize> for AlphaBeta<T> {
    type Output = T;

    fn index(&self, idx: usize) -> (r: &T)
        ensures
            *r == self@[idx as int],
    {
        &self.values[idx]
    }
}

impl<T> vstd::std_specs::core::IndexSpecImpl<usize> for AlphaBeta<T> {
    open spec fn index_req(&self, index: &usize) -> bool {
        *index < 2
    }
}

impl<T> IndexMut<usize> for AlphaBeta<T> {
    fn index_mut(&mut self, idx: usize) -> (r: &mut T)
        requires
            idx < 2,
        ensures
            *r == old(self)@[idx as int],
            final(self)@ == old(self)@.update(idx as int, *final(r)),
    {
        &mut self.values[idx]
    }
}

impl<T: Copy + Add<Output = T>> Add for AlphaBeta<T> {
    type Output = Self;

    /// Component-wise `+`.
    fn add(self, rhs: Self) -> (r: Self)
        ensures
            <T as AddSpec>::obeys_add_spec() ==> r@ == add_each(self@, rhs@),
    {
        let r = Self {
            values: [self.values[0] + rhs.values[0], self.values[1] + rhs.values[1]],
        };
        proof {
            if <T as AddSpec>::obeys_add_spec() {
                assert(r@ =~= add_each(self@, rhs@));
            }
        }
        r
    }
}

impl<T: Copy + Add<Output = T>> AddSpecImpl for AlphaBeta<T> {
    open spec fn obeys_add_spec() -> bool {
        <T as AddSpec>::obeys_add_spec()
    }

    open spec fn add_req(self, rhs: Self) -> bool {
        add_req_each(self@, rhs@)
    }

    closed spec fn add_spec(self, rhs: Self) -> Self {
        AlphaBeta { values: [self.values[0].add_spec(rhs.values[0]), self.values[1].add_spec(rhs.values[1])] }
    }
}

impl<T: Copy + Add<Output = T>> AddAssign for AlphaBeta<T> {
    /// Component-wise `+=`.
    fn add_assign(&mut self, rhs: Self)
        requires
            add_req_each(old(self)@, rhs@),
        ensures
            <T as AddSpec>::obeys_add_spec() ==> final(self)@ == add_each(old(self)@, rhs@),
    {
        proof {
            assert(add_req_each(self@, rhs@));
        }
        *self = *self + rhs;
    }
}

impl<T: Copy + Sub<Output = T>> Sub for AlphaBeta<T> {
    type Output = Self;

    /// Component-wise `-`.
    fn sub(self, rhs: Self) -> (r: Self)
        ensures
            <T as SubSpec>::obeys_sub_spec() ==> r@ == sub_each(self@, rhs@),
    {
        let r = Self {
            values: [self.values[0] - rhs.values[0], self.values[1] - rhs.values[1]],
        };
        proof {
            if <T as SubSpec>::obeys_sub_spec() {
                assert(r@ =~= sub_each(self@, rhs@));
            }
        }
        r
    }
}

impl<T: Copy + Sub<Output = T>> SubSpecImpl for AlphaBeta<T> {
    open spec fn obeys_sub_spec() -> bool {
        <T as SubSpec>::obeys_sub_spec()
    }

    open spec fn sub_req(self, rhs: Self) -> bool {
        sub_req_each(self@, rhs@)
    }

    closed spec fn sub_spec(self, rhs: Self) -> Self {
        AlphaBeta { values: [self.values[0].sub_spec(rhs.values[0]), self.values[1].sub_spec(rhs.values[1])] }
    }
}

impl<T: Copy + Sub<Output = T>> SubAssign for AlphaBeta<T> {
    /// Component-wise `-=`.
    fn sub_assign(&mut self, rhs: Self)
        requires
            sub_req_each(old(self)@, rhs@),
        ensures
            <T as SubSpec>::obeys_sub_spec() ==> final(self)@ == sub_each(old(self)@, rhs@),
    {
        proof {
            assert(sub_req_each(self@, rhs@));
        }
        *self = *self - rhs;
    }
}

impl<T: Copy + Neg<Output = T>> Neg for AlphaBeta<T> {
    type Output = Self;

    /// Component-wise negation.
    fn neg(self) -> (r: Self)
        ensures
            <T as NegSpec>::obeys_neg_spec() ==> r@ == neg_each(self@),
    {
        let r = Self { values: [self.values[0].neg(), self.values[1].neg()] };
        proof {
            if <T as NegSpec>::obeys_neg_spec() {
                assert(r@ =~= neg_each(self@));
            }
        }
        r
    }
}

impl<T: Copy + Neg<Output = T>> NegSpecImpl for AlphaBeta<T> {
    open spec fn obeys_neg_spec() -> bool {
        <T as NegSpec>::obeys_neg_spec()
    }

    open spec fn neg_req(self) -> bool {
        neg_req_each(self@)
    }

    closed spec fn neg_spec(self) -> Self {
        AlphaBeta { values: [self.values[0].neg_spec(), self.values[1].neg_spec()] }
    }
}

impl<T: Copy + Mul<T, Output = T>> Mul<T> for AlphaBeta<T> {
    type Output = Self;

    /// Every component multiplied by `scalar`.
    fn mul(self, scalar: T) -> (r: Self)
        ensures
            <T as MulSpec>::obeys_mul_spec() ==> r@ == mul_each(self@, scalar),
    {
        let r = Self { values: [self.values[0] * scalar, self.values[1] * scalar] };
        proof {
            if <T as MulSpec>::obeys_mul_spec() {
                assert(r@ =~= mul_each(self@, scalar));
            }
        }
        r
    }
}

impl<T: Copy + Mul<T, Output = T>> MulSpecImpl<T> for AlphaBeta<T> {
    open spec fn obeys_mul_spec() -> bool {
        <T as MulSpec>::obeys_mul_spec()
    }

    open spec fn mul_req(self, scalar: T) -> bool {
        mul_req_each(self@, scalar)
    }

    closed spec fn mul_spec(self, scalar: T) -> Self {
        AlphaBeta { values: [self.values[0].mul_spec(scalar), self.values[1].mul_spec(scalar)] }
    }
}

impl<T: Copy + Mul<T, Output = T>> MulAssign<T> for AlphaBeta<T> {
    /// Every component `*=` `scalar`.
    fn mul_assign(&mut self, scalar: T)
        requires
            mul_req_each(old(self)@, scalar),
        ensures
            <T as MulSpec>::obeys_mul_spec() ==> final(self)@ == mul_each(old(self)@, scalar),
    {
        proof {
            assert(mul_req_each(self@, scalar));
        }
        *self = *self * scalar;
    }
}

impl<T: Copy + Div<T, Output = T>> Div<T> for AlphaBeta<T> {
    type Output = Self;

    /// Every component divided by `scalar`.
    fn div(self, scalar: T) -> (r: Self)
        ensures
            <T as DivSpec>::obeys_div_spec() ==> r@ == div_each(self@, scalar),
    {
        let r = Self { values: [self.values[0] / scalar, self.values[1] / scalar] };
        proof {
            if <T as DivSpec>::obeys_div_spec() {
                assert(r@ =~= div_each(self@, scalar));
            }
        }
        r
    }
}

impl<T: Copy + Div<T, Output = T>> DivSpecImpl<T> for AlphaBeta<T> {
    open spec fn obeys_div_spec() -> bool {
        <T as DivSpec>::obeys_div_spec()
    }

    open spec fn div_req(self, scalar: T) -> bool {
        div_req_each(self@, scalar)
    }

    closed spec fn div_spec(self, scalar: T) -> Self {
        AlphaBeta { values: [self.values[0].div_spec(scalar), self.values[1].div_spec(scalar)] }
    }
}

impl<T: Copy + Div<T, Output = T>> DivAssign<T> for AlphaBeta<T> {
    /// Every component `/=` `scalar`.
    fn div_assign(&mut self, scalar: T)
        requires
            div_req_each(old(self)@, scalar),
        ensures
            <T as DivSpec>::obeys_div_spec() ==> final(self)@ == div_each(old(self)@, scalar),
    {
        proof {
            assert(div_req_each(self@, scalar));
        }
        *self = *self / scalar;
    }
}

// ---------------------------------------------------------------------------
// Dq<T>
// ---------------------------------------------------------------------------

/// Rotating (dq) reference frame.
#[derive(Debug, Clone, Copy, PartialEq)]
pub struct Dq<T> {
    values: [T; 2],
}

impl<T> View for Dq<T> {
    type V = Seq<T>;

    /// The components [d, q].
    closed spec fn view(&self) -> Seq<T> {
        self.values@
    }
}

impl<T> Dq<T> {
    /// A frame always has 2 components.
    pub proof fn lemma_len(&self)
        ensures
            self@.len() == 2,
    {
    }
}

impl<T: Copy + Default> Dq<T> {
    pub fn new(d: T, q: T) -> (r: Self)
        ensures
            r@ == seq![d, q],
    {
        let r = Self { values: [d, q] };
        assert(r@ =~= seq![d, q]);
        r
    }

    pub fn from_array(values: [T; 2]) -> (r: Self)
        ensures
            r@ == values@,
    {
        Self { values }
    }

    pub fn d(&self) -> (r: T)
        ensures
            r == self@[0],
    {
        self.values[0]
    }

    pub fn q(&self) -> (r: T)
        ensures
            r == self@[1],
    {
        self.values[1]
    }

    pub fn d_mut(&mut self) -> (r: &mut T)
        ensures
            *r == old(self)@[0],
            final(self)@ == old(self)@.update(0, *final(r)),
    {
        &mut self.values[0]
    }

    pub fn q_mut(&mut self) -> (r: &mut T)
        ensures
            *r == old(self)@[1],
            final(self)@ == old(self)@.update(1, *final(r)),
    {
        &mut self.values[1]
    }

    pub fn as_array(&self) -> (r: &[T; 2])
        ensures
            r@ == self@,
    {
        &self.values
    }
}

impl<T: Copy + Default> Dq<T> {
    /// Where `T::default()` always gives the same value, the default frame is
    /// the frame that `new` builds from default components:
    /// `Dq::new(T::default(), T::default()) == Dq::default()`.
    pub proof fn lemma_default_is_new_of_defaults(made: Self, dflt: Self, d: T, q: T)
        requires
            forall|x: T, y: T|
                call_ensures(T::default, (), x) && call_ensures(T::default, (), y) ==> x == y,
            call_ensures(T::default, (), d),
            call_ensures(T::default, (), q),
            made@ == seq![d, q],
            forall|i: int| 0 <= i < 2 ==> #[trigger] dflt@[i] == dflt@[0],
            call_ensures(T::default, (), dflt@[0]),
        ensures
            made@ == dflt@,
    {
        dflt.lemma_len();
        assert(made@ =~= dflt@);
    }
}

impl<T: Copy + Default> Default for Dq<T> {
    /// Every component is `T::default()`.
    fn default() -> (r: Self)
        ensures
            forall|i: int| 0 <= i < 2 ==> #[trigger] r@[i] == r@[0],
            call_ensures(T::default, (), r@[0]),
    {
        let d = T::default();
        let r = Self { values: [d, d] };
        assert(forall|i: int| 0 <= i < 2 ==> #[trigger] r@[i] == r@[0]);
        r
    }
}

impl<T> Index<usize> for Dq<T> {
    type Output = T;

    fn index(&self, idx: usize) -> (r: &T)
        ensures
            *r == self@[idx as int],
    {
        &self.values[idx]
    }
}

impl<T> vstd::std_specs::core::IndexSpecImpl<usize> for Dq<T> {
    open spec fn index_req(&self, index: &usize) -> bool {
        *index < 2
    }
}

impl<T> IndexMut<usize> for Dq<T> {
    fn index_mut(&mut self, idx: usize) -> (r: &mut T)
        requires
            idx < 2,
        ensures
            *r == old(self)@[idx as int],
            final(self)@ == old(self)@.update(idx as int, *final(r)),
    {
        &mut self.values[idx]
    }
}

impl<T: Copy + Add<Output = T>> Add for Dq<T> {
    type Output = Self;

    /// Component-wise `+`.
    fn add(self, rhs: Self) -> (r: Self)
        ensures
            <T as AddSpec>::obeys_add_spec() ==> r@ == add_each(self@, rhs@),
    {
        let r = Self {
            values: [self.values[0] + rhs.values[0], self.values[1] + rhs.values[1]],
        };
        proof {
            if <T as AddSpec>::obeys_add_spec() {
                assert(r@ =~= add_each(self@, rhs@));
            }
        }
        r
    }
}

impl<T: Copy + Add<Output = T>> AddSpecImpl for Dq<T> {
    open spec fn obeys_add_spec() -> bool {
        <T as AddSpec>::obeys_add_spec()
    }

    open spec fn add_req(self, rhs: Self) -> bool {
        add_req_each(self@, rhs@)
    }

    closed spec fn add_spec(self, rhs: Self) -> Self {
        Dq { values: [self.values[0].add_spec(rhs.values[0]), self.values[1].add_spec(rhs.values[1])] }
    }
}

impl<T: Copy + Add<Output = T>> AddAssign for Dq<T> {
    /// Component-wise `+=`.
    fn add_assign(&mut self, rhs: Self)
        requires
            add_req_each(old(self)@, rhs@),
        ensures
            <T as AddSpec>::obeys_add_spec() ==> final(self)@ == add_each(old(self)@, rhs@),
    {
        proof {
            assert(add_req_each(self@, rhs@));
        }
        *self = *self + rhs;
    }
}

impl<T: Copy + Sub<Output = T>> Sub for Dq<T> {
    type Output = Self;

    /// Component-wise `-`.
    fn sub(self, rhs: Self) -> (r: Self)
        ensures
            <T as SubSpec>::obeys_sub_spec() ==> r@ == sub_each(self@, rhs@),
    {
        let r = Self {
            values: [self.values[0] - rhs.values[0], self.values[1] - rhs.values[1]],
        };
        proof {
            if <T as SubSpec>::obeys_sub_spec() {
                assert(r@ =~= sub_each(self@, rhs@));
            }
        }
        r
    }
}

impl<T: Copy + Sub<Output = T>> SubSpecImpl for Dq<T> {
    open spec fn obeys_sub_spec() -> bool {
        <T as SubSpec>::obeys_sub_spec()
    }

    open spec fn sub_req(self, rhs: Self) -> bool {
        sub_req_each(self@, rhs@)
    }

    closed spec fn sub_spec(self, rhs: Self) -> Self {
        Dq { values: [self.values[0].sub_spec(rhs.values[0]), self.values[1].sub_spec(rhs.values[1])] }
    }
}

impl<T: Copy + Sub<Output = T>> SubAssign for Dq<T> {
    /// Component-wise `-=`.
    fn sub_assign(&mut self, rhs: Self)
        requires
            sub_req_each(old(self)@, rhs@),
        ensures
            <T as SubSpec>::obeys_sub_spec() ==> final(self)@ == sub_each(old(self)@, rhs@),
    {
        proof {
            assert(sub_req_each(self@, rhs@));
        }
        *self = *self - rhs;
    }
}

impl<T: Copy + Neg<Output = T>> Neg for Dq<T> {
    type Output = Self;

    /// Component-wise negation.
    fn neg(self) -> (r: Self)
        ensures
            <T as NegSpec>::obeys_neg_spec() ==> r@ == neg_each(self@),
    {
        let r = Self { values: [self.values[0].neg(), self.values[1].neg()] };
        proof {
            if <T as NegSpec>::obeys_neg_spec() {
                assert(r@ =~= neg_each(self@));
            }
        }
        r
    }
}

impl<T: Copy + Neg<Output = T>> NegSpecImpl for Dq<T> {
    open spec fn obeys_neg_spec() -> bool {
        <T as NegSpec>::obeys_neg_spec()
    }

    open spec fn neg_req(self) -> bool {
        neg_req_each(self@)
    }

    closed spec fn neg_spec(self) -> Self {
        Dq { values: [self.values[0].neg_spec(), self.values[1].neg_spec()] }
    }
}

impl<T: Copy + Mul<T, Output = T>> Mul<T> for Dq<T> {
    type Output = Self;

    /// Every component multiplied by `scalar`.
    fn mul(self, scalar: T) -> (r: Self)
        ensures
            <T as MulSpec>::obeys_mul_spec() ==> r@ == mul_each(self@, scalar),
    {
        let r = Self { values: [self.values[0] * scalar, self.values[1] * scalar] };
        proof {
            if <T as MulSpec>::obeys_mul_spec() {
                assert(r@ =~= mul_each(self@, scalar));
            }
        }
        r
    }
}

impl<T: Copy + Mul<T, Output = T>> MulSpecImpl<T> for Dq<T> {
    open spec fn obeys_mul_spec() -> bool {
        <T as MulSpec>::obeys_mul_spec()
    }

    open spec fn mul_req(self, scalar: T) -> bool {
        mul_req_each(self@, scalar)
    }

    closed spec fn mul_spec(self, scalar: T) -> Self {
        Dq { values: [self.values[0].mul_spec(scalar), self.values[1].mul_spec(scalar)] }
    }
}

impl<T: Copy + Mul<T, Output = T>> MulAssign<T> for Dq<T> {
    /// Every component `*=` `scalar`.
    fn mul_assign(&mut self, scalar: T)
        requires
            mul_req_each(old(self)@, scalar),
        ensures
            <T as MulSpec>::obeys_mul_spec() ==> final(self)@ == mul_each(old(self)@, scalar),
    {
        proof {
            assert(mul_req_each(self@, scalar));
        }
        *self = *self * scalar;
    }
}

impl<T: Copy + Div<T, Output = T>> Div<T> for Dq<T> {
    type Output = Self;

    /// Every component divided by `scalar`.
    fn div(self, scalar: T) -> (r: Self)
        ensures
            <T as DivSpec>::obeys_div_spec() ==> r@ == div_each(self@, scalar),
    {
        let r = Self { values: [self.values[0] / scalar, self.values[1] / scalar] };
        proof {
            if <T as DivSpec>::obeys_div_spec() {
                assert(r@ =~= div_each(self@, scalar));
            }
        }
        r
    }
}

impl<T: Copy + Div<T, Output = T>> DivSpecImpl<T> for Dq<T> {
    open spec fn obeys_div_spec() -> bool {
        <T as DivSpec>::obeys_div_spec()
    }

    open spec fn div_req(self, scalar: T) -> bool {
        div_req_each(self@, scalar)
    }

    closed spec fn div_spec(self, scalar: T) -> Self {
        Dq { values: [self.values[0].div_spec(scalar), self.values[1].div_spec(scalar)] }
    }
}

impl<T: Copy + Div<T, Output = T>> DivAssign<T> for Dq<T> {
    /// Every component `/=` `scalar`.
    fn div_assign(&mut self, scalar: T)
        requires
            div_req_each(old(self)@, scalar),
        ensures
            <T as DivSpec>::obeys_div_spec() ==> final(self)@ == div_each(old(self)@, scalar),
    {
        proof {
            assert(div_req_each(self@, scalar));
        }
        *self = *self / scalar;
    }
}

} // verus!
