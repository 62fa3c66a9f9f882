use pawer::frames::{Abc, AlphaBeta, Dq};

fn approx_eq(a: f32, b: f32) -> bool {
    (a - b).abs() < 1e-5
}

#[test]
fn abc_default_is_zero() {
    let abc: Abc<f32> = Abc::default();
    assert!(approx_eq(abc.a(), 0.0));
    assert!(approx_eq(abc.b(), 0.0));
    assert!(approx_eq(abc.c(), 0.0));
}

#[test]
fn abc_new_values() {
    let abc = Abc::new(1.0_f32, -0.5, -0.5);
    assert!(approx_eq(abc.a(), 1.0));
    assert!(approx_eq(abc.b(), -0.5));
    assert!(approx_eq(abc.c(), -0.5));
}

#[test]
fn abc_array_access() {
    let abc = Abc::new(1.0_f32, 2.0, 3.0);
    assert!(approx_eq(abc[0], 1.0));
    assert!(approx_eq(abc[1], 2.0));
    assert!(approx_eq(abc[2], 3.0));
}

#[test]
fn abc_addition() {
    let a = Abc::new(1.0_f32, 2.0, 3.0);
    let b = Abc::new(4.0_f32, 5.0, 6.0);
    let c = a + b;
    assert!(approx_eq(c.a(), 5.0));
    assert!(approx_eq(c.b(), 7.0));
    assert!(approx_eq(c.c(), 9.0));
}

#[test]
fn abc_subtraction() {
    let a = Abc::new(4.0_f32, 5.0, 6.0);
    let b = Abc::new(1.0_f32, 2.0, 3.0);
    let c = a - b;
    assert!(approx_eq(c.a(), 3.0));
    assert!(approx_eq(c.b(), 3.0));
    assert!(approx_eq(c.c(), 3.0));
}

#[test]
fn abc_negation() {
    let abc = Abc::new(1.0_f32, -0.5, -0.5);
    let neg = -abc;
    assert!(approx_eq(neg.a(), -1.0));
    assert!(approx_eq(neg.b(), 0.5));
    assert!(approx_eq(neg.c(), 0.5));
}

#[test]
fn abc_add_assign() {
    let mut a = Abc::new(1.0_f32, 2.0, 3.0);
    a += Abc::new(0.5, 0.5, 0.5);
    assert!(approx_eq(a.a(), 1.5));
    assert!(approx_eq(a.b(), 2.5));
    assert!(approx_eq(a.c(), 3.5));
}

#[test]
fn abc_sub_assign() {
    let mut a = Abc::new(1.0_f32, 2.0, 3.0);
    a -= Abc::new(0.5, 0.5, 0.5);
    assert!(approx_eq(a.a(), 0.5));
    assert!(approx_eq(a.b(), 1.5));
    assert!(approx_eq(a.c(), 2.5));
}

#[test]
fn abc_scalar_multiply() {
    let abc = Abc::new(1.0_f32, 2.0, 3.0);
    let scaled = abc * 2.0;
    assert!(approx_eq(scaled.a(), 2.0));
    assert!(approx_eq(scaled.b(), 4.0));
    assert!(approx_eq(scaled.c(), 6.0));
}

#[test]
fn abc_scalar_divide() {
    let abc = Abc::new(2.0_f32, 4.0, 6.0);
    let scaled = abc / 2.0;
    assert!(approx_eq(scaled.a(), 1.0));
    assert!(approx_eq(scaled.b(), 2.0));
    assert!(approx_eq(scaled.c(), 3.0));
}

#[test]
fn abc_mul_assign() {
    let mut abc = Abc::new(1.0_f32, 2.0, 3.0);
    abc *= 3.0;
    assert!(approx_eq(abc.a(), 3.0));
    assert!(approx_eq(abc.b(), 6.0));
    assert!(approx_eq(abc.c(), 9.0));
}

#[test]
fn abc_div_assign() {
    let mut abc = Abc::new(3.0_f32, 6.0, 9.0);
    abc /= 3.0;
    assert!(approx_eq(abc.a(), 1.0));
    assert!(approx_eq(abc.b(), 2.0));
    assert!(approx_eq(abc.c(), 3.0));
}

#[test]
fn abc_splat() {
    let abc = Abc::splat(5.0_f32);
    assert!(approx_eq(abc.a(), 5.0));
    assert!(approx_eq(abc.b(), 5.0));
    assert!(approx_eq(abc.c(), 5.0));
}

#[test]
fn abc_mutable_accessors() {
    let mut abc = Abc::new(1.0_f32, 2.0, 3.0);
    *abc.a_mut() = 10.0;
    *abc.b_mut() = 20.0;
    *abc.c_mut() = 30.0;
    assert!(approx_eq(abc.a(), 10.0));
    assert!(approx_eq(abc.b(), 20.0));
    assert!(approx_eq(abc.c(), 30.0));
}

#[test]
fn alphabeta_default_is_zero() {
    let ab: AlphaBeta<f32> = AlphaBeta::default();
    assert!(approx_eq(ab.alpha(), 0.0));
    assert!(approx_eq(ab.beta(), 0.0));
}

#[test]
fn alphabeta_new_values() {
    let ab = AlphaBeta::new(1.0_f32, 2.0);
    assert!(approx_eq(ab.alpha(), 1.0));
    assert!(approx_eq(ab.beta(), 2.0));
}

#[test]
fn alphabeta_addition() {
    let a = AlphaBeta::new(1.0_f32, 2.0);
    let b = AlphaBeta::new(3.0_f32, 4.0);
    let c = a + b;
    assert!(approx_eq(c.alpha(), 4.0));
    assert!(approx_eq(c.beta(), 6.0));
}

#[test]
fn alphabeta_subtraction() {
    let a = AlphaBeta::new(3.0_f32, 4.0);
    let b = AlphaBeta::new(1.0_f32, 2.0);
    let c = a - b;
    assert!(approx_eq(c.alpha(), 2.0));
    assert!(approx_eq(c.beta(), 2.0));
}

#[test]
fn alphabeta_negation() {
    let ab = AlphaBeta::new(1.0_f32, -2.0);
    let neg = -ab;
    assert!(approx_eq(neg.alpha(), -1.0));
    assert!(approx_eq(neg.beta(), 2.0));
}

#[test]
fn alphabeta_add_assign() {
    let mut a = AlphaBeta::new(1.0_f32, 2.0);
    a += AlphaBeta::new(0.5, 0.5);
    assert!(approx_eq(a.alpha(), 1.5));
    assert!(approx_eq(a.beta(), 2.5));
}

#[test]
fn alphabeta_sub_assign() {
    let mut a = AlphaBeta::new(1.0_f32, 2.0);
    a -= AlphaBeta::new(0.5, 0.5);
    assert!(approx_eq(a.alpha(), 0.5));
    assert!(approx_eq(a.beta(), 1.5));
}

#[test]
fn alphabeta_scalar_multiply() {
    let ab = AlphaBeta::new(1.0_f32, 2.0);
    let scaled = ab * 3.0;
    assert!(approx_eq(scaled.alpha(), 3.0));
    assert!(approx_eq(scaled.beta(), 6.0));
}

#[test]
fn alphabeta_scalar_divide() {
    let ab = AlphaBeta::new(3.0_f32, 6.0);
    let scaled = ab / 3.0;
    assert!(approx_eq(scaled.alpha(), 1.0));
    assert!(approx_eq(scaled.beta(), 2.0));
}

#[test]
fn alphabeta_mul_assign() {
    let mut ab = AlphaBeta::new(1.0_f32, 2.0);
    ab *= 2.0;
    assert!(approx_eq(ab.alpha(), 2.0));
    assert!(approx_eq(ab.beta(), 4.0));
}

#[test]
fn alphabeta_div_assign() {
    let mut ab = AlphaBeta::new(4.0_f32, 6.0);
    ab /= 2.0;
    assert!(approx_eq(ab.alpha(), 2.0));
    assert!(approx_eq(ab.beta(), 3.0));
}

#[test]
fn dq_default_is_zero() {
    let dq: Dq<f32> = Dq::default();
    assert!(approx_eq(dq.d(), 0.0));
    assert!(approx_eq(dq.q(), 0.0));
}

#[test]
fn dq_addition() {
    let a = Dq::new(1.0_f32, 2.0);
    let b = Dq::new(3.0_f32, 4.0);
    let c = a + b;
    assert!(approx_eq(c.d(), 4.0));
    assert!(approx_eq(c.q(), 6.0));
}

#[test]
fn dq_subtraction() {
    let a = Dq::new(3.0_f32, 4.0);
    let b = Dq::new(1.0_f32, 2.0);
    let c = a - b;
    assert!(approx_eq(c.d(), 2.0));
    assert!(approx_eq(c.q(), 2.0));
}

#[test]
fn dq_negation() {
    let dq = Dq::new(1.0_f32, -2.0);
    let neg = -dq;
    assert!(approx_eq(neg.d(), -1.0));
    assert!(approx_eq(neg.q(), 2.0));
}

#[test]
fn dq_add_assign() {
    let mut a = Dq::new(1.0_f32, 2.0);
    a += Dq::new(0.5, 0.5);
    assert!(approx_eq(a.d(), 1.5));
    assert!(approx_eq(a.q(), 2.5));
}

#[test]
fn dq_sub_assign() {
    let mut a = Dq::new(1.0_f32, 2.0);
    a -= Dq::new(0.5, 0.5);
    assert!(approx_eq(a.d(), 0.5));
    assert!(approx_eq(a.q(), 1.5));
}

#[test]
fn dq_scalar_multiply() {
    let dq = Dq::new(1.0_f32, 2.0);
    let scaled = dq * 3.0;
    assert!(approx_eq(scaled.d(), 3.0));
    assert!(approx_eq(scaled.q(), 6.0));
}

#[test]
fn dq_scalar_divide() {
    let dq = Dq::new(3.0_f32, 6.0);
    let scaled = dq / 3.0;
    assert!(approx_eq(scaled.d(), 1.0));
    assert!(approx_eq(scaled.q(), 2.0));
}

#[test]
fn dq_mul_assign() {
    let mut dq = Dq::new(1.0_f32, 2.0);
    dq *= 2.0;
    assert!(approx_eq(dq.d(), 2.0));
    assert!(approx_eq(dq.q(), 4.0));
}

#[test]
fn dq_div_assign() {
    let mut dq = Dq::new(4.0_f32, 6.0);
    dq /= 2.0;
    assert!(approx_eq(dq.d(), 2.0));
    assert!(approx_eq(dq.q(), 3.0));
}
