use casecsv::Rat;

fn rq(n: i64, d: i64) -> Rat {
    Rat::new(n, d).unwrap()
}

fn approx(r: &Rat) -> f64 {
    r.numer() as f64 / r.denom() as f64
}

#[test]
fn rat_new_rejects_zero_denominator() {
    assert!(Rat::new(1, 0).is_none());
    assert!(Rat::new(i64::MIN, 1).is_none());
    assert!(Rat::new(1, i64::MIN).is_none());
    assert!(Rat::new(3, -6).is_some());
}

#[test]
fn rat_new_normalizes_sign_and_reduces() {
    let a = rq(3, -6);
    assert!(a.eq_val(&rq(-1, 2)));
    assert!(a.denom() > 0);
    let b = rq(4, 100);
    assert_eq!(b.numer(), 1);
    assert_eq!(b.denom(), 25);
}

#[test]
fn rat_arithmetic_is_exact() {
    let a = rq(1, 3);
    let b = rq(1, 6);
    assert!(a.add(b).unwrap().eq_val(&rq(1, 2)));
    assert!(a.sub(b).unwrap().eq_val(&rq(1, 6)));
    assert!(a.mul(b).unwrap().eq_val(&rq(1, 18)));
    assert!(a.div(b).unwrap().eq_val(&rq(2, 1)));
    assert!(b.div(a).unwrap().eq_val(&rq(1, 2)));
    assert!(a.div(Rat::zero()).is_none());
    assert!(rq(-7, 2).abs().eq_val(&rq(7, 2)));
    assert!(rq(7, 2).neg().eq_val(&rq(-7, 2)));
}

#[test]
fn rat_comparisons() {
    assert!(rq(1, 3).lt(&rq(1, 2)));
    assert!(rq(1, 2).le(&rq(2, 4)));
    assert!(rq(-1, 2).is_neg());
    assert!(Rat::zero().is_zero());
    assert!(rq(2, 4).eq_val(&rq(1, 2)));
    assert!(!rq(1, 3).eq_val(&rq(1, 2)));
}

#[test]
fn rat_sqrt_brackets_the_root() {
    let v = rq(2, 1).sqrt();
    let x = approx(&v);
    assert!((x - std::f64::consts::SQRT_2).abs() < 1e-8);
    let exact = rq(9, 4).sqrt();
    assert!((approx(&exact) - 1.5).abs() < 1e-9);
    let zero = Rat::zero().sqrt();
    assert!(zero.is_zero());
}

#[test]
fn rat_add_overflow_is_reported() {
    let big = rq(i64::MAX, 1);
    assert!(big.add(big).is_none());
    assert!(big.add(rq(-1, 1)).is_some());
}
