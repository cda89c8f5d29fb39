//! Exact rational arithmetic.
//!
//! `Rat` is the executable representation: a signed 64-bit numerator over a
//! positive 64-bit denominator. Its mathematical value is the spec-level pair
//! `Q` of unbounded integers, compared by cross-multiplication (`q_eq`), so
//! that every arithmetic contract can be stated exactly.
//!
//! Executable operations reduce their result by a common divisor and fail
//! (return `None`) only when even the reduced result does not fit the 64-bit
//! representation.

use vstd::prelude::*;

verus! {

/// A rational value at the specification level: numerator `n` over
/// denominator `d`, with no bound on either.
pub struct Q {
    pub n: int,
    pub d: int,
}

/// Well-formed spec rational: positive denominator.
pub open spec fn q_wf(q: Q) -> bool {
    q.d > 0
}

/// Value equality of spec rationals, by cross-multiplication.
pub open spec fn q_eq(a: Q, b: Q) -> bool {
    a.n * b.d == b.n * a.d
}

/// The spec rational for an integer.
pub open spec fn q_int(i: int) -> Q {
    Q { n: i, d: 1 }
}

pub open spec fn q_add(a: Q, b: Q) -> Q {
    Q { n: a.n * b.d + b.n * a.d, d: a.d * b.d }
}

pub open spec fn q_sub(a: Q, b: Q) -> Q {
    Q { n: a.n * b.d - b.n * a.d, d: a.d * b.d }
}

pub open spec fn q_mul(a: Q, b: Q) -> Q {
    Q { n: a.n * b.n, d: a.d * b.d }
}

/// Division, with the sign moved into the numerator so that a well-formed
/// dividend and a nonzero divisor give a well-formed quotient.
pub open spec fn q_div(a: Q, b: Q) -> Q {
    if b.n >= 0 {
        Q { n: a.n * b.d, d: a.d * b.n }
    } else {
        Q { n: -(a.n * b.d), d: -(a.d * b.n) }
    }
}

pub open spec fn q_neg(a: Q) -> Q {
    Q { n: -a.n, d: a.d }
}

pub open spec fn q_abs(a: Q) -> Q {
    if a.n >= 0 {
        a
    } else {
        q_neg(a)
    }
}

/// Order on well-formed spec rationals, by cross-multiplication.
pub open spec fn q_le(a: Q, b: Q) -> bool {
    a.n * b.d <= b.n * a.d
}

pub open spec fn q_lt(a: Q, b: Q) -> bool {
    a.n * b.d < b.n * a.d
}

/// Products of four factors may be regrouped pairwise.
pub proof fn lemma_mul_reorder(p: int, q: int, r: int, s: int)
    ensures
        (p * q) * (r * s) == (p * r) * (q * s),
        (p * q) * (r * s) == (p * s) * (q * r),
{
    vstd::arithmetic::mul::lemma_mul_is_associative(p, q, r * s);
    vstd::arithmetic::mul::lemma_mul_is_associative(q, r, s);
    vstd::arithmetic::mul::lemma_mul_is_commutative(q, r);
    vstd::arithmetic::mul::lemma_mul_is_associative(r, q, s);
    vstd::arithmetic::mul::lemma_mul_is_associative(p, r, q * s);
    vstd::arithmetic::mul::lemma_mul_is_commutative(q, s);
    vstd::arithmetic::mul::lemma_mul_is_associative(s, q, r);
    vstd::arithmetic::mul::lemma_mul_is_associative(q, s, r);
    vstd::arithmetic::mul::lemma_mul_is_commutative(s, r);
    vstd::arithmetic::mul::lemma_mul_is_associative(p, s, q * r);
    assert(q * (r * s) == (q * r) * s);
    assert((r * q) * s == r * (q * s));
    assert(q * (r * s) == (r * q) * s);
    assert(q * (s * r) == (q * s) * r);
    assert((s * q) * r == s * (q * r));
}

/// Well-formedness is preserved by the arithmetic constructions.
pub broadcast proof fn lemma_q_add_wf(a: Q, b: Q)
    requires
        q_wf(a),
        q_wf(b),
    ensures
        q_wf(#[trigger] q_add(a, b)),
{
    vstd::arithmetic::mul::lemma_mul_strictly_positive(a.d, b.d);
}

/// Well-formedness is preserved by subtraction.
pub broadcast proof fn lemma_q_sub_wf(a: Q, b: Q)
    requires
        q_wf(a),
        q_wf(b),
    ensures
        q_wf(#[trigger] q_sub(a, b)),
{
    vstd::arithmetic::mul::lemma_mul_strictly_positive(a.d, b.d);
}

/// Well-formedness is preserved by multiplication.
pub broadcast proof fn lemma_q_mul_wf(a: Q, b: Q)
    requires
        q_wf(a),
        q_wf(b),
    ensures
        q_wf(#[trigger] q_mul(a, b)),
{
    vstd::arithmetic::mul::lemma_mul_strictly_positive(a.d, b.d);
}

/// Well-formedness is preserved by division with a nonzero divisor.
pub broadcast proof fn lemma_q_div_wf(a: Q, b: Q)
    requires
        q_wf(a),
        q_wf(b),
        b.n != 0,
    ensures
        q_wf(#[trigger] q_div(a, b)),
{
    if b.n > 0 {
        vstd::arithmetic::mul::lemma_mul_strictly_positive(a.d, b.n);
    } else {
        vstd::arithmetic::mul::lemma_mul_strictly_positive(a.d, -b.n);
        vstd::arithmetic::mul::lemma_mul_unary_negation(a.d, b.n);
    }
}

/// All the well-formedness closure facts.
pub broadcast group group_q_wf {
    lemma_q_add_wf,
    lemma_q_sub_wf,
    lemma_q_mul_wf,
    lemma_q_div_wf,
}

/// Equality of spec rationals is transitive through a well-formed middle
/// value.
#[verifier::rlimit(100)]
pub proof fn lemma_q_eq_trans(a: Q, b: Q, c: Q)
    by (nonlinear_arith)
    requires
        b.d != 0,
        q_eq(a, b),
        q_eq(b, c),
    ensures
        q_eq(a, c),
{
}

/// Addition respects value equality.
pub proof fn lemma_add_congr(a: Q, a2: Q, b: Q, b2: Q)
    requires
        q_wf(a),
        q_wf(a2),
        q_wf(b),
        q_wf(b2),
        q_eq(a, a2),
        q_eq(b, b2),
    ensures
        q_eq(q_add(a, b), q_add(a2, b2)),
{
    vstd::arithmetic::mul::lemma_mul_is_distributive_add_other_way(
        a2.d * b2.d,
        a.n * b.d,
        b.n * a.d,
    );
    vstd::arithmetic::mul::lemma_mul_is_distributive_add_other_way(
        a.d * b.d,
        a2.n * b2.d,
        b2.n * a2.d,
    );
    lemma_mul_reorder(a.n, b.d, a2.d, b2.d);
    lemma_mul_reorder(b.n, a.d, a2.d, b2.d);
    lemma_mul_reorder(a2.n, b2.d, a.d, b.d);
    lemma_mul_reorder(b2.n, a2.d, a.d, b.d);
    assert((a.n * b.d) * (a2.d * b2.d) == (a.n * a2.d) * (b.d * b2.d));
    assert((b.n * a.d) * (a2.d * b2.d) == (b.n * b2.d) * (a.d * a2.d));
    assert((a2.n * b2.d) * (a.d * b.d) == (a2.n * a.d) * (b2.d * b.d));
    assert((b2.n * a2.d) * (a.d * b.d) == (b2.n * b.d) * (a2.d * a.d));
    vstd::arithmetic::mul::lemma_mul_is_commutative(b2.d, b.d);
    vstd::arithmetic::mul::lemma_mul_is_commutative(a2.d, a.d);
    assert((a.n * a2.d) * (b.d * b2.d) == (a2.n * a.d) * (b2.d * b.d)) by {
        vstd::arithmetic::mul::lemma_mul_is_commutative(b.d, b2.d);
    }
    assert((b.n * b2.d) * (a.d * a2.d) == (b2.n * b.d) * (a2.d * a.d)) by {
        vstd::arithmetic::mul::lemma_mul_is_commutative(a.d, a2.d);
    }
}

/// Subtraction respects value equality.
pub proof fn lemma_sub_congr(a: Q, a2: Q, b: Q, b2: Q)
    requires
        q_wf(a),
        q_wf(a2),
        q_wf(b),
        q_wf(b2),
        q_eq(a, a2),
        q_eq(b, b2),
    ensures
        q_eq(q_sub(a, b), q_sub(a2, b2)),
{
    vstd::arithmetic::mul::lemma_mul_unary_negation(b.n, b2.d);
    vstd::arithmetic::mul::lemma_mul_unary_negation(b2.n, b.d);
    assert(q_eq(q_neg(b), q_neg(b2)));
    lemma_add_congr(a, a2, q_neg(b), q_neg(b2));
    vstd::arithmetic::mul::lemma_mul_unary_negation(b.n, a.d);
    assert(q_add(a, q_neg(b)) == q_sub(a, b));
    vstd::arithmetic::mul::lemma_mul_unary_negation(b2.n, a2.d);
    assert(q_add(a2, q_neg(b2)) == q_sub(a2, b2));
}

/// Multiplication respects value equality.
pub proof fn lemma_mul_congr(a: Q, a2: Q, b: Q, b2: Q)
    requires
        q_wf(a),
        q_wf(a2),
        q_wf(b),
        q_wf(b2),
        q_eq(a, a2),
        q_eq(b, b2),
    ensures
        q_eq(q_mul(a, b), q_mul(a2, b2)),
{
    lemma_mul_reorder(a.n, b.n, a2.d, b2.d);
    lemma_mul_reorder(a2.n, b2.n, a.d, b.d);
    assert((a.n * b.n) * (a2.d * b2.d) == (a.n * a2.d) * (b.n * b2.d));
    assert((a2.n * b2.n) * (a.d * b.d) == (a2.n * a.d) * (b2.n * b.d));
}

/// A nonzero value stays nonzero across value equality.
#[verifier::rlimit(100)]
pub proof fn lemma_nonzero_congr(b: Q, b2: Q)
    by (nonlinear_arith)
    requires
        q_wf(b),
        q_wf(b2),
        q_eq(b, b2),
        b.n != 0,
    ensures
        b2.n != 0,
{
}

/// Division respects value equality.
#[verifier::rlimit(100)]
pub proof fn lemma_div_congr(a: Q, a2: Q, b: Q, b2: Q)
    requires
        q_wf(a),
        q_wf(a2),
        q_wf(b),
        q_wf(b2),
        q_eq(a, a2),
        q_eq(b, b2),
        b.n != 0,
        b2.n != 0,
    ensures
        q_eq(q_div(a, b), q_div(a2, b2)),
{
    assert((a.n * b.d) * (a2.d * b2.n) == (a2.n * b2.d) * (a.d * b.n)) by (nonlinear_arith)
        requires
            a.n * a2.d == a2.n * a.d,
            b.n * b2.d == b2.n * b.d,
    ;
    if b.n >= 0 {
        assert(b2.n > 0) by (nonlinear_arith)
            requires
                b.n * b2.d == b2.n * b.d,
                b.d > 0,
                b2.d > 0,
                b.n >= 0,
                b2.n != 0,
        ;
        assert(q_eq(q_div(a, b), q_div(a2, b2))) by (nonlinear_arith)
            requires
                (a.n * b.d) * (a2.d * b2.n) == (a2.n * b2.d) * (a.d * b.n),
                b.n >= 0,
                b2.n > 0,
        ;
    } else {
        assert(b2.n < 0) by (nonlinear_arith)
            requires
                b.n * b2.d == b2.n * b.d,
                b.d > 0,
                b2.d > 0,
                b.n < 0,
        ;
        assert(q_eq(q_div(a, b), q_div(a2, b2))) by (nonlinear_arith)
            requires
                (a.n * b.d) * (a2.d * b2.n) == (a2.n * b2.d) * (a.d * b.n),
                b.n < 0,
                b2.n < 0,
        ;
    }
}

/// Negation respects value equality.
#[verifier::rlimit(100)]
pub proof fn lemma_neg_congr(a: Q, a2: Q)
    by (nonlinear_arith)
    requires
        q_eq(a, a2),
    ensures
        q_eq(q_neg(a), q_neg(a2)),
{
}

/// The absolute value respects value equality.
#[verifier::rlimit(100)]
pub proof fn lemma_abs_congr(a: Q, a2: Q)
    by (nonlinear_arith)
    requires
        q_wf(a),
        q_wf(a2),
        q_eq(a, a2),
    ensures
        q_eq(q_abs(a), q_abs(a2)),
{
}

/// The order respects value equality.
pub proof fn lemma_le_congr(a: Q, a2: Q, b: Q, b2: Q)
    requires
        q_wf(a),
        q_wf(a2),
        q_wf(b),
        q_wf(b2),
        q_eq(a, a2),
        q_eq(b, b2),
    ensures
        q_le(a, b) <==> q_le(a2, b2),
        q_lt(a, b) <==> q_lt(a2, b2),
{
    assert((a.n * b.d) * (a2.d * b2.d) == (a2.n * b2.d) * (a.d * b.d)) by (nonlinear_arith)
        requires
            a.n * a2.d == a2.n * a.d,
            b.n * b2.d == b2.n * b.d,
    ;
    assert((b.n * a.d) * (a2.d * b2.d) == (b2.n * a2.d) * (a.d * b.d)) by (nonlinear_arith)
        requires
            a.n * a2.d == a2.n * a.d,
            b.n * b2.d == b2.n * b.d,
    ;
    assert((q_le(a, b) <==> q_le(a2, b2)) && (q_lt(a, b) <==> q_lt(a2, b2))) by (nonlinear_arith)
        requires
            (a.n * b.d) * (a2.d * b2.d) == (a2.n * b2.d) * (a.d * b.d),
            (b.n * a.d) * (a2.d * b2.d) == (b2.n * a2.d) * (a.d * b.d),
            a.d > 0,
            a2.d > 0,
            b.d > 0,
            b2.d > 0,
    ;
}

/// Every value scales itself, by the unit factor.
pub proof fn lemma_scaled_refl(x: Q)
    ensures
        q_scaled_of(x, x),
{
    assert(x.n == 1 * x.n && x.d == 1 * x.d);
}

/// A value whose scaled-up form is representable is representable itself.
pub proof fn lemma_scaled_in_range(exact: Q, v: Q)
    requires
        q_scaled_of(exact, v),
        v.d >= 1,
        q_in_range(exact),
    ensures
        q_in_range(v),
{
    let g = choose|g: int| g >= 1 && exact.n == #[trigger] (g * v.n) && exact.d == g * v.d;
    assert(q_in_range(v)) by (nonlinear_arith)
        requires
            g >= 1,
            exact.n == g * v.n,
            exact.d == g * v.d,
            v.d >= 1,
            -(i64::MAX as int) <= exact.n <= i64::MAX as int,
            exact.d <= i64::MAX as int,
    ;
}

/// Scaling composes.
pub proof fn lemma_scaled_trans(a: Q, b: Q, c: Q)
    requires
        q_scaled_of(a, b),
        q_scaled_of(b, c),
    ensures
        q_scaled_of(a, c),
{
    let g1 = choose|g: int| g >= 1 && a.n == #[trigger] (g * b.n) && a.d == g * b.d;
    let g2 = choose|g: int| g >= 1 && b.n == #[trigger] (g * c.n) && b.d == g * c.d;
    vstd::arithmetic::mul::lemma_mul_is_associative(g1, g2, c.n);
    vstd::arithmetic::mul::lemma_mul_is_associative(g1, g2, c.d);
    assert(g1 * g2 >= 1) by (nonlinear_arith)
        requires
            g1 >= 1,
            g2 >= 1,
    ;
    assert(a.n == (g1 * g2) * c.n);
    assert(a.d == (g1 * g2) * c.d);
}

/// Scale factors on both arguments carry through addition.
pub proof fn lemma_add_scaled(a: Q, a2: Q, b: Q, b2: Q)
    requires
        q_scaled_of(a, a2),
        q_scaled_of(b, b2),
    ensures
        q_scaled_of(q_add(a, b), q_add(a2, b2)),
{
    let ga = choose|g: int| g >= 1 && a.n == #[trigger] (g * a2.n) && a.d == g * a2.d;
    let gb = choose|g: int| g >= 1 && b.n == #[trigger] (g * b2.n) && b.d == g * b2.d;
    lemma_mul_reorder(ga, a2.n, gb, b2.d);
    lemma_mul_reorder(gb, b2.n, ga, a2.d);
    vstd::arithmetic::mul::lemma_mul_is_commutative(gb, ga);
    vstd::arithmetic::mul::lemma_mul_is_distributive_add(ga * gb, a2.n * b2.d, b2.n * a2.d);
    lemma_mul_reorder(ga, a2.d, gb, b2.d);
    assert(ga * gb >= 1) by (nonlinear_arith)
        requires
            ga >= 1,
            gb >= 1,
    ;
    assert(q_add(a, b).n == (ga * gb) * q_add(a2, b2).n);
    assert(q_add(a, b).d == (ga * gb) * q_add(a2, b2).d);
}

/// Scale factors on both arguments carry through subtraction.
pub proof fn lemma_sub_scaled(a: Q, a2: Q, b: Q, b2: Q)
    requires
        q_scaled_of(a, a2),
        q_scaled_of(b, b2),
    ensures
        q_scaled_of(q_sub(a, b), q_sub(a2, b2)),
{
    let ga = choose|g: int| g >= 1 && a.n == #[trigger] (g * a2.n) && a.d == g * a2.d;
    let gb = choose|g: int| g >= 1 && b.n == #[trigger] (g * b2.n) && b.d == g * b2.d;
    lemma_mul_reorder(ga, a2.n, gb, b2.d);
    lemma_mul_reorder(gb, b2.n, ga, a2.d);
    vstd::arithmetic::mul::lemma_mul_is_commutative(gb, ga);
    vstd::arithmetic::mul::lemma_mul_is_distributive_sub(ga * gb, a2.n * b2.d, b2.n * a2.d);
    lemma_mul_reorder(ga, a2.d, gb, b2.d);
    assert(ga * gb >= 1) by (nonlinear_arith)
        requires
            ga >= 1,
            gb >= 1,
    ;
    assert(q_sub(a, b).n == (ga * gb) * q_sub(a2, b2).n);
    assert(q_sub(a, b).d == (ga * gb) * q_sub(a2, b2).d);
}

/// Scale factors on both arguments carry through multiplication.
pub proof fn lemma_mul_scaled(a: Q, a2: Q, b: Q, b2: Q)
    requires
        q_scaled_of(a, a2),
        q_scaled_of(b, b2),
    ensures
        q_scaled_of(q_mul(a, b), q_mul(a2, b2)),
{
    let ga = choose|g: int| g >= 1 && a.n == #[trigger] (g * a2.n) && a.d == g * a2.d;
    let gb = choose|g: int| g >= 1 && b.n == #[trigger] (g * b2.n) && b.d == g * b2.d;
    lemma_mul_reorder(ga, a2.n, gb, b2.n);
    lemma_mul_reorder(ga, a2.d, gb, b2.d);
    assert(ga * gb >= 1) by (nonlinear_arith)
        requires
            ga >= 1,
            gb >= 1,
    ;
    assert(q_mul(a, b).n == (ga * gb) * q_mul(a2, b2).n);
    assert(q_mul(a, b).d == (ga * gb) * q_mul(a2, b2).d);
}

/// Scale factors on both arguments carry through division, whose result's
/// sign normalization follows the divisor's unchanged sign.
pub proof fn lemma_div_scaled(a: Q, a2: Q, b: Q, b2: Q)
    requires
        q_scaled_of(a, a2),
        q_scaled_of(b, b2),
    ensures
        q_scaled_of(q_div(a, b), q_div(a2, b2)),
{
    let ga = choose|g: int| g >= 1 && a.n == #[trigger] (g * a2.n) && a.d == g * a2.d;
    let gb = choose|g: int| g >= 1 && b.n == #[trigger] (g * b2.n) && b.d == g * b2.d;
    assert((b.n >= 0) == (b2.n >= 0)) by (nonlinear_arith)
        requires
            gb >= 1,
            b.n == gb * b2.n,
    ;
    lemma_mul_reorder(ga, a2.n, gb, b2.d);
    lemma_mul_reorder(ga, a2.d, gb, b2.n);
    assert(ga * gb >= 1) by (nonlinear_arith)
        requires
            ga >= 1,
            gb >= 1,
    ;
    assert(a.n * b.d == (ga * gb) * (a2.n * b2.d));
    assert(a.d * b.n == (ga * gb) * (a2.d * b2.n));
    if b.n >= 0 {
        assert(q_div(a, b).n == (ga * gb) * q_div(a2, b2).n);
        assert(q_div(a, b).d == (ga * gb) * q_div(a2, b2).d);
    } else {
        vstd::arithmetic::mul::lemma_mul_unary_negation(ga * gb, a2.n * b2.d);
        vstd::arithmetic::mul::lemma_mul_unary_negation(ga * gb, a2.d * b2.n);
        assert(q_div(a, b).n == (ga * gb) * q_div(a2, b2).n);
        assert(q_div(a, b).d == (ga * gb) * q_div(a2, b2).d);
    }
}

/// The spec view of an optional rational field (`None` stands for an
/// absent or unbounded value).
pub open spec fn opt_view(o: Option<Rat>) -> Option<Q> {
    match o {
        Some(r) => Some(r@),
        None => None,
    }
}

/// Well-formedness of an optional rational field.
pub open spec fn opt_wf(o: Option<Rat>) -> bool {
    match o {
        Some(r) => r.wf(),
        None => true,
    }
}

/// Whether a spec rational is representable by the executable type: both
/// components within the 64-bit range the executable operations keep to.
pub open spec fn q_in_range(q: Q) -> bool {
    -(i64::MAX as int) <= q.n <= i64::MAX as int && q.d <= i64::MAX as int
}

/// Whether `exact` is `v` scaled up componentwise by some positive factor:
/// the relation an executable result bears to the exact value it reduces.
pub open spec fn q_scaled_of(exact: Q, v: Q) -> bool {
    exists|g: int| g >= 1 && exact.n == #[trigger] (g * v.n) && exact.d == g * v.d
}

/// Value equality of optional spec rationals.
pub open spec fn opt_q_eq(a: Option<Q>, b: Option<Q>) -> bool {
    match (a, b) {
        (Some(x), Some(y)) => q_eq(x, y),
        (None, None) => true,
        _ => false,
    }
}

/// An exact rational number: numerator `n` over positive denominator `d`.
///
/// Well-formed values (see [`Rat::wf`]) keep the numerator above `i64::MIN`
/// so that negation never overflows.
#[derive(Clone, Copy, Debug)]
pub struct Rat {
    pub n: i64,
    pub d: i64,
}

impl View for Rat {
    type V = Q;

    open spec fn view(&self) -> Q {
        Q { n: self.n as int, d: self.d as int }
    }
}

/// Multiply two 64-bit values exactly in 128 bits.
fn wide_mul(x: i64, y: i64) -> (r: i128)
    ensures
        r == x as int * y as int,
{
    proof {
        assert(x as int * y as int <= i128::MAX && x as int * y as int >= i128::MIN)
            by (nonlinear_arith)
            requires
                i64::MIN <= x <= i64::MAX,
                i64::MIN <= y <= i64::MAX,
        ;
    }
    (x as i128) * (y as i128)
}

/// Greatest common divisor by Euclid's algorithm. Only positivity is relied
/// on; the callers check divisibility of the reduction at run time.
fn gcd_u128(a0: u128, b0: u128) -> (r: u128)
    requires
        a0 > 0 || b0 > 0,
    ensures
        r > 0,
{
    let mut a: u128 = a0;
    let mut b: u128 = b0;
    while b != 0
        invariant
            a > 0 || b > 0,
        decreases b,
    {
        let t: u128 = a % b;
        a = b;
        b = t;
    }
    a
}

/// Reduce `num / den` to a well-formed `Rat` of the same value, if it fits.
#[verifier::rlimit(100)]
fn reduce(num: i128, den: i128) -> (r: Option<Rat>)
    requires
        den >= 1,
        num > i128::MIN,
    ensures
        (r matches Some(v) ==> v.wf() && v@.n * den as int == num as int * v@.d),
        (-(i64::MAX as int) <= num <= i64::MAX as int && den <= i64::MAX as int) ==> r.is_some(),
        (r matches Some(v) ==> q_scaled_of(Q { n: num as int, d: den as int }, v@)),
{
    let neg: bool = num < 0;
    let m: u128 = if neg {
        (-num) as u128
    } else {
        num as u128
    };
    let du: u128 = den as u128;
    let g: u128 = gcd_u128(m, du);
    if m % g == 0 && du % g == 0 {
        let mr: u128 = m / g;
        let dr: u128 = du / g;
        proof {
            assert(m == g * (m / g) && du == g * (du / g) && m / g <= m && 1 <= du / g <= du)
                by (nonlinear_arith)
                requires
                    g > 0,
                    du >= 1,
                    m % g == 0,
                    du % g == 0,
            ;
        }
        if mr <= i64::MAX as u128 && dr <= i64::MAX as u128 {
            let n2: i64 = if neg {
                -(mr as i64)
            } else {
                mr as i64
            };
            let d2: i64 = dr as i64;
            proof {
                assert(n2 as int * den as int == num as int * d2 as int) by (nonlinear_arith)
                    requires
                        g > 0,
                        den >= 1,
                        m == g * (mr as int),
                        du == g * (dr as int),
                        du == den as int,
                        m == if neg {
                            -(num as int)
                        } else {
                            num as int
                        },
                        n2 as int == if neg {
                            -(mr as int)
                        } else {
                            mr as int
                        },
                        d2 == dr as int,
                ;
            }
            proof {
                let gi = g as int;
                assert(num as int == gi * (n2 as int) && den as int == gi * (d2 as int))
                    by (nonlinear_arith)
                    requires
                        g > 0,
                        m == g * (mr as int),
                        du == g * (dr as int),
                        du == den as int,
                        m == if neg {
                            -(num as int)
                        } else {
                            num as int
                        },
                        n2 as int == if neg {
                            -(mr as int)
                        } else {
                            mr as int
                        },
                        d2 == dr as int,
                        gi == g as int,
                ;
                let v = Rat { n: n2, d: d2 };
                assert(gi >= 1 && num as int == gi * v@.n && den as int == gi * v@.d);
                assert(q_scaled_of(Q { n: num as int, d: den as int }, v@));
            }
            Some(Rat { n: n2, d: d2 })
        } else {
            proof {
                assert(!(m <= i64::MAX && du <= i64::MAX)) by (nonlinear_arith)
                    requires
                        g > 0,
                        m == g * (mr as int),
                        du == g * (dr as int),
                        mr > i64::MAX || dr > i64::MAX,
                ;
            }
            None
        }
    } else {
        // The reduction check failed; fall back to the unreduced pair.
        if m <= i64::MAX as u128 && du <= i64::MAX as u128 {
            let n2: i64 = if neg {
                -(m as i64)
            } else {
                m as i64
            };
            proof {
                let v = Rat { n: n2, d: du as i64 };
                assert(1int >= 1 && num as int == 1 * v@.n && den as int == 1 * v@.d);
                assert(q_scaled_of(Q { n: num as int, d: den as int }, v@));
            }
            Some(Rat { n: n2, d: du as i64 })
        } else {
            None
        }
    }
}

impl Rat {
    /// Well-formed executable rational: positive denominator, numerator
    /// strictly above `i64::MIN`.
    pub open spec fn wf(self) -> bool {
        self.d > 0 && self.n > i64::MIN
    }

    /// The rational `n / d`. `None` exactly when `d` is zero or either
    /// argument is `i64::MIN` (whose magnitude has no 64-bit negation).
    pub fn new(n: i64, d: i64) -> (r: Option<Rat>)
        ensures
            r matches Some(v) ==> v.wf() && q_eq(v@, Q { n: n as int, d: d as int }),
            r is None <==> (d == 0 || n == i64::MIN || d == i64::MIN),
    {
        if d == 0 || n == i64::MIN || d == i64::MIN {
            return None;
        }
        let (nn, dd): (i64, i64) = if d < 0 {
            (-n, -d)
        } else {
            (n, d)
        };
        let r = reduce(nn as i128, dd as i128);
        proof {
            assert(r matches Some(v) ==> q_eq(v@, Q { n: n as int, d: d as int }))
                by (nonlinear_arith)
                requires
                    d != 0,
                    nn as int == if d < 0 {
                        -(n as int)
                    } else {
                        n as int
                    },
                    dd as int == if d < 0 {
                        -(d as int)
                    } else {
                        d as int
                    },
                    r matches Some(v) ==> v@.n * dd as int == nn as int * v@.d,
            ;
        }
        r
    }

    /// The rational for an integer.
    pub fn from_int(i: i64) -> (r: Rat)
        requires
            i > i64::MIN,
        ensures
            r.wf(),
            r@ == q_int(i as int),
    {
        Rat { n: i, d: 1 }
    }

    /// Zero.
    pub fn zero() -> (r: Rat)
        ensures
            r.wf(),
            r@ == q_int(0),
    {
        Rat { n: 0, d: 1 }
    }

    /// One.
    pub fn one() -> (r: Rat)
        ensures
            r.wf(),
            r@ == q_int(1),
    {
        Rat { n: 1, d: 1 }
    }

    /// The numerator.
    pub fn numer(&self) -> (r: i64)
        ensures
            r == self@.n,
    {
        self.n
    }

    /// The denominator.
    pub fn denom(&self) -> (r: i64)
        ensures
            r == self@.d,
    {
        self.d
    }

    /// Exact sum. `None` only when even the reduced result is out of range;
    /// in particular the sum of values whose exact numerator and denominator
    /// both fit 64 bits is always returned.
    pub fn add(self, other: Rat) -> (r: Option<Rat>)
        requires
            self.wf(),
            other.wf(),
        ensures
            r matches Some(v) ==> v.wf() && q_eq(v@, q_add(self@, other@)),
            (-(i64::MAX as int) <= q_add(self@, other@).n <= i64::MAX as int
                && q_add(self@, other@).d <= i64::MAX as int) ==> r.is_some(),
            (r matches Some(v) ==> q_scaled_of(q_add(self@, other@), v@)),
    {
        let p1: i128 = wide_mul(self.n, other.d);
        let p2: i128 = wide_mul(other.n, self.d);
        let den: i128 = wide_mul(self.d, other.d);
        proof {
            assert(den >= 1 && p1 + p2 > i128::MIN && p1 + p2 <= i128::MAX) by (nonlinear_arith)
                requires
                    self.d >= 1,
                    other.d >= 1,
                    self.n > i64::MIN,
                    other.n > i64::MIN,
                    self.n <= i64::MAX && other.n <= i64::MAX,
                    self.d <= i64::MAX && other.d <= i64::MAX,
                    p1 == self.n as int * other.d as int,
                    p2 == other.n as int * self.d as int,
                    den == self.d as int * other.d as int,
            ;
        }
        reduce(p1 + p2, den)
    }

    /// Exact difference, under the same completeness condition as `add`.
    pub fn sub(self, other: Rat) -> (r: Option<Rat>)
        requires
            self.wf(),
            other.wf(),
        ensures
            r matches Some(v) ==> v.wf() && q_eq(v@, q_sub(self@, other@)),
            (-(i64::MAX as int) <= q_sub(self@, other@).n <= i64::MAX as int
                && q_sub(self@, other@).d <= i64::MAX as int) ==> r.is_some(),
            (r matches Some(v) ==> q_scaled_of(q_sub(self@, other@), v@)),
    {
        let r = self.add(other.neg());
        proof {
            assert(q_add(self@, q_neg(other@)) == q_sub(self@, other@)) by (nonlinear_arith);
        }
        r
    }

    /// Exact product, under the same completeness condition as `add`.
    pub fn mul(self, other: Rat) -> (r: Option<Rat>)
        requires
            self.wf(),
            other.wf(),
        ensures
            r matches Some(v) ==> v.wf() && q_eq(v@, q_mul(self@, other@)),
            (-(i64::MAX as int) <= q_mul(self@, other@).n <= i64::MAX as int
                && q_mul(self@, other@).d <= i64::MAX as int) ==> r.is_some(),
            (r matches Some(v) ==> q_scaled_of(q_mul(self@, other@), v@)),
    {
        let num: i128 = wide_mul(self.n, other.n);
        let den: i128 = wide_mul(self.d, other.d);
        proof {
            assert(den >= 1 && num > i128::MIN) by (nonlinear_arith)
                requires
                    self.d >= 1,
                    other.d >= 1,
                    self.n > i64::MIN,
                    other.n > i64::MIN,
                    self.n <= i64::MAX && other.n <= i64::MAX,
                    num == self.n as int * other.n as int,
                    den == self.d as int * other.d as int,
            ;
        }
        reduce(num, den)
    }

    /// Exact quotient. `None` when the divisor is zero or the reduced result
    /// is out of range.
    pub fn div(self, other: Rat) -> (r: Option<Rat>)
        requires
            self.wf(),
            other.wf(),
        ensures
            r matches Some(v) ==> v.wf() && q_eq(v@, q_div(self@, other@)),
            other@.n == 0 ==> r is None,
            (other@.n != 0 && -(i64::MAX as int) <= q_div(self@, other@).n <= i64::MAX as int
                && q_div(self@, other@).d <= i64::MAX as int) ==> r.is_some(),
            (r matches Some(v) ==> q_scaled_of(q_div(self@, other@), v@)),
    {
        if other.n == 0 {
            return None;
        }
        let num0: i128 = wide_mul(self.n, other.d);
        let den0: i128 = wide_mul(self.d, other.n);
        proof {
            assert(num0 > i128::MIN && num0 < i128::MAX && den0 > i128::MIN && den0 < i128::MAX)
                by (nonlinear_arith)
                requires
                    self.d >= 1,
                    other.d >= 1,
                    self.n > i64::MIN,
                    other.n > i64::MIN,
                    self.n <= i64::MAX && other.n <= i64::MAX,
                    self.d <= i64::MAX && other.d <= i64::MAX,
                    num0 == self.n as int * other.d as int,
                    den0 == self.d as int * other.n as int,
            ;
        }
        let (num, den): (i128, i128) = if other.n < 0 {
            (-num0, -den0)
        } else {
            (num0, den0)
        };
        proof {
            assert(den >= 1 && num > i128::MIN && num == q_div(self@, other@).n && den == q_div(
                self@,
                other@,
            ).d) by (nonlinear_arith)
                requires
                    self.d >= 1,
                    other.d >= 1,
                    self.n > i64::MIN,
                    other.n > i64::MIN,
                    other.n != 0,
                    self.n <= i64::MAX && other.n <= i64::MAX,
                    self.d <= i64::MAX && other.d <= i64::MAX,
                    num0 == self.n as int * other.d as int,
                    den0 == self.d as int * other.n as int,
                    num == if other.n < 0 {
                        -(num0 as int)
                    } else {
                        num0 as int
                    },
                    den == if other.n < 0 {
                        -(den0 as int)
                    } else {
                        den0 as int
                    },
                    q_div(self@, other@) == (if other@.n >= 0 {
                        Q { n: self@.n * other@.d, d: self@.d * other@.n }
                    } else {
                        Q { n: -(self@.n * other@.d), d: -(self@.d * other@.n) }
                    }),
        ;
        }
        reduce(num, den)
    }

    /// Exact negation; total on well-formed values.
    pub fn neg(self) -> (r: Rat)
        requires
            self.wf(),
        ensures
            r.wf(),
            r@ == q_neg(self@),
    {
        Rat { n: -self.n, d: self.d }
    }

    /// Exact absolute value; total on well-formed values.
    pub fn abs(self) -> (r: Rat)
        requires
            self.wf(),
        ensures
            r.wf(),
            r@ == q_abs(self@),
    {
        if self.n < 0 {
            Rat { n: -self.n, d: self.d }
        } else {
            self
        }
    }

    /// Value equality test.
    pub fn eq_val(&self, other: &Rat) -> (r: bool)
        requires
            self.wf(),
            other.wf(),
        ensures
            r == q_eq(self@, other@),
    {
        wide_mul(self.n, other.d) == wide_mul(other.n, self.d)
    }

    /// Order test.
    pub fn le(&self, other: &Rat) -> (r: bool)
        requires
            self.wf(),
            other.wf(),
        ensures
            r == q_le(self@, other@),
    {
        wide_mul(self.n, other.d) <= wide_mul(other.n, self.d)
    }

    /// Strict order test.
    pub fn lt(&self, other: &Rat) -> (r: bool)
        requires
            self.wf(),
            other.wf(),
        ensures
            r == q_lt(self@, other@),
    {
        wide_mul(self.n, other.d) < wide_mul(other.n, self.d)
    }

    /// Whether the value is zero.
    pub fn is_zero(&self) -> (r: bool)
        requires
            self.wf(),
        ensures
            r == q_eq(self@, q_int(0)),
    {
        self.n == 0
    }

    /// Whether the value is strictly negative.
    pub fn is_neg(&self) -> (r: bool)
        requires
            self.wf(),
        ensures
            r == q_lt(self@, q_int(0)),
    {
        self.n < 0
    }
}


/// The integer square root: the greatest `r` with `r * r <= n`.
pub open spec fn spec_isqrt(n: nat) -> nat
    decreases n,
{
    if n == 0 {
        0
    } else {
        let r = spec_isqrt((n - 1) as nat);
        if (r + 1) * (r + 1) <= n {
            r + 1
        } else {
            r
        }
    }
}

/// The integer square root brackets its argument between consecutive
/// squares.
pub proof fn lemma_isqrt_bracket(n: nat)
    ensures
        spec_isqrt(n) * spec_isqrt(n) <= n,
        n < (spec_isqrt(n) + 1) * (spec_isqrt(n) + 1),
    decreases n,
{
    if n == 0 {
        assert(spec_isqrt(0) == 0);
        assert(0nat < (0 + 1) * (0 + 1)) by (nonlinear_arith);
    } else {
        lemma_isqrt_bracket((n - 1) as nat);
        let r = spec_isqrt((n - 1) as nat);
        let s = spec_isqrt(n);
        assert(s == if (r + 1) * (r + 1) <= n {
            r + 1
        } else {
            r
        });
        assert(s * s <= n && n < (s + 1) * (s + 1)) by (nonlinear_arith)
            requires
                r * r <= n - 1,
                n - 1 < (r + 1) * (r + 1),
                n >= 1,
                s == if (r + 1) * (r + 1) <= n {
                    r + 1
                } else {
                    r
                },
        ;
    }
}

/// Any value bracketed between consecutive squares is the integer square
/// root.
pub proof fn lemma_isqrt_unique(n: nat, a: nat)
    requires
        a * a <= n,
        n < (a + 1) * (a + 1),
    ensures
        a == spec_isqrt(n),
{
    lemma_isqrt_bracket(n);
    let s = spec_isqrt(n);
    assert(a == s) by (nonlinear_arith)
        requires
            a * a <= n,
            n < (a + 1) * (a + 1),
            s * s <= n,
            n < (s + 1) * (s + 1),
            a >= 0,
            s >= 0,
    ;
}

/// The integer square root, executable, by bisection.
fn isqrt_u128(m: u128) -> (r: u128)
    ensures
        r == spec_isqrt(m as nat),
{
    let mut lo: u128 = 0;
    let mut hi: u128 = 0x1_0000_0000_0000_0000;
    proof {
        assert((hi as int) * (hi as int) > m as int) by (nonlinear_arith)
            requires
                hi == 0x1_0000_0000_0000_0000,
                m <= u128::MAX,
        ;
    }
    while hi - lo > 1
        invariant
            lo < hi,
            hi <= 0x1_0000_0000_0000_0000,
            (lo as int) * (lo as int) <= m as int,
            (m as int) < (hi as int) * (hi as int),
        decreases hi - lo,
    {
        let mid: u128 = lo + (hi - lo) / 2;
        proof {
            assert((mid as int) * (mid as int) <= u128::MAX) by (nonlinear_arith)
                requires
                    mid < 0x1_0000_0000_0000_0000,
            ;
        }
        if mid * mid <= m {
            lo = mid;
        } else {
            hi = mid;
        }
    }
    proof {
        lemma_isqrt_unique(m as nat, lo as nat);
    }
    lo
}

/// Floors of equal rational values are equal.
pub proof fn lemma_floor_congr(xn: int, xd: int, yn: int, yd: int)
    requires
        xd > 0,
        yd > 0,
        xn >= 0,
        yn >= 0,
        xn * yd == yn * xd,
    ensures
        xn / xd == yn / yd,
{
    vstd::arithmetic::div_mod::lemma_fundamental_div_mod(xn, xd);
    let q = xn / xd;
    let r = xn % xd;
    let r2 = yn - q * yd;
    assert(r2 * xd == r * yd && 0 <= r2 < yd) by (nonlinear_arith)
        requires
            xn == xd * q + r,
            0 <= r < xd,
            xn * yd == yn * xd,
            r2 == yn - q * yd,
            xd > 0,
            yd > 0,
    ;
    vstd::arithmetic::div_mod::lemma_fundamental_div_mod_converse_div(yn, yd, q, r2);
}

/// The square-root scale: rational square roots are reported over this
/// denominator.
pub const SQRT_SCALE: i64 = 1_000_000_000;

/// The rational square root, rounded down to the square-root scale: the
/// numerator is the integer square root of the value scaled by the square of
/// the scale.
pub open spec fn spec_rat_sqrt(q: Q) -> Q {
    Q { n: spec_isqrt(((q.n * 1_000_000_000_000_000_000) / q.d) as nat) as int, d: 1_000_000_000 }
}

/// The rational square root respects value equality.
pub proof fn lemma_rat_sqrt_congr(a: Q, b: Q)
    requires
        q_wf(a),
        q_wf(b),
        a.n >= 0,
        b.n >= 0,
        q_eq(a, b),
    ensures
        spec_rat_sqrt(a) == spec_rat_sqrt(b),
{
    assert((a.n * 1_000_000_000_000_000_000) * b.d == (b.n * 1_000_000_000_000_000_000) * a.d)
        by (nonlinear_arith)
        requires
            a.n * b.d == b.n * a.d,
    ;
    lemma_floor_congr(a.n * 1_000_000_000_000_000_000, a.d, b.n * 1_000_000_000_000_000_000, b.d);
}

impl Rat {
    /// The square root, rounded down to the square-root scale. The scaled
    /// rounding keeps about nine decimal places.
    pub fn sqrt(self) -> (r: Rat)
        requires
            self.wf(),
            self@.n >= 0,
        ensures
            r.wf(),
            r@ == spec_rat_sqrt(self@),
    {
        let num: u128 = (self.n as u128) * 1_000_000_000_000_000_000u128;
        proof {
            assert((self.n as int) * 1_000_000_000_000_000_000 <= u128::MAX) by (nonlinear_arith)
                requires
                    0 <= self.n <= i64::MAX,
            ;
        }
        let m: u128 = num / (self.d as u128);
        let s: u128 = isqrt_u128(m);
        proof {
            assert(m as int == (self@.n * 1_000_000_000_000_000_000) / self@.d);
            lemma_isqrt_bracket(m as nat);
            assert(m <= num) by (nonlinear_arith)
                requires
                    m as int == num as int / (self.d as int),
                    self.d >= 1,
                    num >= 0,
            ;
            assert(s <= i64::MAX) by (nonlinear_arith)
                requires
                    (s as int) * (s as int) <= m as int,
                    m as int <= (i64::MAX as int) * 1_000_000_000_000_000_000,
            ;
        }
        Rat { n: s as i64, d: 1_000_000_000 }
    }
}

} // verus!
