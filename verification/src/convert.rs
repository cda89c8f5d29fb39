//! The per-unit normalization calculators: base conversion, delta-to-star
//! un-meshing, tap ratios, star-bus numbering, and DC-line reactive limits.

use vstd::arithmetic::mul::{
    lemma_mul_inequality, lemma_mul_is_associative, lemma_mul_is_commutative,
    lemma_mul_is_distributive_add_other_way, lemma_mul_nonnegative, lemma_mul_nonzero,
    lemma_mul_unary_negation,
};
use vstd::prelude::*;

use crate::branch::Branch;
use crate::bus::{Bus, NONE, PQ};
use crate::case::Case;
use crate::dcline::DCLine;
use crate::gen::{qgen_is_load, Gen};
use crate::errors::{CaseError, FieldName, RecordKind};
use crate::rawnet::{
    RawBranch, RawBus, RawCaseId, RawFixedShunt, RawGenerator, RawLoad, RawNetwork,
    RawSwitchedShunt, RawTransformer, RawTwoTerminalDC,
};
use crate::rat::{
    lemma_abs_congr, lemma_add_congr, lemma_add_scaled, lemma_div_congr, lemma_div_scaled,
    lemma_le_congr, lemma_mul_congr, lemma_mul_reorder, lemma_mul_scaled, lemma_nonzero_congr,
    lemma_q_eq_trans, lemma_rat_sqrt_congr, lemma_scaled_in_range, lemma_scaled_refl,
    lemma_scaled_trans, lemma_sub_congr, lemma_sub_scaled, q_abs, q_add, q_div, q_eq, q_in_range,
    q_int, q_le, q_lt, q_mul, q_scaled_of, q_sub, q_wf, spec_rat_sqrt, Q, Rat,
};

verus! {

broadcast use crate::rat::group_q_wf;

/// Lift a rational result, reading an absent value as an overflow.
fn ra(o: Option<Rat>) -> (r: Result<Rat, CaseError>)
    ensures
        (r matches Ok(v) ==> o == Some(v)),
        (r is Err ==> r == Err::<Rat, CaseError>(CaseError::Overflow) && o is None),
{
    match o {
        Some(v) => Ok(v),
        None => Err(CaseError::Overflow),
    }
}

/// One star leg from three loop impedances: half of the sum of the two
/// loops meeting at the leg, less the opposite loop.
pub open spec fn spec_star_leg(p: Q, q: Q, opposite: Q) -> Q {
    q_div(q_sub(q_add(p, q), opposite), q_int(2))
}

/// The exact values one star-leg computation passes through, each
/// representable: when they are, the leg is owed a success.
pub open spec fn spec_leg_reprable(p: Q, q: Q, opposite: Q) -> bool {
    q_in_range(q_add(p, q)) && q_in_range(q_sub(q_add(p, q), opposite)) && q_in_range(
        spec_star_leg(p, q, opposite),
    )
}

/// Un-mesh three loop impedance components into three star-leg components:
/// `leg1 = (z12 + z31 - z23) / 2`, `leg2 = (z12 + z23 - z31) / 2`,
/// `leg3 = (z31 + z23 - z12) / 2`.
pub fn delta_to_star(z12: Rat, z23: Rat, z31: Rat) -> (r: Result<(Rat, Rat, Rat), CaseError>)
    requires
        z12.wf(),
        z23.wf(),
        z31.wf(),
    ensures
        (r matches Ok(legs) ==> legs.0.wf() && legs.1.wf() && legs.2.wf() && q_eq(
            legs.0@,
            spec_star_leg(z12@, z31@, z23@),
        ) && q_eq(legs.1@, spec_star_leg(z12@, z23@, z31@)) && q_eq(
            legs.2@,
            spec_star_leg(z31@, z23@, z12@),
        )),
        (r is Err ==> r == Err::<(Rat, Rat, Rat), CaseError>(CaseError::Overflow)),
        (spec_leg_reprable(z12@, z31@, z23@) && spec_leg_reprable(z12@, z23@, z31@)
            && spec_leg_reprable(z31@, z23@, z12@)) ==> r is Ok,
{
    let two = Rat::from_int(2);
    let leg1 = match delta_leg(z12, z31, z23, two) {
        Ok(v) => v,
        Err(e) => {
            return Err(e);
        },
    };
    let leg2 = match delta_leg(z12, z23, z31, two) {
        Ok(v) => v,
        Err(e) => {
            return Err(e);
        },
    };
    let leg3 = match delta_leg(z31, z23, z12, two) {
        Ok(v) => v,
        Err(e) => {
            return Err(e);
        },
    };
    Ok((leg1, leg2, leg3))
}

/// One leg of the delta-to-star transform.
fn delta_leg(p: Rat, q: Rat, opposite: Rat, two: Rat) -> (r: Result<Rat, CaseError>)
    requires
        p.wf(),
        q.wf(),
        opposite.wf(),
        two.wf(),
        two@ == q_int(2),
    ensures
        (r matches Ok(v) ==> v.wf() && q_eq(v@, spec_star_leg(p@, q@, opposite@))),
        (r is Err ==> r == Err::<Rat, CaseError>(CaseError::Overflow)),
        spec_leg_reprable(p@, q@, opposite@) ==> r is Ok,
{
    let s = match ra(p.add(q)) {
        Ok(v) => v,
        Err(e) => {
            return Err(e);
        },
    };
    let d = match ra(s.sub(opposite)) {
        Ok(v) => v,
        Err(e) => {
            proof {
                if spec_leg_reprable(p@, q@, opposite@) {
                    lemma_scaled_refl(opposite@);
                    lemma_sub_scaled(q_add(p@, q@), s@, opposite@, opposite@);
                    lemma_scaled_in_range(
                        q_sub(q_add(p@, q@), opposite@),
                        q_sub(s@, opposite@),
                    );
                    assert(false);
                }
            }
            return Err(e);
        },
    };
    let leg = match ra(d.div(two)) {
        Ok(v) => v,
        Err(e) => {
            proof {
                if spec_leg_reprable(p@, q@, opposite@) {
                    lemma_scaled_refl(opposite@);
                    lemma_sub_scaled(q_add(p@, q@), s@, opposite@, opposite@);
                    lemma_scaled_trans(
                        q_sub(q_add(p@, q@), opposite@),
                        q_sub(s@, opposite@),
                        d@,
                    );
                    lemma_scaled_refl(two@);
                    lemma_div_scaled(q_sub(q_add(p@, q@), opposite@), d@, two@, two@);
                    lemma_scaled_in_range(spec_star_leg(p@, q@, opposite@), q_div(d@, two@));
                    assert(false);
                }
            }
            return Err(e);
        },
    };
    proof {
        // s ~ p + q, d ~ s - opposite, leg ~ d / 2; chain the congruences
        // down to the closed form.
        lemma_sub_congr(s@, q_add(p@, q@), opposite@, opposite@);
        lemma_q_eq_trans(d@, q_sub(s@, opposite@), q_sub(q_add(p@, q@), opposite@));
        lemma_nonzero_congr(q_int(2), two@);
        lemma_div_congr(d@, q_sub(q_add(p@, q@), opposite@), two@, q_int(2));
        lemma_q_eq_trans(leg@, q_div(d@, two@), spec_star_leg(p@, q@, opposite@));
    }
    Ok(leg)
}

/// Delta-to-star correctness: for positive loop reactances meeting the
/// triangle-like feasibility condition (each loop below the sum of the other
/// two), the derived legs recover the loops pairwise and exactly:
/// `leg1 + leg2 = x12`, `leg2 + leg3 = x23`, `leg3 + leg1 = x31`.
pub proof fn lemma_delta_star_recovers(x12: Q, x23: Q, x31: Q)
    requires
        q_wf(x12),
        q_wf(x23),
        q_wf(x31),
        q_lt(q_int(0), x12),
        q_lt(q_int(0), x23),
        q_lt(q_int(0), x31),
        q_lt(x23, q_add(x12, x31)),
        q_lt(x31, q_add(x12, x23)),
        q_lt(x12, q_add(x31, x23)),
    ensures
        q_eq(q_add(spec_star_leg(x12, x31, x23), spec_star_leg(x12, x23, x31)), x12),
        q_eq(q_add(spec_star_leg(x12, x23, x31), spec_star_leg(x31, x23, x12)), x23),
        q_eq(q_add(spec_star_leg(x31, x23, x12), spec_star_leg(x12, x31, x23)), x31),
{
    let l1 = spec_star_leg(x12, x31, x23);
    let l2 = spec_star_leg(x12, x23, x31);
    let l3 = spec_star_leg(x31, x23, x12);
    lemma_delta_star_leg_pair(x12, x31, x23);
    // The second recovery goes through the legs written with its own loop
    // first.
    let m2 = spec_star_leg(x23, x12, x31);
    let m3 = spec_star_leg(x23, x31, x12);
    lemma_delta_star_leg_swap(x12, x23, x31);
    lemma_delta_star_leg_swap(x31, x23, x12);
    lemma_delta_star_leg_pair(x23, x12, x31);
    lemma_add_congr(l2, m2, l3, m3);
    lemma_q_eq_trans(q_add(l2, l3), q_add(m2, m3), x23);
    // And the third likewise.
    let m1 = spec_star_leg(x31, x12, x23);
    lemma_delta_star_leg_pair(x31, x23, x12);
    lemma_delta_star_leg_swap(x12, x31, x23);
    lemma_add_congr(l3, l3, l1, m1);
    lemma_q_eq_trans(q_add(l3, l1), q_add(l3, m1), x31);
}

/// The two legs built from one loop recover that loop:
/// `(a + b - c)/2 + (a + c - b)/2 = a`.
proof fn lemma_delta_star_leg_pair(a: Q, b: Q, c: Q)
    requires
        q_wf(a),
        q_wf(b),
        q_wf(c),
    ensures
        q_eq(q_add(spec_star_leg(a, b, c), spec_star_leg(a, c, b)), a),
{
    let s1 = q_sub(q_add(a, b), c);
    let s2 = q_sub(q_add(a, c), b);
    let l1 = spec_star_leg(a, b, c);
    let l2 = spec_star_leg(a, c, b);
    assert(l1.n == s1.n && l1.d == 2 * s1.d);
    assert(l2.n == s2.n && l2.d == 2 * s2.d);
    let p = b.d * c.d;
    let dd = a.d * p;
    lemma_mul_is_associative(a.d, b.d, c.d);
    assert(s1.d == dd);
    lemma_mul_is_associative(a.d, c.d, b.d);
    lemma_mul_is_commutative(c.d, b.d);
    assert(s2.d == dd);
    let u = b.n * (a.d * c.d);
    let v = c.n * (a.d * b.d);
    lemma_mul_is_distributive_add_other_way(c.d, a.n * b.d, b.n * a.d);
    lemma_mul_is_associative(a.n, b.d, c.d);
    lemma_mul_is_associative(b.n, a.d, c.d);
    assert(s1.n == a.n * p + u - v);
    lemma_mul_is_distributive_add_other_way(b.d, a.n * c.d, c.n * a.d);
    lemma_mul_is_associative(a.n, c.d, b.d);
    assert(a.n * (c.d * b.d) == a.n * p);
    lemma_mul_is_associative(c.n, a.d, b.d);
    lemma_mul_is_associative(b.n, a.d, c.d);
    assert(s2.n == a.n * p + v - u);
    assert(s1.n + s2.n == 2 * (a.n * p));
    let lsum = q_add(l1, l2);
    assert(lsum.n == s1.n * (2 * dd) + s2.n * (2 * dd));
    lemma_mul_is_associative(s1.n, 2, dd);
    lemma_mul_is_associative(s2.n, 2, dd);
    assert(lsum.n == (2 * s1.n) * dd + (2 * s2.n) * dd);
    lemma_mul_is_distributive_add_other_way(dd, 2 * s1.n, 2 * s2.n);
    assert(lsum.n == (2 * s1.n + 2 * s2.n) * dd);
    assert(2 * s1.n + 2 * s2.n == 4 * (a.n * p));
    assert(lsum.n == (4 * (a.n * p)) * dd);
    assert(lsum.d == (2 * dd) * (2 * dd));
    lemma_mul_reorder(2, dd, 2, dd);
    assert(lsum.d == 4 * (dd * dd));
    lemma_mul_is_associative(4, a.n * p, dd);
    lemma_mul_is_associative(a.n, p, dd);
    assert(lsum.n == 4 * (a.n * (p * dd)));
    lemma_mul_is_associative(4, a.n * (p * dd), a.d);
    lemma_mul_is_associative(a.n, p * dd, a.d);
    assert(lsum.n * a.d == 4 * (a.n * ((p * dd) * a.d)));
    lemma_mul_is_associative(p, dd, a.d);
    lemma_mul_is_commutative(dd, a.d);
    lemma_mul_is_associative(p, a.d, dd);
    lemma_mul_is_commutative(p, a.d);
    assert((p * dd) * a.d == dd * dd);
    lemma_mul_is_associative(a.n, 4, dd * dd);
    lemma_mul_is_associative(4, a.n, dd * dd);
    assert(a.n * lsum.d == 4 * (a.n * (dd * dd)));
    assert(lsum.n * a.d == a.n * lsum.d);
}

/// The first two arguments of a star leg may be swapped.
proof fn lemma_delta_star_leg_swap(a: Q, b: Q, c: Q)
    requires
        q_wf(a),
        q_wf(b),
        q_wf(c),
    ensures
        q_eq(spec_star_leg(a, b, c), spec_star_leg(b, a, c)),
{
    lemma_mul_is_commutative(a.d, b.d);
    assert(spec_star_leg(a, b, c) == spec_star_leg(b, a, c));
}

/// Addition of spec rationals commutes, up to value equality.
proof fn lemma_q_add_comm_eq(a: Q, b: Q)
    requires
        q_wf(a),
        q_wf(b),
    ensures
        q_eq(q_add(a, b), q_add(b, a)),
        q_wf(q_add(a, b)),
{
    lemma_mul_is_commutative(a.d, b.d);
    assert(q_add(a, b).n == q_add(b, a).n);
}

/// The real-power flow of a two-terminal DC line: the setpoint magnitude
/// when the mode is power control, the setpoint magnitude scaled by the
/// scheduled DC voltage over one thousand when it is current control, and
/// zero for any other mode.
pub open spec fn spec_dc_power(mdc: int, setvl: Q, vschd: Q) -> Q {
    if mdc == 1 {
        q_abs(setvl)
    } else if mdc == 2 {
        q_div(q_mul(q_abs(setvl), vschd), q_int(1000))
    } else {
        q_int(0)
    }
}

/// The real-power flow of a two-terminal DC line. An unrecognized control
/// mode yields zero flow rather than an error.
pub fn dc_power(mdc: i64, setvl: Rat, vschd: Rat) -> (r: Result<Rat, CaseError>)
    requires
        setvl.wf(),
        vschd.wf(),
    ensures
        (r matches Ok(v) ==> v.wf() && q_eq(v@, spec_dc_power(mdc as int, setvl@, vschd@))
            && q_scaled_of(spec_dc_power(mdc as int, setvl@, vschd@), v@)),
        (r is Err ==> r == Err::<Rat, CaseError>(CaseError::Overflow)),
        mdc != 2 ==> r is Ok,
        (q_in_range(q_mul(q_abs(setvl@), vschd@)) && q_in_range(
            spec_dc_power(mdc as int, setvl@, vschd@),
        )) ==> r is Ok,
{
    let mag = setvl.abs();
    if mdc == 1 {
        proof {
            lemma_scaled_refl(mag@);
        }
        Ok(mag)
    } else if mdc == 2 {
        let scaled = match ra(mag.mul(vschd)) {
            Ok(v) => v,
            Err(e) => {
                return Err(e);
            },
        };
        let thousand = Rat::from_int(1000);
        let v = match ra(scaled.div(thousand)) {
            Ok(v) => v,
            Err(e) => {
                proof {
                    if q_in_range(q_mul(q_abs(setvl@), vschd@)) && q_in_range(
                        spec_dc_power(mdc as int, setvl@, vschd@),
                    ) {
                        lemma_scaled_refl(thousand@);
                        lemma_div_scaled(
                            q_mul(q_abs(setvl@), vschd@),
                            scaled@,
                            thousand@,
                            thousand@,
                        );
                        lemma_scaled_in_range(
                            q_div(q_mul(q_abs(setvl@), vschd@), q_int(1000)),
                            q_div(scaled@, thousand@),
                        );
                        assert(false);
                    }
                }
                return Err(e);
            },
        };
        proof {
            lemma_nonzero_congr(q_int(1000), thousand@);
            lemma_div_congr(
                scaled@,
                q_mul(q_abs(setvl@), vschd@),
                thousand@,
                q_int(1000),
            );
            lemma_q_eq_trans(
                v@,
                q_div(scaled@, thousand@),
                q_div(q_mul(q_abs(setvl@), vschd@), q_int(1000)),
            );
            lemma_scaled_refl(thousand@);
            lemma_div_scaled(q_mul(q_abs(setvl@), vschd@), scaled@, thousand@, thousand@);
            lemma_scaled_trans(
                q_div(q_mul(q_abs(setvl@), vschd@), q_int(1000)),
                q_div(scaled@, thousand@),
                v@,
            );
        }
        Ok(v)
    } else {
        proof {
            lemma_scaled_refl(q_int(0));
        }
        Ok(Rat::zero())
    }
}

/// The reactive-power bounds at one DC converter terminal, as non-negative
/// magnitudes: the lower bound assumes no commutation overlap
/// (`q_min = |p * tan(angle_min)|`), the upper bound assumes the maximum
/// overlap (`q_max = |p * tan(phi)|`, with `phi` derived at the boundary
/// from the maximum angle limit).
pub fn hvdc_q_lims(tan_phi_max: Rat, tan_angle_min: Rat, p: Rat) -> (r: Result<
    (Rat, Rat),
    CaseError,
>)
    requires
        tan_phi_max.wf(),
        tan_angle_min.wf(),
        p.wf(),
    ensures
        (r matches Ok(q) ==> q.0.wf() && q.1.wf() && q_eq(q.0@, q_abs(q_mul(p@, tan_angle_min@)))
            && q_eq(q.1@, q_abs(q_mul(p@, tan_phi_max@)))),
        (r is Err ==> r == Err::<(Rat, Rat), CaseError>(CaseError::Overflow)),
        (q_in_range(q_mul(p@, tan_angle_min@)) && q_in_range(q_mul(p@, tan_phi_max@))) ==> r
            is Ok,
{
    let qmin0 = match ra(p.mul(tan_angle_min)) {
        Ok(v) => v,
        Err(e) => {
            return Err(e);
        },
    };
    let qmax0 = match ra(p.mul(tan_phi_max)) {
        Ok(v) => v,
        Err(e) => {
            return Err(e);
        },
    };
    let qmin = qmin0.abs();
    let qmax = qmax0.abs();
    proof {
        lemma_abs_congr(qmin0@, q_mul(p@, tan_angle_min@));
        lemma_abs_congr(qmax0@, q_mul(p@, tan_phi_max@));
    }
    Ok((qmin, qmax))
}

/// The magnitude of a product with a non-negative factor, componentwise.
proof fn lemma_abs_mul(p: Q, t: Q)
    requires
        q_wf(p),
        q_wf(t),
        p.n >= 0,
    ensures
        q_abs(q_mul(p, t)) == (Q { n: p.n * q_abs(t).n, d: p.d * t.d }),
{
    if t.n >= 0 {
        lemma_mul_nonnegative(p.n, t.n);
    } else {
        lemma_mul_nonnegative(p.n, -t.n);
        lemma_mul_unary_negation(p.n, t.n);
    }
}

/// Limit monotonicity: with a non-negative real-power setpoint, the upper
/// reactive bound is at least the lower one whenever the upper tangent
/// factor dominates the lower in magnitude.
pub proof fn lemma_hvdc_limits_ordered(p: Q, tan_angle_min: Q, tan_phi_max: Q)
    requires
        q_wf(p),
        q_wf(tan_angle_min),
        q_wf(tan_phi_max),
        q_le(q_int(0), p),
        q_le(q_abs(tan_angle_min), q_abs(tan_phi_max)),
    ensures
        q_le(q_abs(q_mul(p, tan_angle_min)), q_abs(q_mul(p, tan_phi_max))),
{
    let t1 = tan_angle_min;
    let t2 = tan_phi_max;
    lemma_abs_mul(p, t1);
    lemma_abs_mul(p, t2);
    let x = q_abs(t1).n;
    let y = q_abs(t2).n;
    assert(x * t2.d <= y * t1.d);
    lemma_mul_nonnegative(p.n, p.d);
    lemma_mul_inequality(x * t2.d, y * t1.d, p.n * p.d);
    lemma_mul_reorder(x, t2.d, p.n, p.d);
    lemma_mul_reorder(y, t1.d, p.n, p.d);
    lemma_mul_is_commutative(x, p.n);
    lemma_mul_is_commutative(y, p.n);
    lemma_mul_is_commutative(t2.d, p.d);
    lemma_mul_is_commutative(t1.d, p.d);
    assert((p.n * x) * (p.d * t2.d) <= (p.n * y) * (p.d * t1.d));
}

/// The smallest power of ten strictly above `m`.
pub open spec fn spec_pow10_above(m: nat) -> nat
    decreases m,
{
    if m == 0 {
        1
    } else {
        10 * spec_pow10_above(m / 10)
    }
}

/// The smallest power of ten strictly above `m`, or nothing if it does not
/// fit the platform's word.
pub fn pow10_above(m: usize) -> (r: Option<usize>)
    ensures
        r matches Some(v) ==> v == spec_pow10_above(m as nat),
        spec_pow10_above(m as nat) <= usize::MAX ==> r is Some,
    decreases m,
{
    if m == 0 {
        Some(1)
    } else {
        proof {
            lemma_pow10_above((m / 10) as nat);
            assert(spec_pow10_above((m / 10) as nat) <= spec_pow10_above(m as nat))
                by (nonlinear_arith)
                requires
                    spec_pow10_above((m / 10) as nat) >= 1,
                    spec_pow10_above(m as nat) == 10 * spec_pow10_above((m / 10) as nat),
            ;
        }
        match pow10_above(m / 10) {
            Some(p) => p.checked_mul(10),
            None => None,
        }
    }
}

/// The power of ten above `m` is indeed strictly above `m`.
pub proof fn lemma_pow10_above(m: nat)
    ensures
        spec_pow10_above(m) > m,
    decreases m,
{
    if m > 0 {
        lemma_pow10_above(m / 10);
        assert(10 * spec_pow10_above(m / 10) > m) by (nonlinear_arith)
            requires
                spec_pow10_above(m / 10) > m / 10,
                m / 10 == m as int / 10,
                m > 0,
        ;
    }
}


/// The position of bus number `i` in a sequence of bus numbers: the last
/// index holding `i`, the convention a bus index map built front to back
/// settles on.
pub open spec fn pos_of(ids: Seq<int>, i: int) -> Option<int>
    decreases ids.len(),
{
    if ids.len() == 0 {
        None
    } else if ids.last() == i {
        Some(ids.len() - 1)
    } else {
        pos_of(ids.drop_last(), i)
    }
}

/// The bus numbers of a raw bus sequence.
pub open spec fn raw_ids(s: Seq<RawBus>) -> Seq<int> {
    s.map_values(|b: RawBus| b.i as int)
}

/// The bus numbers of a normalized bus sequence.
pub open spec fn bus_ids(s: Seq<Bus>) -> Seq<int> {
    s.map_values(|b: Bus| b.bus_i as int)
}

/// A found position is in range and holds the sought number.
pub proof fn lemma_pos_of_valid(ids: Seq<int>, i: int)
    ensures
        pos_of(ids, i) matches Some(p) ==> 0 <= p < ids.len() && ids[p] == i,
        pos_of(ids, i) is None ==> forall|k: int| 0 <= k < ids.len() ==> ids[k] != i,
    decreases ids.len(),
{
    if ids.len() > 0 && ids.last() != i {
        lemma_pos_of_valid(ids.drop_last(), i);
        if pos_of(ids, i) is None {
            assert forall|k: int| 0 <= k < ids.len() implies ids[k] != i by {
                if k < ids.len() - 1 {
                    assert(ids.drop_last()[k] == ids[k]);
                }
            }
        }
    }
}

/// The position of `i` among the first `n` bus numbers, executably: the
/// cached bus index used by every record lookup.
pub fn find_raw_bus(buses: &Vec<RawBus>, i: usize) -> (r: Option<usize>)
    ensures
        r matches Some(p) ==> Some(p as int) == pos_of(raw_ids(buses@), i as int),
        r is None ==> pos_of(raw_ids(buses@), i as int) is None,
{
    let n = buses.len();
    let mut k: usize = n;
    proof {
        assert(raw_ids(buses@).take(n as int) =~= raw_ids(buses@));
    }
    while k > 0
        invariant
            k <= n,
            n == buses@.len(),
            pos_of(raw_ids(buses@), i as int) == pos_of(raw_ids(buses@).take(k as int), i as int),
        decreases k,
    {
        proof {
            assert(raw_ids(buses@).take(k as int).drop_last() =~= raw_ids(buses@).take(
                k as int - 1,
            ));
        }
        if buses[k - 1].i == i {
            proof {
                assert(raw_ids(buses@).take(k as int).last() == i as int);
            }
            return Some(k - 1);
        }
        proof {
            assert(raw_ids(buses@).take(k as int).last() != i as int);
        }
        k = k - 1;
    }
    proof {
        assert(raw_ids(buses@).take(0) =~= Seq::<int>::empty());
    }
    None
}

/// The position of `i` in a normalized bus collection.
pub fn find_bus(buses: &Vec<Bus>, i: usize) -> (r: Option<usize>)
    ensures
        r matches Some(p) ==> Some(p as int) == pos_of(bus_ids(buses@), i as int),
        r is None ==> pos_of(bus_ids(buses@), i as int) is None,
{
    let n = buses.len();
    let mut k: usize = n;
    proof {
        assert(bus_ids(buses@).take(n as int) =~= bus_ids(buses@));
    }
    while k > 0
        invariant
            k <= n,
            n == buses@.len(),
            pos_of(bus_ids(buses@), i as int) == pos_of(bus_ids(buses@).take(k as int), i as int),
        decreases k,
    {
        proof {
            assert(bus_ids(buses@).take(k as int).drop_last() =~= bus_ids(buses@).take(
                k as int - 1,
            ));
        }
        if buses[k - 1].bus_i == i {
            proof {
                assert(bus_ids(buses@).take(k as int).last() == i as int);
            }
            return Some(k - 1);
        }
        proof {
            assert(bus_ids(buses@).take(k as int).last() != i as int);
        }
        k = k - 1;
    }
    proof {
        assert(bus_ids(buses@).take(0) =~= Seq::<int>::empty());
    }
    None
}


/// The off-nominal tap ratio of a two-winding transformer: the ratio of the
/// winding-voltage fields, corrected per the winding code. Code 1 reads them
/// in per unit of the winding buses' base voltages; code 2 reads them in kV,
/// corrected by the nominal voltages.
pub open spec fn spec_tap2(cw: int, w1: Q, w2: Q, n1: Q, n2: Q, fb: Q, tb: Q) -> Q {
    if cw == 1 {
        q_mul(q_div(w1, w2), q_div(tb, fb))
    } else {
        q_mul(q_div(w1, w2), q_div(n1, n2))
    }
}

/// The exact values the two-winding tap computation passes through, each
/// representable: when they are, the computation is owed a success.
pub open spec fn spec_tap2_reprable(cw: int, w1: Q, w2: Q, n1: Q, n2: Q, fb: Q, tb: Q) -> bool {
    if cw == 1 {
        q_in_range(q_div(w1, w2)) && q_in_range(q_div(tb, fb)) && q_in_range(
            spec_tap2(cw, w1, w2, n1, n2, fb, tb),
        )
    } else {
        q_in_range(q_div(w1, w2)) && q_in_range(q_div(n1, n2)) && q_in_range(
            spec_tap2(cw, w1, w2, n1, n2, fb, tb),
        )
    }
}

/// The divisors the two-winding tap needs, by winding code.
pub open spec fn spec_tap2_ok(cw: int, w2: Q, n2: Q, fb: Q) -> bool {
    if cw == 1 {
        w2.n != 0 && fb.n != 0
    } else if cw == 2 {
        w2.n != 0 && n2.n != 0
    } else {
        false
    }
}

/// Compute the two-winding tap ratio. Fails exactly on a winding code
/// outside {1, 2}, a zero divisor, or an overflow.
pub fn tap_two_winding(
    cw: i64,
    w1: Rat,
    w2: Rat,
    n1: Rat,
    n2: Rat,
    fb: Rat,
    tb: Rat,
    b1: usize,
    b2: usize,
    b3: usize,
) -> (r: Result<Rat, CaseError>)
    requires
        w1.wf(),
        w2.wf(),
        n1.wf(),
        n2.wf(),
        fb.wf(),
        tb.wf(),
    ensures
        (r matches Ok(v) ==> v.wf() && q_eq(v@, spec_tap2(cw as int, w1@, w2@, n1@, n2@, fb@, tb@))
            && spec_tap2_ok(cw as int, w2@, n2@, fb@)),
        (cw != 1 && cw != 2) ==> r == Err::<Rat, CaseError>(
            CaseError::UnsupportedWindingCode { code: cw, bus1: b1, bus2: b2, bus3: b3 },
        ),
        ((cw == 1 || cw == 2) && !spec_tap2_ok(cw as int, w2@, n2@, fb@)) ==> r == Err::<
            Rat,
            CaseError,
        >(CaseError::DivisionByZero { bus1: b1, bus2: b2, bus3: b3 }),
        (spec_tap2_ok(cw as int, w2@, n2@, fb@) && r is Err) ==> r == Err::<Rat, CaseError>(
            CaseError::Overflow,
        ),
        (spec_tap2_ok(cw as int, w2@, n2@, fb@) && spec_tap2_reprable(
            cw as int,
            w1@,
            w2@,
            n1@,
            n2@,
            fb@,
            tb@,
        )) ==> r is Ok,
{
    if cw == 1 {
        if w2.is_zero() || fb.is_zero() {
            return Err(CaseError::DivisionByZero { bus1: b1, bus2: b2, bus3: b3 });
        }
        let q1 = match ra(w1.div(w2)) {
            Ok(v) => v,
            Err(e) => {
                return Err(e);
            },
        };
        let q2 = match ra(tb.div(fb)) {
            Ok(v) => v,
            Err(e) => {
                return Err(e);
            },
        };
        let t = match ra(q1.mul(q2)) {
            Ok(v) => v,
            Err(e) => {
                proof {
                    if q_in_range(q_mul(q_div(w1@, w2@), q_div(tb@, fb@))) {
                        lemma_mul_scaled(q_div(w1@, w2@), q1@, q_div(tb@, fb@), q2@);
                        lemma_scaled_in_range(
                            q_mul(q_div(w1@, w2@), q_div(tb@, fb@)),
                            q_mul(q1@, q2@),
                        );
                        assert(false);
                    }
                }
                return Err(e);
            },
        };
        proof {
            lemma_mul_congr(q1@, q_div(w1@, w2@), q2@, q_div(tb@, fb@));
            lemma_q_eq_trans(
                t@,
                q_mul(q1@, q2@),
                q_mul(q_div(w1@, w2@), q_div(tb@, fb@)),
            );
        }
        Ok(t)
    } else if cw == 2 {
        if w2.is_zero() || n2.is_zero() {
            return Err(CaseError::DivisionByZero { bus1: b1, bus2: b2, bus3: b3 });
        }
        let q1 = match ra(w1.div(w2)) {
            Ok(v) => v,
            Err(e) => {
                return Err(e);
            },
        };
        let q2 = match ra(n1.div(n2)) {
            Ok(v) => v,
            Err(e) => {
                return Err(e);
            },
        };
        let t = match ra(q1.mul(q2)) {
            Ok(v) => v,
            Err(e) => {
                proof {
                    if q_in_range(q_mul(q_div(w1@, w2@), q_div(n1@, n2@))) {
                        lemma_mul_scaled(q_div(w1@, w2@), q1@, q_div(n1@, n2@), q2@);
                        lemma_scaled_in_range(
                            q_mul(q_div(w1@, w2@), q_div(n1@, n2@)),
                            q_mul(q1@, q2@),
                        );
                        assert(false);
                    }
                }
                return Err(e);
            },
        };
        proof {
            lemma_mul_congr(q1@, q_div(w1@, w2@), q2@, q_div(n1@, n2@));
            lemma_q_eq_trans(
                t@,
                q_mul(q1@, q2@),
                q_mul(q_div(w1@, w2@), q_div(n1@, n2@)),
            );
        }
        Ok(t)
    } else {
        Err(CaseError::UnsupportedWindingCode { code: cw, bus1: b1, bus2: b2, bus3: b3 })
    }
}

/// The tap ratio of one leg of a three-winding transformer: per unit of the
/// first winding bus's base voltage under code 1, the product of the
/// winding-voltage field and the nominal voltage under code 2.
pub open spec fn spec_tap3(cw: int, windv: Q, nomv: Q, fb1: Q) -> Q {
    if cw == 1 {
        q_div(windv, fb1)
    } else {
        q_mul(windv, nomv)
    }
}

/// Compute one three-winding leg's tap ratio.
pub fn tap_three_winding(
    cw: i64,
    windv: Rat,
    nomv: Rat,
    fb1: Rat,
    b1: usize,
    b2: usize,
    b3: usize,
) -> (r: Result<Rat, CaseError>)
    requires
        windv.wf(),
        nomv.wf(),
        fb1.wf(),
    ensures
        (r matches Ok(v) ==> v.wf() && q_eq(v@, spec_tap3(cw as int, windv@, nomv@, fb1@)) && (cw
            == 1 || cw == 2) && (cw == 1 ==> fb1@.n != 0)),
        (cw != 1 && cw != 2) ==> r == Err::<Rat, CaseError>(
            CaseError::UnsupportedWindingCode { code: cw, bus1: b1, bus2: b2, bus3: b3 },
        ),
        (cw == 1 && fb1@.n == 0) ==> r == Err::<Rat, CaseError>(
            CaseError::DivisionByZero { bus1: b1, bus2: b2, bus3: b3 },
        ),
        ((cw == 1 && fb1@.n != 0) || cw == 2) && r is Err ==> r == Err::<Rat, CaseError>(
            CaseError::Overflow,
        ),
        ((cw == 1 && fb1@.n != 0 && q_in_range(q_div(windv@, fb1@))) || (cw == 2 && q_in_range(
            q_mul(windv@, nomv@),
        ))) ==> r is Ok,
{
    if cw == 1 {
        if fb1.is_zero() {
            return Err(CaseError::DivisionByZero { bus1: b1, bus2: b2, bus3: b3 });
        }
        ra(windv.div(fb1))
    } else if cw == 2 {
        ra(windv.mul(nomv))
    } else {
        Err(CaseError::UnsupportedWindingCode { code: cw, bus1: b1, bus2: b2, bus3: b3 })
    }
}

/// The impedance base of a winding or bus: the square of its voltage over
/// its MVA base.
pub open spec fn spec_zbase(v: Q, s: Q) -> Q {
    q_div(q_mul(v, v), s)
}

/// The factor carrying an impedance from the winding base (nominal voltage
/// `nomv`, MVA base `sbw`) to the system base (bus voltage `kv`, system MVA
/// base `sbsys`): `(nomv/kv)^2 * (sbsys/sbw)`, written as a ratio of
/// impedance bases.
pub open spec fn spec_imp_scale(nomv: Q, sbw: Q, kv: Q, sbsys: Q) -> Q {
    q_div(spec_zbase(nomv, sbw), spec_zbase(kv, sbsys))
}

/// A load loss in watts as a per-unit resistance on the winding base.
pub open spec fn spec_loss_r(r: Q, sbw: Q) -> Q {
    q_div(q_div(r, q_int(1000000)), sbw)
}

/// What remains under the root when a reactance is recovered from an
/// impedance magnitude: `|Z|^2 - R^2`.
pub open spec fn spec_radicand(x: Q, rw: Q) -> Q {
    q_sub(q_mul(x, x), q_mul(rw, rw))
}

/// The series resistance on the system base, by impedance code.
pub open spec fn spec_imp_r(cz: int, r12: Q, x12: Q, sbw: Q, nomv: Q, kv: Q, sbsys: Q) -> Q {
    if cz == 1 {
        r12
    } else if cz == 2 {
        q_mul(r12, spec_imp_scale(nomv, sbw, kv, sbsys))
    } else {
        q_mul(spec_loss_r(r12, sbw), spec_imp_scale(nomv, sbw, kv, sbsys))
    }
}

/// The series reactance on the system base, by impedance code.
pub open spec fn spec_imp_x(cz: int, r12: Q, x12: Q, sbw: Q, nomv: Q, kv: Q, sbsys: Q) -> Q {
    if cz == 1 {
        x12
    } else if cz == 2 {
        q_mul(x12, spec_imp_scale(nomv, sbw, kv, sbsys))
    } else {
        q_mul(
            spec_rat_sqrt(spec_radicand(x12, spec_loss_r(r12, sbw))),
            spec_imp_scale(nomv, sbw, kv, sbsys),
        )
    }
}

/// The exact values the base-change factor passes through, each
/// representable.
pub open spec fn spec_scale_reprable(nomv: Q, sbw: Q, kv: Q, sbsys: Q) -> bool {
    &&& q_in_range(q_mul(nomv, nomv))
    &&& q_in_range(spec_zbase(nomv, sbw))
    &&& q_in_range(q_mul(kv, kv))
    &&& q_in_range(spec_zbase(kv, sbsys))
    &&& q_in_range(spec_imp_scale(nomv, sbw, kv, sbsys))
}

/// The exact values an impedance conversion passes through, each
/// representable: when they are (and the codes and bases are good), the
/// conversion is owed a success.
pub open spec fn spec_imp_reprable(cz: int, r12: Q, x12: Q, sbw: Q, nomv: Q, kv: Q, sbsys: Q) -> bool {
    if cz == 1 {
        true
    } else if cz == 2 {
        &&& spec_scale_reprable(nomv, sbw, kv, sbsys)
        &&& q_in_range(q_mul(r12, spec_imp_scale(nomv, sbw, kv, sbsys)))
        &&& q_in_range(q_mul(x12, spec_imp_scale(nomv, sbw, kv, sbsys)))
    } else {
        &&& spec_scale_reprable(nomv, sbw, kv, sbsys)
        &&& q_in_range(q_div(r12, q_int(1000000)))
        &&& q_in_range(spec_loss_r(r12, sbw))
        &&& q_in_range(q_mul(x12, x12))
        &&& q_in_range(q_mul(spec_loss_r(r12, sbw), spec_loss_r(r12, sbw)))
        &&& q_in_range(spec_radicand(x12, spec_loss_r(r12, sbw)))
        &&& q_in_range(q_mul(spec_loss_r(r12, sbw), spec_imp_scale(nomv, sbw, kv, sbsys)))
        &&& q_in_range(
            q_mul(
                spec_rat_sqrt(spec_radicand(x12, spec_loss_r(r12, sbw))),
                spec_imp_scale(nomv, sbw, kv, sbsys),
            ),
        )
    }
}

/// The divisors and the root's domain that an impedance conversion needs,
/// by impedance code.
pub open spec fn spec_imp_ok(cz: int, r12: Q, x12: Q, sbw: Q, kv: Q, sbsys: Q) -> bool {
    if cz == 1 {
        true
    } else if cz == 2 {
        sbw.n != 0 && sbsys.n != 0 && kv.n != 0
    } else if cz == 3 {
        sbw.n != 0 && sbsys.n != 0 && kv.n != 0 && q_le(
            q_int(0),
            spec_radicand(x12, spec_loss_r(r12, sbw)),
        )
    } else {
        false
    }
}

/// Convert a measured winding impedance to the system base, per the
/// impedance code: already on the system base (1), per unit on the winding
/// base (2), or load loss in watts with a per-unit impedance magnitude (3).
/// Resistance and reactance are scaled by the same factor. Fails exactly on
/// a code outside {1, 2, 3}, a zero base quantity, a magnitude below the
/// resistance, or an overflow.
pub fn impedance_to_system(
    cz: i64,
    r12: Rat,
    x12: Rat,
    sbw: Rat,
    nomv: Rat,
    kv: Rat,
    sbsys: Rat,
    b1: usize,
    b2: usize,
    b3: usize,
) -> (r: Result<(Rat, Rat), CaseError>)
    requires
        r12.wf(),
        x12.wf(),
        sbw.wf(),
        nomv.wf(),
        kv.wf(),
        sbsys.wf(),
    ensures
        (r matches Ok(v) ==> v.0.wf() && v.1.wf() && q_eq(
            v.0@,
            spec_imp_r(cz as int, r12@, x12@, sbw@, nomv@, kv@, sbsys@),
        ) && q_eq(v.1@, spec_imp_x(cz as int, r12@, x12@, sbw@, nomv@, kv@, sbsys@))
            && spec_imp_ok(cz as int, r12@, x12@, sbw@, kv@, sbsys@) && q_scaled_of(
            spec_imp_r(cz as int, r12@, x12@, sbw@, nomv@, kv@, sbsys@),
            v.0@,
        ) && q_scaled_of(spec_imp_x(cz as int, r12@, x12@, sbw@, nomv@, kv@, sbsys@), v.1@)),
        (cz != 1 && cz != 2 && cz != 3) ==> r == Err::<(Rat, Rat), CaseError>(
            CaseError::UnsupportedImpedanceCode { code: cz, bus1: b1, bus2: b2, bus3: b3 },
        ),
        ((cz == 2 || cz == 3) && (sbw@.n == 0 || sbsys@.n == 0 || kv@.n == 0)) ==> r == Err::<
            (Rat, Rat),
            CaseError,
        >(CaseError::DivisionByZero { bus1: b1, bus2: b2, bus3: b3 }),
        (r == Err::<(Rat, Rat), CaseError>(
            CaseError::NumericDomain { bus1: b1, bus2: b2, bus3: b3 },
        )) ==> cz == 3 && q_lt(spec_radicand(x12@, spec_loss_r(r12@, sbw@)), q_int(0)),
        (cz == 3 && sbw@.n != 0 && sbsys@.n != 0 && kv@.n != 0 && q_lt(
            spec_radicand(x12@, spec_loss_r(r12@, sbw@)),
            q_int(0),
        )) ==> (r == Err::<(Rat, Rat), CaseError>(
            CaseError::NumericDomain { bus1: b1, bus2: b2, bus3: b3 },
        ) || r == Err::<(Rat, Rat), CaseError>(CaseError::Overflow)),
        (spec_imp_ok(cz as int, r12@, x12@, sbw@, kv@, sbsys@) && r is Err) ==> r == Err::<
            (Rat, Rat),
            CaseError,
        >(CaseError::Overflow),
        (spec_imp_ok(cz as int, r12@, x12@, sbw@, kv@, sbsys@) && spec_imp_reprable(
            cz as int,
            r12@,
            x12@,
            sbw@,
            nomv@,
            kv@,
            sbsys@,
        )) ==> r is Ok,
{
    if cz == 1 {
        proof {
            lemma_scaled_refl(r12@);
            lemma_scaled_refl(x12@);
        }
        Ok((r12, x12))
    } else if cz == 2 || cz == 3 {
        if sbw.is_zero() || sbsys.is_zero() || kv.is_zero() {
            return Err(CaseError::DivisionByZero { bus1: b1, bus2: b2, bus3: b3 });
        }
        let scale = match imp_scale(sbw, nomv, kv, sbsys) {
            Ok(v) => v,
            Err(e) => {
                return Err(e);
            },
        };
        if cz == 2 {
            let ghost sc = spec_imp_scale(nomv@, sbw@, kv@, sbsys@);
            let rr = match ra(r12.mul(scale)) {
                Ok(v) => v,
                Err(e) => {
                    proof {
                        if q_in_range(q_mul(r12@, sc)) {
                            lemma_scaled_refl(r12@);
                            lemma_mul_scaled(r12@, r12@, sc, scale@);
                            lemma_scaled_in_range(q_mul(r12@, sc), q_mul(r12@, scale@));
                            assert(false);
                        }
                    }
                    return Err(e);
                },
            };
            let xx = match ra(x12.mul(scale)) {
                Ok(v) => v,
                Err(e) => {
                    proof {
                        if q_in_range(q_mul(x12@, sc)) {
                            lemma_scaled_refl(x12@);
                            lemma_mul_scaled(x12@, x12@, sc, scale@);
                            lemma_scaled_in_range(q_mul(x12@, sc), q_mul(x12@, scale@));
                            assert(false);
                        }
                    }
                    return Err(e);
                },
            };
            proof {
                let sc = spec_imp_scale(nomv@, sbw@, kv@, sbsys@);
                lemma_imp_scale_wf(nomv@, sbw@, kv@, sbsys@);
                lemma_mul_congr(r12@, r12@, scale@, sc);
                lemma_q_eq_trans(rr@, q_mul(r12@, scale@), q_mul(r12@, sc));
                lemma_mul_congr(x12@, x12@, scale@, sc);
                lemma_q_eq_trans(xx@, q_mul(x12@, scale@), q_mul(x12@, sc));
                lemma_scaled_refl(r12@);
                lemma_mul_scaled(r12@, r12@, sc, scale@);
                lemma_scaled_trans(q_mul(r12@, sc), q_mul(r12@, scale@), rr@);
                lemma_scaled_refl(x12@);
                lemma_mul_scaled(x12@, x12@, sc, scale@);
                lemma_scaled_trans(q_mul(x12@, sc), q_mul(x12@, scale@), xx@);
            }
            Ok((rr, xx))
        } else {
            let ghost sc = spec_imp_scale(nomv@, sbw@, kv@, sbsys@);
            let ghost rws = spec_loss_r(r12@, sbw@);
            let million = Rat::from_int(1000000);
            let r0 = match ra(r12.div(million)) {
                Ok(v) => v,
                Err(e) => {
                    return Err(e);
                },
            };
            let rw = match ra(r0.div(sbw)) {
                Ok(v) => v,
                Err(e) => {
                    proof {
                        if q_in_range(rws) {
                            lemma_scaled_refl(sbw@);
                            lemma_div_scaled(q_div(r12@, q_int(1000000)), r0@, sbw@, sbw@);
                            lemma_scaled_in_range(rws, q_div(r0@, sbw@));
                            assert(false);
                        }
                    }
                    return Err(e);
                },
            };
            proof {
                lemma_scaled_refl(sbw@);
                lemma_div_scaled(q_div(r12@, q_int(1000000)), r0@, sbw@, sbw@);
                lemma_scaled_trans(rws, q_div(r0@, sbw@), rw@);
            }
            proof {
                let rws = spec_loss_r(r12@, sbw@);
                lemma_nonzero_congr(q_int(1000000), million@);
                lemma_div_congr(r0@, q_div(r12@, q_int(1000000)), sbw@, sbw@);
                lemma_q_eq_trans(rw@, q_div(r0@, sbw@), rws);
            }
            let x2 = match ra(x12.mul(x12)) {
                Ok(v) => v,
                Err(e) => {
                    return Err(e);
                },
            };
            let rw2 = match ra(rw.mul(rw)) {
                Ok(v) => v,
                Err(e) => {
                    proof {
                        if q_in_range(q_mul(rws, rws)) {
                            lemma_mul_scaled(rws, rw@, rws, rw@);
                            lemma_scaled_in_range(q_mul(rws, rws), q_mul(rw@, rw@));
                            assert(false);
                        }
                    }
                    return Err(e);
                },
            };
            let s = match ra(x2.sub(rw2)) {
                Ok(v) => v,
                Err(e) => {
                    proof {
                        if q_in_range(spec_radicand(x12@, rws)) {
                            lemma_mul_scaled(rws, rw@, rws, rw@);
                            lemma_scaled_trans(q_mul(rws, rws), q_mul(rw@, rw@), rw2@);
                            lemma_scaled_refl(q_mul(x12@, x12@));
                            lemma_scaled_trans(q_mul(x12@, x12@), q_mul(x12@, x12@), x2@);
                            lemma_sub_scaled(q_mul(x12@, x12@), x2@, q_mul(rws, rws), rw2@);
                            lemma_scaled_in_range(spec_radicand(x12@, rws), q_sub(x2@, rw2@));
                            assert(false);
                        }
                    }
                    return Err(e);
                },
            };
            proof {
                let rws = spec_loss_r(r12@, sbw@);
                lemma_mul_congr(rw@, rws, rw@, rws);
                lemma_q_eq_trans(rw2@, q_mul(rw@, rw@), q_mul(rws, rws));
                lemma_sub_congr(x2@, q_mul(x12@, x12@), rw2@, q_mul(rws, rws));
                lemma_q_eq_trans(
                    s@,
                    q_sub(x2@, rw2@),
                    spec_radicand(x12@, rws),
                );
                lemma_le_congr(
                    s@,
                    spec_radicand(x12@, rws),
                    q_int(0),
                    q_int(0),
                );
            }
            if s.is_neg() {
                return Err(CaseError::NumericDomain { bus1: b1, bus2: b2, bus3: b3 });
            }
            let xw = s.sqrt();
            proof {
                let rws = spec_loss_r(r12@, sbw@);
                lemma_rat_sqrt_congr(s@, spec_radicand(x12@, rws));
            }
            let rr = match ra(rw.mul(scale)) {
                Ok(v) => v,
                Err(e) => {
                    proof {
                        if q_in_range(q_mul(rws, sc)) {
                            lemma_mul_scaled(rws, rw@, sc, scale@);
                            lemma_scaled_in_range(q_mul(rws, sc), q_mul(rw@, scale@));
                            assert(false);
                        }
                    }
                    return Err(e);
                },
            };
            let xx = match ra(xw.mul(scale)) {
                Ok(v) => v,
                Err(e) => {
                    proof {
                        if q_in_range(q_mul(spec_rat_sqrt(spec_radicand(x12@, rws)), sc)) {
                            lemma_scaled_refl(xw@);
                            lemma_mul_scaled(
                                spec_rat_sqrt(spec_radicand(x12@, rws)),
                                xw@,
                                sc,
                                scale@,
                            );
                            lemma_scaled_in_range(
                                q_mul(spec_rat_sqrt(spec_radicand(x12@, rws)), sc),
                                q_mul(xw@, scale@),
                            );
                            assert(false);
                        }
                    }
                    return Err(e);
                },
            };
            proof {
                let sc = spec_imp_scale(nomv@, sbw@, kv@, sbsys@);
                let rws = spec_loss_r(r12@, sbw@);
                lemma_imp_scale_wf(nomv@, sbw@, kv@, sbsys@);
                lemma_mul_congr(rw@, rws, scale@, sc);
                lemma_q_eq_trans(rr@, q_mul(rw@, scale@), q_mul(rws, sc));
                lemma_mul_congr(xw@, spec_rat_sqrt(spec_radicand(x12@, rws)), scale@, sc);
                lemma_q_eq_trans(
                    xx@,
                    q_mul(xw@, scale@),
                    q_mul(spec_rat_sqrt(spec_radicand(x12@, rws)), sc),
                );
                lemma_mul_scaled(rws, rw@, sc, scale@);
                lemma_scaled_trans(q_mul(rws, sc), q_mul(rw@, scale@), rr@);
                lemma_scaled_refl(xw@);
                lemma_mul_scaled(spec_rat_sqrt(spec_radicand(x12@, rws)), xw@, sc, scale@);
                lemma_scaled_trans(
                    q_mul(spec_rat_sqrt(spec_radicand(x12@, rws)), sc),
                    q_mul(xw@, scale@),
                    xx@,
                );
            }
            Ok((rr, xx))
        }
    } else {
        Err(CaseError::UnsupportedImpedanceCode { code: cz, bus1: b1, bus2: b2, bus3: b3 })
    }
}

/// A nonzero voltage over a nonzero MVA base gives a nonzero, well-formed
/// impedance base, and hence a well-formed scale factor.
proof fn lemma_imp_scale_wf(nomv: Q, sbw: Q, kv: Q, sbsys: Q)
    requires
        q_wf(nomv),
        q_wf(sbw),
        q_wf(kv),
        q_wf(sbsys),
        sbw.n != 0,
        sbsys.n != 0,
        kv.n != 0,
    ensures
        spec_zbase(kv, sbsys).n != 0,
        q_wf(spec_zbase(kv, sbsys)),
        q_wf(spec_zbase(nomv, sbw)),
        q_wf(spec_imp_scale(nomv, sbw, kv, sbsys)),
{
    lemma_mul_nonzero(kv.n, kv.n);
    lemma_mul_nonzero(kv.n * kv.n, sbsys.d);
    lemma_mul_unary_negation(kv.n * kv.n, sbsys.d);
    assert(spec_zbase(kv, sbsys).n != 0);
}

/// The base-change factor, executably.
fn imp_scale(sbw: Rat, nomv: Rat, kv: Rat, sbsys: Rat) -> (r: Result<Rat, CaseError>)
    requires
        sbw.wf(),
        nomv.wf(),
        kv.wf(),
        sbsys.wf(),
        sbw@.n != 0,
        sbsys@.n != 0,
        kv@.n != 0,
    ensures
        (r matches Ok(v) ==> v.wf() && q_eq(v@, spec_imp_scale(nomv@, sbw@, kv@, sbsys@))
            && q_scaled_of(spec_imp_scale(nomv@, sbw@, kv@, sbsys@), v@)),
        (r is Err ==> r == Err::<Rat, CaseError>(CaseError::Overflow)),
        spec_scale_reprable(nomv@, sbw@, kv@, sbsys@) ==> r is Ok,
{
    let n2 = match ra(nomv.mul(nomv)) {
        Ok(v) => v,
        Err(e) => {
            return Err(e);
        },
    };
    let zbw = match ra(n2.div(sbw)) {
        Ok(v) => v,
        Err(e) => {
            proof {
                if spec_scale_reprable(nomv@, sbw@, kv@, sbsys@) {
                    lemma_scaled_refl(sbw@);
                    lemma_div_scaled(q_mul(nomv@, nomv@), n2@, sbw@, sbw@);
                    lemma_scaled_in_range(spec_zbase(nomv@, sbw@), q_div(n2@, sbw@));
                    assert(false);
                }
            }
            return Err(e);
        },
    };
    proof {
        lemma_scaled_refl(sbw@);
        lemma_div_scaled(q_mul(nomv@, nomv@), n2@, sbw@, sbw@);
        lemma_scaled_trans(spec_zbase(nomv@, sbw@), q_div(n2@, sbw@), zbw@);
    }
    let k2 = match ra(kv.mul(kv)) {
        Ok(v) => v,
        Err(e) => {
            return Err(e);
        },
    };
    let zbb = match ra(k2.div(sbsys)) {
        Ok(v) => v,
        Err(e) => {
            proof {
                if spec_scale_reprable(nomv@, sbw@, kv@, sbsys@) {
                    lemma_scaled_refl(sbsys@);
                    lemma_div_scaled(q_mul(kv@, kv@), k2@, sbsys@, sbsys@);
                    lemma_scaled_in_range(spec_zbase(kv@, sbsys@), q_div(k2@, sbsys@));
                    assert(false);
                }
            }
            return Err(e);
        },
    };
    proof {
        lemma_scaled_refl(sbsys@);
        lemma_div_scaled(q_mul(kv@, kv@), k2@, sbsys@, sbsys@);
        lemma_scaled_trans(spec_zbase(kv@, sbsys@), q_div(k2@, sbsys@), zbb@);
    }
    proof {
        lemma_div_congr(n2@, q_mul(nomv@, nomv@), sbw@, sbw@);
        lemma_q_eq_trans(zbw@, q_div(n2@, sbw@), spec_zbase(nomv@, sbw@));
        lemma_div_congr(k2@, q_mul(kv@, kv@), sbsys@, sbsys@);
        lemma_q_eq_trans(zbb@, q_div(k2@, sbsys@), spec_zbase(kv@, sbsys@));
        lemma_imp_scale_wf(nomv@, sbw@, kv@, sbsys@);
        lemma_nonzero_congr(spec_zbase(kv@, sbsys@), zbb@);
    }
    let scale = match ra(zbw.div(zbb)) {
        Ok(v) => v,
        Err(e) => {
            proof {
                if spec_scale_reprable(nomv@, sbw@, kv@, sbsys@) {
                    lemma_div_scaled(
                        spec_zbase(nomv@, sbw@),
                        zbw@,
                        spec_zbase(kv@, sbsys@),
                        zbb@,
                    );
                    lemma_scaled_in_range(
                        spec_imp_scale(nomv@, sbw@, kv@, sbsys@),
                        q_div(zbw@, zbb@),
                    );
                    assert(false);
                }
            }
            return Err(e);
        },
    };
    proof {
        lemma_div_congr(zbw@, spec_zbase(nomv@, sbw@), zbb@, spec_zbase(kv@, sbsys@));
        lemma_q_eq_trans(
            scale@,
            q_div(zbw@, zbb@),
            spec_imp_scale(nomv@, sbw@, kv@, sbsys@),
        );
        lemma_div_scaled(spec_zbase(nomv@, sbw@), zbw@, spec_zbase(kv@, sbsys@), zbb@);
        lemma_scaled_trans(
            spec_imp_scale(nomv@, sbw@, kv@, sbsys@),
            q_div(zbw@, zbb@),
            scale@,
        );
    }
    Ok(scale)
}


/// A found position holds the sought number, and conversely a position that
/// is the last occurrence of its own number is found by looking that number
/// up.
pub proof fn lemma_pos_of_here(ids: Seq<int>, i: int, p: int)
    requires
        0 <= p < ids.len(),
    ensures
        pos_of(ids, i) == Some(p) <==> (i == ids[p] && pos_of(ids, ids[p]) == Some(p)),
{
    lemma_pos_of_valid(ids, i);
}

/// The real-power demand a load adds to its bus: the constant-power term,
/// the constant-current term scaled by the bus voltage magnitude, and the
/// constant-admittance term scaled by its square.
pub open spec fn spec_load_pd(l: RawLoad, vm: Q) -> Q {
    q_add(q_add(l.pl@, q_mul(l.ip@, vm)), q_mul(l.yp@, q_mul(vm, vm)))
}

/// The reactive-power demand a load adds to its bus; the admittance term
/// enters negatively.
pub open spec fn spec_load_qd(l: RawLoad, vm: Q) -> Q {
    q_sub(q_add(l.ql@, q_mul(l.iq@, vm)), q_mul(l.yq@, q_mul(vm, vm)))
}

/// The real-power demand at the bus in position `p` after the first `k`
/// loads are folded in: in-service loads referencing that bus add their
/// demand, everything else adds nothing.
pub open spec fn acc_pd(loads: Seq<RawLoad>, ids: Seq<int>, p: int, vm: Q, base: Q, k: int) -> Q
    decreases k,
{
    if k <= 0 {
        base
    } else {
        let prev = acc_pd(loads, ids, p, vm, base, k - 1);
        let l = loads[k - 1];
        if l.status != 0 && pos_of(ids, l.i as int) == Some(p) {
            q_add(prev, spec_load_pd(l, vm))
        } else {
            prev
        }
    }
}

/// The reactive-power demand after the first `k` loads.
pub open spec fn acc_qd(loads: Seq<RawLoad>, ids: Seq<int>, p: int, vm: Q, base: Q, k: int) -> Q
    decreases k,
{
    if k <= 0 {
        base
    } else {
        let prev = acc_qd(loads, ids, p, vm, base, k - 1);
        let l = loads[k - 1];
        if l.status != 0 && pos_of(ids, l.i as int) == Some(p) {
            q_add(prev, spec_load_qd(l, vm))
        } else {
            prev
        }
    }
}

/// The shunt conductance after the first `k` fixed shunts.
pub open spec fn acc_gs_fixed(
    shunts: Seq<RawFixedShunt>,
    ids: Seq<int>,
    p: int,
    base: Q,
    k: int,
) -> Q
    decreases k,
{
    if k <= 0 {
        base
    } else {
        let prev = acc_gs_fixed(shunts, ids, p, base, k - 1);
        let s = shunts[k - 1];
        if s.status != 0 && pos_of(ids, s.i as int) == Some(p) {
            q_add(prev, s.gl@)
        } else {
            prev
        }
    }
}

/// The shunt susceptance after the first `k` fixed shunts.
pub open spec fn acc_bs_fixed(
    shunts: Seq<RawFixedShunt>,
    ids: Seq<int>,
    p: int,
    base: Q,
    k: int,
) -> Q
    decreases k,
{
    if k <= 0 {
        base
    } else {
        let prev = acc_bs_fixed(shunts, ids, p, base, k - 1);
        let s = shunts[k - 1];
        if s.status != 0 && pos_of(ids, s.i as int) == Some(p) {
            q_add(prev, s.bl@)
        } else {
            prev
        }
    }
}

/// The shunt susceptance after the first `k` switched shunts: in-service
/// records add their presently switched susceptance, and no conductance.
pub open spec fn acc_bs_switched(
    shunts: Seq<RawSwitchedShunt>,
    ids: Seq<int>,
    p: int,
    base: Q,
    k: int,
) -> Q
    decreases k,
{
    if k <= 0 {
        base
    } else {
        let prev = acc_bs_switched(shunts, ids, p, base, k - 1);
        let s = shunts[k - 1];
        if s.stat != 0 && pos_of(ids, s.i as int) == Some(p) {
            q_add(prev, s.binit@)
        } else {
            prev
        }
    }
}

/// The shunt conductance after the first `k` branches fold in their
/// line-end shunt admittances, scaled by the system base: an in-service
/// branch contributes its `i`-end term to the "from" bus and then its
/// `j`-end term to the "to" bus.
pub open spec fn acc_gs_branch(
    brs: Seq<RawBranch>,
    ids: Seq<int>,
    p: int,
    sb: Q,
    base: Q,
    k: int,
) -> Q
    decreases k,
{
    if k <= 0 {
        base
    } else {
        let prev = acc_gs_branch(brs, ids, p, sb, base, k - 1);
        let br = brs[k - 1];
        let afteri = if br.st != 0 && pos_of(ids, br.i as int) == Some(p) {
            q_add(prev, q_mul(br.gi@, sb))
        } else {
            prev
        };
        if br.st != 0 && pos_of(ids, br.spec_j_bus()) == Some(p) {
            q_add(afteri, q_mul(br.gj@, sb))
        } else {
            afteri
        }
    }
}

/// The shunt susceptance after the first `k` branches.
pub open spec fn acc_bs_branch(
    brs: Seq<RawBranch>,
    ids: Seq<int>,
    p: int,
    sb: Q,
    base: Q,
    k: int,
) -> Q
    decreases k,
{
    if k <= 0 {
        base
    } else {
        let prev = acc_bs_branch(brs, ids, p, sb, base, k - 1);
        let br = brs[k - 1];
        let afteri = if br.st != 0 && pos_of(ids, br.i as int) == Some(p) {
            q_add(prev, q_mul(br.bi@, sb))
        } else {
            prev
        };
        if br.st != 0 && pos_of(ids, br.spec_j_bus()) == Some(p) {
            q_add(afteri, q_mul(br.bj@, sb))
        } else {
            afteri
        }
    }
}


/// The demand accumulations stay well-formed.
proof fn lemma_acc_pd_wf(loads: Seq<RawLoad>, ids: Seq<int>, p: int, vm: Q, base: Q, k: int)
    requires
        q_wf(base),
        q_wf(vm),
        forall|j: int| 0 <= j < loads.len() ==> (#[trigger] loads[j]).wf(),
        k <= loads.len(),
    ensures
        q_wf(acc_pd(loads, ids, p, vm, base, k)),
    decreases k,
{
    if k > 0 {
        lemma_acc_pd_wf(loads, ids, p, vm, base, k - 1);
    }
}

proof fn lemma_acc_qd_wf(loads: Seq<RawLoad>, ids: Seq<int>, p: int, vm: Q, base: Q, k: int)
    requires
        q_wf(base),
        q_wf(vm),
        forall|j: int| 0 <= j < loads.len() ==> (#[trigger] loads[j]).wf(),
        k <= loads.len(),
    ensures
        q_wf(acc_qd(loads, ids, p, vm, base, k)),
    decreases k,
{
    if k > 0 {
        lemma_acc_qd_wf(loads, ids, p, vm, base, k - 1);
    }
}

proof fn lemma_acc_fixed_wf(shunts: Seq<RawFixedShunt>, ids: Seq<int>, p: int, base: Q, k: int)
    requires
        q_wf(base),
        forall|j: int| 0 <= j < shunts.len() ==> (#[trigger] shunts[j]).wf(),
        k <= shunts.len(),
    ensures
        q_wf(acc_gs_fixed(shunts, ids, p, base, k)),
        q_wf(acc_bs_fixed(shunts, ids, p, base, k)),
    decreases k,
{
    if k > 0 {
        lemma_acc_fixed_wf(shunts, ids, p, base, k - 1);
    }
}

proof fn lemma_acc_switched_wf(
    shunts: Seq<RawSwitchedShunt>,
    ids: Seq<int>,
    p: int,
    base: Q,
    k: int,
)
    requires
        q_wf(base),
        forall|j: int| 0 <= j < shunts.len() ==> (#[trigger] shunts[j]).wf(),
        k <= shunts.len(),
    ensures
        q_wf(acc_bs_switched(shunts, ids, p, base, k)),
    decreases k,
{
    if k > 0 {
        lemma_acc_switched_wf(shunts, ids, p, base, k - 1);
    }
}

proof fn lemma_acc_branch_wf(brs: Seq<RawBranch>, ids: Seq<int>, p: int, sb: Q, base: Q, k: int)
    requires
        q_wf(base),
        q_wf(sb),
        forall|j: int| 0 <= j < brs.len() ==> (#[trigger] brs[j]).wf(),
        k <= brs.len(),
    ensures
        q_wf(acc_gs_branch(brs, ids, p, sb, base, k)),
        q_wf(acc_bs_branch(brs, ids, p, sb, base, k)),
    decreases k,
{
    if k > 0 {
        lemma_acc_branch_wf(brs, ids, p, sb, base, k - 1);
    }
}


/// The branch-phase accumulations stay well-formed, given well-formed
/// entry values.
proof fn lemma_ambient_branch_wf(
    net: &RawNetwork,
    ids: Seq<int>,
    p: int,
    sb: Q,
    gs_base: Q,
    bs_base: Q,
    k: int,
)
    requires
        net.wf(),
        q_wf(sb),
        q_wf(gs_base),
        q_wf(bs_base),
        0 <= k <= net.branches@.len(),
    ensures
        q_wf(acc_gs_branch(net.branches@, ids, p, sb, gs_base, k)),
        q_wf(acc_bs_branch(net.branches@, ids, p, sb, bs_base, k)),
{
    lemma_acc_branch_wf(net.branches@, ids, p, sb, gs_base, k);
    lemma_acc_branch_wf(net.branches@, ids, p, sb, bs_base, k);
}

/// One load folded onto a demand component.
fn pd_after_load(cur: Rat, l: &RawLoad, vm: Rat) -> (r: Result<Rat, CaseError>)
    requires
        cur.wf(),
        l.wf(),
        vm.wf(),
    ensures
        (r matches Ok(v) ==> v.wf() && q_eq(v@, q_add(cur@, spec_load_pd(*l, vm@)))),
        (r is Err ==> r == Err::<Rat, CaseError>(CaseError::Overflow)),
{
    let t1 = match ra(l.ip.mul(vm)) {
        Ok(v) => v,
        Err(e) => {
            return Err(e);
        },
    };
    let vm2 = match ra(vm.mul(vm)) {
        Ok(v) => v,
        Err(e) => {
            return Err(e);
        },
    };
    let t2 = match ra(l.yp.mul(vm2)) {
        Ok(v) => v,
        Err(e) => {
            return Err(e);
        },
    };
    let s1 = match ra(l.pl.add(t1)) {
        Ok(v) => v,
        Err(e) => {
            return Err(e);
        },
    };
    let s2 = match ra(s1.add(t2)) {
        Ok(v) => v,
        Err(e) => {
            return Err(e);
        },
    };
    let out = match ra(cur.add(s2)) {
        Ok(v) => v,
        Err(e) => {
            return Err(e);
        },
    };
    proof {
        lemma_mul_congr(l.yp@, l.yp@, vm2@, q_mul(vm@, vm@));
        lemma_q_eq_trans(t2@, q_mul(l.yp@, vm2@), q_mul(l.yp@, q_mul(vm@, vm@)));
        lemma_add_congr(l.pl@, l.pl@, t1@, q_mul(l.ip@, vm@));
        lemma_q_eq_trans(s1@, q_add(l.pl@, t1@), q_add(l.pl@, q_mul(l.ip@, vm@)));
        lemma_add_congr(
            s1@,
            q_add(l.pl@, q_mul(l.ip@, vm@)),
            t2@,
            q_mul(l.yp@, q_mul(vm@, vm@)),
        );
        lemma_q_eq_trans(s2@, q_add(s1@, t2@), spec_load_pd(*l, vm@));
        lemma_add_congr(cur@, cur@, s2@, spec_load_pd(*l, vm@));
        lemma_q_eq_trans(out@, q_add(cur@, s2@), q_add(cur@, spec_load_pd(*l, vm@)));
    }
    Ok(out)
}

/// One load folded onto a reactive demand component.
fn qd_after_load(cur: Rat, l: &RawLoad, vm: Rat) -> (r: Result<Rat, CaseError>)
    requires
        cur.wf(),
        l.wf(),
        vm.wf(),
    ensures
        (r matches Ok(v) ==> v.wf() && q_eq(v@, q_add(cur@, spec_load_qd(*l, vm@)))),
        (r is Err ==> r == Err::<Rat, CaseError>(CaseError::Overflow)),
{
    let t1 = match ra(l.iq.mul(vm)) {
        Ok(v) => v,
        Err(e) => {
            return Err(e);
        },
    };
    let vm2 = match ra(vm.mul(vm)) {
        Ok(v) => v,
        Err(e) => {
            return Err(e);
        },
    };
    let t2 = match ra(l.yq.mul(vm2)) {
        Ok(v) => v,
        Err(e) => {
            return Err(e);
        },
    };
    let s1 = match ra(l.ql.add(t1)) {
        Ok(v) => v,
        Err(e) => {
            return Err(e);
        },
    };
    let s2 = match ra(s1.sub(t2)) {
        Ok(v) => v,
        Err(e) => {
            return Err(e);
        },
    };
    let out = match ra(cur.add(s2)) {
        Ok(v) => v,
        Err(e) => {
            return Err(e);
        },
    };
    proof {
        lemma_mul_congr(l.yq@, l.yq@, vm2@, q_mul(vm@, vm@));
        lemma_q_eq_trans(t2@, q_mul(l.yq@, vm2@), q_mul(l.yq@, q_mul(vm@, vm@)));
        lemma_add_congr(l.ql@, l.ql@, t1@, q_mul(l.iq@, vm@));
        lemma_q_eq_trans(s1@, q_add(l.ql@, t1@), q_add(l.ql@, q_mul(l.iq@, vm@)));
        lemma_sub_congr(
            s1@,
            q_add(l.ql@, q_mul(l.iq@, vm@)),
            t2@,
            q_mul(l.yq@, q_mul(vm@, vm@)),
        );
        lemma_q_eq_trans(s2@, q_sub(s1@, t2@), spec_load_qd(*l, vm@));
        lemma_add_congr(cur@, cur@, s2@, spec_load_qd(*l, vm@));
        lemma_q_eq_trans(out@, q_add(cur@, s2@), q_add(cur@, spec_load_qd(*l, vm@)));
    }
    Ok(out)
}

/// One scaled branch-end admittance component folded in.
fn after_scaled(cur: Rat, g: Rat, sb: Rat) -> (r: Result<Rat, CaseError>)
    requires
        cur.wf(),
        g.wf(),
        sb.wf(),
    ensures
        (r matches Ok(v) ==> v.wf() && q_eq(v@, q_add(cur@, q_mul(g@, sb@)))),
        (r is Err ==> r == Err::<Rat, CaseError>(CaseError::Overflow)),
{
    let t = match ra(g.mul(sb)) {
        Ok(v) => v,
        Err(e) => {
            return Err(e);
        },
    };
    let out = match ra(cur.add(t)) {
        Ok(v) => v,
        Err(e) => {
            return Err(e);
        },
    };
    proof {
        lemma_add_congr(cur@, cur@, t@, q_mul(g@, sb@));
        lemma_q_eq_trans(out@, q_add(cur@, t@), q_add(cur@, q_mul(g@, sb@)));
    }
    Ok(out)
}


/// Seed one normalized bus from a raw bus record: type, classifiers and
/// operating point carry over; demand and shunt start at zero.
pub fn seeded_bus(rb: &RawBus) -> (b: Bus)
    requires
        rb.wf(),
    ensures
        b.wf(),
        b == (Bus {
            bus_i: rb.i,
            bus_type: rb.ide,
            pd: Rat { n: 0, d: 1 },
            qd: Rat { n: 0, d: 1 },
            gs: Rat { n: 0, d: 1 },
            bs: Rat { n: 0, d: 1 },
            bus_area: rb.area,
            vm: rb.vm,
            va: rb.va,
            base_kv: rb.basekv,
            zone: rb.zone,
            vmax: Some(rb.nvhi),
            vmin: Some(rb.nvlo),
            lam_p: None,
            lam_q: None,
            mu_vmax: None,
            mu_vmin: None,
        }),
{
    Bus {
        bus_i: rb.i,
        bus_type: rb.ide,
        pd: Rat::zero(),
        qd: Rat::zero(),
        gs: Rat::zero(),
        bs: Rat::zero(),
        bus_area: rb.area,
        vm: rb.vm,
        va: rb.va,
        base_kv: rb.basekv,
        zone: rb.zone,
        vmax: Some(rb.nvhi),
        vmin: Some(rb.nvlo),
        lam_p: None,
        lam_q: None,
        mu_vmax: None,
        mu_vmin: None,
    }
}

/// Fold every in-service load, fixed shunt, switched shunt and branch-end
/// shunt admittance that references the bus in position `p` onto that bus.
/// Out-of-service records contribute nothing; when the same bus number
/// occurs more than once, the last position wins every reference.
pub fn accumulate_bus(
    b0: Bus,
    p: usize,
    last: bool,
    net: &RawNetwork,
    sb: Rat,
    ids: Ghost<Seq<int>>,
) -> (r: Result<Bus, CaseError>)
    requires
        b0.wf(),
        net.wf(),
        sb.wf(),
        ids@ == raw_ids(net.buses@),
        (p as int) < ids@.len(),
        ids@[p as int] == b0.bus_i as int,
        last <==> pos_of(ids@, b0.bus_i as int) == Some(p as int),
    ensures
        (r matches Ok(b) ==> {
            let n_l = net.loads@.len() as int;
            let n_f = net.fixed_shunts@.len() as int;
            let n_s = net.switched_shunts@.len() as int;
            let n_b = net.branches@.len() as int;
            &&& b.wf()
            &&& b == (Bus { pd: b.pd, qd: b.qd, gs: b.gs, bs: b.bs, ..b0 })
            &&& q_eq(b.pd@, acc_pd(net.loads@, ids@, p as int, b0.vm@, b0.pd@, n_l))
            &&& q_eq(b.qd@, acc_qd(net.loads@, ids@, p as int, b0.vm@, b0.qd@, n_l))
            &&& q_eq(
                b.gs@,
                acc_gs_branch(
                    net.branches@,
                    ids@,
                    p as int,
                    sb@,
                    acc_gs_fixed(net.fixed_shunts@, ids@, p as int, b0.gs@, n_f),
                    n_b,
                ),
            )
            &&& q_eq(
                b.bs@,
                acc_bs_branch(
                    net.branches@,
                    ids@,
                    p as int,
                    sb@,
                    acc_bs_switched(
                        net.switched_shunts@,
                        ids@,
                        p as int,
                        acc_bs_fixed(net.fixed_shunts@, ids@, p as int, b0.bs@, n_f),
                        n_s,
                    ),
                    n_b,
                ),
            )
        }),
        (r is Err ==> r == Err::<Bus, CaseError>(CaseError::Overflow)),
        (net.loads@.len() == 0 && net.fixed_shunts@.len() == 0 && net.switched_shunts@.len() == 0
            && net.branches@.len() == 0) ==> r is Ok,
        ((forall|k: int|
            0 <= k < net.loads@.len() ==> !((#[trigger] net.loads@[k]).status != 0 && pos_of(
                ids@,
                net.loads@[k].i as int,
            ) == Some(p as int))) && (forall|k: int|
            0 <= k < net.fixed_shunts@.len() ==> !((#[trigger] net.fixed_shunts@[k]).status != 0
                && pos_of(ids@, net.fixed_shunts@[k].i as int) == Some(p as int))) && (forall|
            k: int,
        |
            0 <= k < net.switched_shunts@.len() ==> !((#[trigger] net.switched_shunts@[k]).stat
                != 0 && pos_of(ids@, net.switched_shunts@[k].i as int) == Some(p as int))) && (
        forall|k: int|
            0 <= k < net.branches@.len() ==> !((#[trigger] net.branches@[k]).st != 0 && (pos_of(
                ids@,
                net.branches@[k].i as int,
            ) == Some(p as int) || pos_of(ids@, net.branches@[k].spec_j_bus()) == Some(
                p as int,
            ))))) ==> r is Ok,
{
    let ghost pi = p as int;
    let mut pd = b0.pd;
    let mut qd = b0.qd;
    let n_l = net.loads.len();
    let mut k: usize = 0;
    while k < n_l
        invariant
            k <= n_l,
            n_l == net.loads@.len(),
            net.wf(),
            b0.wf(),
            pd.wf(),
            qd.wf(),
            pi == p as int,
            0 <= pi < ids@.len(),
            ids@[pi] == b0.bus_i as int,
            last <==> pos_of(ids@, b0.bus_i as int) == Some(pi),
            q_eq(pd@, acc_pd(net.loads@, ids@, pi, b0.vm@, b0.pd@, k as int)),
            q_eq(qd@, acc_qd(net.loads@, ids@, pi, b0.vm@, b0.qd@, k as int)),
        decreases n_l - k,
    {
        let l = &net.loads[k];
        proof {
            lemma_pos_of_here(ids@, l.i as int, pi);
        }
        if l.status != 0 && l.i == b0.bus_i && last {
            let pd2 = match pd_after_load(pd, l, b0.vm) {
                Ok(v) => v,
                Err(e) => {
                    proof {
                        assert(net.loads@[k as int].status != 0 && pos_of(
                            ids@,
                            net.loads@[k as int].i as int,
                        ) == Some(p as int));
                    }
                    return Err(e);
                },
            };
            let qd2 = match qd_after_load(qd, l, b0.vm) {
                Ok(v) => v,
                Err(e) => {
                    proof {
                        assert(net.loads@[k as int].status != 0 && pos_of(
                            ids@,
                            net.loads@[k as int].i as int,
                        ) == Some(p as int));
                    }
                    return Err(e);
                },
            };
            proof {
                let prev = acc_pd(net.loads@, ids@, pi, b0.vm@, b0.pd@, k as int);
                lemma_acc_pd_wf(net.loads@, ids@, pi, b0.vm@, b0.pd@, k as int);
                lemma_acc_qd_wf(net.loads@, ids@, pi, b0.vm@, b0.qd@, k as int);
                lemma_add_congr(pd@, prev, spec_load_pd(*l, b0.vm@), spec_load_pd(*l, b0.vm@));
                lemma_q_eq_trans(
                    pd2@,
                    q_add(pd@, spec_load_pd(*l, b0.vm@)),
                    q_add(prev, spec_load_pd(*l, b0.vm@)),
                );
                let prevq = acc_qd(net.loads@, ids@, pi, b0.vm@, b0.qd@, k as int);
                lemma_add_congr(qd@, prevq, spec_load_qd(*l, b0.vm@), spec_load_qd(*l, b0.vm@));
                lemma_q_eq_trans(
                    qd2@,
                    q_add(qd@, spec_load_qd(*l, b0.vm@)),
                    q_add(prevq, spec_load_qd(*l, b0.vm@)),
                );
            }
            pd = pd2;
            qd = qd2;
        }
        k = k + 1;
    }
    let mut gs = b0.gs;
    let mut bs = b0.bs;
    let n_f = net.fixed_shunts.len();
    let mut k: usize = 0;
    while k < n_f
        invariant
            k <= n_f,
            n_f == net.fixed_shunts@.len(),
            net.wf(),
            b0.wf(),
            gs.wf(),
            bs.wf(),
            pi == p as int,
            0 <= pi < ids@.len(),
            ids@[pi] == b0.bus_i as int,
            last <==> pos_of(ids@, b0.bus_i as int) == Some(pi),
            q_eq(gs@, acc_gs_fixed(net.fixed_shunts@, ids@, pi, b0.gs@, k as int)),
            q_eq(bs@, acc_bs_fixed(net.fixed_shunts@, ids@, pi, b0.bs@, k as int)),
        decreases n_f - k,
    {
        let s = &net.fixed_shunts[k];
        proof {
            lemma_pos_of_here(ids@, s.i as int, pi);
        }
        if s.status != 0 && s.i == b0.bus_i && last {
            let gs2 = match ra(gs.add(s.gl)) {
                Ok(v) => v,
                Err(e) => {
                    proof {
                        assert(net.fixed_shunts@[k as int].status != 0 && pos_of(
                            ids@,
                            net.fixed_shunts@[k as int].i as int,
                        ) == Some(p as int));
                    }
                    return Err(e);
                },
            };
            let bs2 = match ra(bs.add(s.bl)) {
                Ok(v) => v,
                Err(e) => {
                    proof {
                        assert(net.fixed_shunts@[k as int].status != 0 && pos_of(
                            ids@,
                            net.fixed_shunts@[k as int].i as int,
                        ) == Some(p as int));
                    }
                    return Err(e);
                },
            };
            proof {
                let prev = acc_gs_fixed(net.fixed_shunts@, ids@, pi, b0.gs@, k as int);
                lemma_acc_fixed_wf(net.fixed_shunts@, ids@, pi, b0.gs@, k as int);
                lemma_acc_fixed_wf(net.fixed_shunts@, ids@, pi, b0.bs@, k as int);
                lemma_add_congr(gs@, prev, s.gl@, s.gl@);
                lemma_q_eq_trans(gs2@, q_add(gs@, s.gl@), q_add(prev, s.gl@));
                let prevb = acc_bs_fixed(net.fixed_shunts@, ids@, pi, b0.bs@, k as int);
                lemma_add_congr(bs@, prevb, s.bl@, s.bl@);
                lemma_q_eq_trans(bs2@, q_add(bs@, s.bl@), q_add(prevb, s.bl@));
            }
            gs = gs2;
            bs = bs2;
        }
        k = k + 1;
    }
    let ghost bs_fixed = acc_bs_fixed(net.fixed_shunts@, ids@, pi, b0.bs@, n_f as int);
    let n_s = net.switched_shunts.len();
    let mut k: usize = 0;
    while k < n_s
        invariant
            k <= n_s,
            n_s == net.switched_shunts@.len(),
            net.wf(),
            b0.wf(),
            bs.wf(),
            pi == p as int,
            0 <= pi < ids@.len(),
            ids@[pi] == b0.bus_i as int,
            last <==> pos_of(ids@, b0.bus_i as int) == Some(pi),
            bs_fixed == acc_bs_fixed(
                net.fixed_shunts@,
                ids@,
                pi,
                b0.bs@,
                net.fixed_shunts@.len() as int,
            ),
            q_eq(bs@, acc_bs_switched(net.switched_shunts@, ids@, pi, bs_fixed, k as int)),
        decreases n_s - k,
    {
        let s = &net.switched_shunts[k];
        proof {
            lemma_pos_of_here(ids@, s.i as int, pi);
        }
        if s.stat != 0 && s.i == b0.bus_i && last {
            let bs2 = match ra(bs.add(s.binit)) {
                Ok(v) => v,
                Err(e) => {
                    proof {
                        assert(net.switched_shunts@[k as int].stat != 0 && pos_of(
                            ids@,
                            net.switched_shunts@[k as int].i as int,
                        ) == Some(p as int));
                    }
                    return Err(e);
                },
            };
            proof {
                let prev = acc_bs_switched(net.switched_shunts@, ids@, pi, bs_fixed, k as int);
                lemma_acc_fixed_wf(
                    net.fixed_shunts@,
                    ids@,
                    pi,
                    b0.bs@,
                    net.fixed_shunts@.len() as int,
                );
                lemma_acc_switched_wf(net.switched_shunts@, ids@, pi, bs_fixed, k as int);
                lemma_add_congr(bs@, prev, s.binit@, s.binit@);
                lemma_q_eq_trans(bs2@, q_add(bs@, s.binit@), q_add(prev, s.binit@));
            }
            bs = bs2;
        }
        k = k + 1;
    }
    let ghost gs_fixed = acc_gs_fixed(net.fixed_shunts@, ids@, pi, b0.gs@, n_f as int);
    let ghost bs_sw = acc_bs_switched(net.switched_shunts@, ids@, pi, bs_fixed, n_s as int);
    proof {
        lemma_acc_fixed_wf(net.fixed_shunts@, ids@, pi, b0.gs@, n_f as int);
        lemma_acc_fixed_wf(net.fixed_shunts@, ids@, pi, b0.bs@, n_f as int);
        lemma_acc_switched_wf(net.switched_shunts@, ids@, pi, bs_fixed, n_s as int);
    }
    let n_b = net.branches.len();
    let mut k: usize = 0;
    while k < n_b
        invariant
            k <= n_b,
            n_b == net.branches@.len(),
            net.wf(),
            b0.wf(),
            sb.wf(),
            gs.wf(),
            bs.wf(),
            q_wf(gs_fixed),
            q_wf(bs_sw),
            pi == p as int,
            0 <= pi < ids@.len(),
            ids@[pi] == b0.bus_i as int,
            last <==> pos_of(ids@, b0.bus_i as int) == Some(pi),
            q_eq(gs@, acc_gs_branch(net.branches@, ids@, pi, sb@, gs_fixed, k as int)),
            q_eq(bs@, acc_bs_branch(net.branches@, ids@, pi, sb@, bs_sw, k as int)),
        decreases n_b - k,
    {
        let br = &net.branches[k];
        proof {
            lemma_pos_of_here(ids@, br.i as int, pi);
            lemma_pos_of_here(ids@, br.spec_j_bus(), pi);
        }
        let ghost gs_i = acc_gs_branch(net.branches@, ids@, pi, sb@, gs_fixed, k as int);
        let ghost bs_i = acc_bs_branch(net.branches@, ids@, pi, sb@, bs_sw, k as int);
        if br.st != 0 && br.i == b0.bus_i && last {
            let gs2 = match after_scaled(gs, br.gi, sb) {
                Ok(v) => v,
                Err(e) => {
                    proof {
                        assert(net.branches@[k as int].st != 0 && pos_of(
                            ids@,
                            net.branches@[k as int].i as int,
                        ) == Some(p as int));
                    }
                    return Err(e);
                },
            };
            let bs2 = match after_scaled(bs, br.bi, sb) {
                Ok(v) => v,
                Err(e) => {
                    proof {
                        assert(net.branches@[k as int].st != 0 && pos_of(
                            ids@,
                            net.branches@[k as int].i as int,
                        ) == Some(p as int));
                    }
                    return Err(e);
                },
            };
            proof {
                lemma_ambient_branch_wf(net, ids@, pi, sb@, gs_fixed, bs_sw, k as int);
                lemma_add_congr(gs@, gs_i, q_mul(br.gi@, sb@), q_mul(br.gi@, sb@));
                lemma_q_eq_trans(
                    gs2@,
                    q_add(gs@, q_mul(br.gi@, sb@)),
                    q_add(gs_i, q_mul(br.gi@, sb@)),
                );
                lemma_add_congr(bs@, bs_i, q_mul(br.bi@, sb@), q_mul(br.bi@, sb@));
                lemma_q_eq_trans(
                    bs2@,
                    q_add(bs@, q_mul(br.bi@, sb@)),
                    q_add(bs_i, q_mul(br.bi@, sb@)),
                );
            }
            gs = gs2;
            bs = bs2;
        }
        let ghost gs_m = if br.st != 0 && pos_of(ids@, br.i as int) == Some(pi) {
            q_add(gs_i, q_mul(br.gi@, sb@))
        } else {
            gs_i
        };
        let ghost bs_m = if br.st != 0 && pos_of(ids@, br.i as int) == Some(pi) {
            q_add(bs_i, q_mul(br.bi@, sb@))
        } else {
            bs_i
        };
        let jb = br.j_bus();
        if br.st != 0 && jb == b0.bus_i && last {
            let gs2 = match after_scaled(gs, br.gj, sb) {
                Ok(v) => v,
                Err(e) => {
                    proof {
                        assert(net.branches@[k as int].st != 0 && pos_of(
                            ids@,
                            net.branches@[k as int].spec_j_bus(),
                        ) == Some(p as int));
                    }
                    return Err(e);
                },
            };
            let bs2 = match after_scaled(bs, br.bj, sb) {
                Ok(v) => v,
                Err(e) => {
                    proof {
                        assert(net.branches@[k as int].st != 0 && pos_of(
                            ids@,
                            net.branches@[k as int].spec_j_bus(),
                        ) == Some(p as int));
                    }
                    return Err(e);
                },
            };
            proof {
                lemma_ambient_branch_wf(net, ids@, pi, sb@, gs_fixed, bs_sw, k as int);
                lemma_add_congr(gs@, gs_m, q_mul(br.gj@, sb@), q_mul(br.gj@, sb@));
                lemma_q_eq_trans(
                    gs2@,
                    q_add(gs@, q_mul(br.gj@, sb@)),
                    q_add(gs_m, q_mul(br.gj@, sb@)),
                );
                lemma_add_congr(bs@, bs_m, q_mul(br.bj@, sb@), q_mul(br.bj@, sb@));
                lemma_q_eq_trans(
                    bs2@,
                    q_add(bs@, q_mul(br.bj@, sb@)),
                    q_add(bs_m, q_mul(br.bj@, sb@)),
                );
            }
            gs = gs2;
            bs = bs2;
        }
        k = k + 1;
    }
    Ok(Bus { pd, qd, gs, bs, ..b0 })
}


/// A successful impedance conversion's spec values are well-formed.
proof fn lemma_imp_spec_wf(cz: int, r12: Q, x12: Q, sbw: Q, nomv: Q, kv: Q, sbsys: Q)
    requires
        q_wf(r12),
        q_wf(x12),
        q_wf(sbw),
        q_wf(nomv),
        q_wf(kv),
        q_wf(sbsys),
        spec_imp_ok(cz, r12, x12, sbw, kv, sbsys),
    ensures
        q_wf(spec_imp_r(cz, r12, x12, sbw, nomv, kv, sbsys)),
        q_wf(spec_imp_x(cz, r12, x12, sbw, nomv, kv, sbsys)),
{
    if cz == 2 || cz == 3 {
        lemma_imp_scale_wf(nomv, sbw, kv, sbsys);
        if cz == 3 {
            assert(q_wf(spec_loss_r(r12, sbw)));
            assert(q_wf(spec_rat_sqrt(spec_radicand(x12, spec_loss_r(r12, sbw)))));
        }
    }
}

/// The star-leg construction respects value equality in all three loops.
proof fn lemma_star_leg_congr(p: Q, p2: Q, q: Q, q2: Q, o: Q, o2: Q)
    requires
        q_wf(p),
        q_wf(p2),
        q_wf(q),
        q_wf(q2),
        q_wf(o),
        q_wf(o2),
        q_eq(p, p2),
        q_eq(q, q2),
        q_eq(o, o2),
    ensures
        q_eq(spec_star_leg(p, q, o), spec_star_leg(p2, q2, o2)),
{
    lemma_add_congr(p, p2, q, q2);
    lemma_sub_congr(q_add(p, q), q_add(p2, q2), o, o2);
    lemma_div_congr(
        q_sub(q_add(p, q), o),
        q_sub(q_add(p2, q2), o2),
        q_int(2),
        q_int(2),
    );
}

/// Convert one two-winding transformer record into a normalized branch:
/// tap from the winding-voltage fields per the winding code, impedance to
/// the system base per the impedance code, ratings and status through.
pub fn two_winding_branch(tr: &RawTransformer, fb: Rat, tb: Rat, sbase: Rat) -> (r: Result<
    Branch,
    CaseError,
>)
    requires
        tr.wf(),
        fb.wf(),
        tb.wf(),
        sbase.wf(),
    ensures
        (r matches Ok(b) ==> b.wf() && b.f_bus == tr.i && b.t_bus == tr.j && q_eq(
            b.tap@,
            spec_tap2(tr.cw as int, tr.windv1@, tr.windv2@, tr.nomv1@, tr.nomv2@, fb@, tb@),
        ) && q_eq(
            b.br_r@,
            spec_imp_r(tr.cz as int, tr.r1_2@, tr.x1_2@, tr.sbase1_2@, tr.nomv1@, fb@, sbase@),
        ) && q_eq(
            b.br_x@,
            spec_imp_x(tr.cz as int, tr.r1_2@, tr.x1_2@, tr.sbase1_2@, tr.nomv1@, fb@, sbase@),
        ) && b.br_b == (Rat { n: 0, d: 1 }) && b.rate_a == tr.rata1 && b.rate_b == tr.ratb1
            && b.rate_c == tr.ratc1 && b.shift == tr.ang1 && b.br_status == (if tr.stat != 0 {
            1usize
        } else {
            0usize
        }) && spec_tap2_ok(tr.cw as int, tr.windv2@, tr.nomv2@, fb@) && spec_imp_ok(
            tr.cz as int,
            tr.r1_2@,
            tr.x1_2@,
            tr.sbase1_2@,
            fb@,
            sbase@,
        )),
        (tr.cw != 1 && tr.cw != 2) ==> r == Err::<Branch, CaseError>(
            CaseError::UnsupportedWindingCode { code: tr.cw, bus1: tr.i, bus2: tr.j, bus3: 0 },
        ),
        (r matches Err(e) ==> (e matches CaseError::UnsupportedImpedanceCode { code, .. } ==> code
            == tr.cz && tr.cz != 1 && tr.cz != 2 && tr.cz != 3)),
        (r matches Err(e) ==> (e matches CaseError::NumericDomain { .. } ==> tr.cz == 3 && q_lt(
            spec_radicand(tr.x1_2@, spec_loss_r(tr.r1_2@, tr.sbase1_2@)),
            q_int(0),
        ))),
        (spec_tap2_ok(tr.cw as int, tr.windv2@, tr.nomv2@, fb@) && spec_imp_ok(
            tr.cz as int,
            tr.r1_2@,
            tr.x1_2@,
            tr.sbase1_2@,
            fb@,
            sbase@,
        ) && r is Err) ==> r == Err::<Branch, CaseError>(CaseError::Overflow),
        (spec_tap2_ok(tr.cw as int, tr.windv2@, tr.nomv2@, fb@) && spec_imp_ok(
            tr.cz as int,
            tr.r1_2@,
            tr.x1_2@,
            tr.sbase1_2@,
            fb@,
            sbase@,
        ) && spec_tap2_reprable(
            tr.cw as int,
            tr.windv1@,
            tr.windv2@,
            tr.nomv1@,
            tr.nomv2@,
            fb@,
            tb@,
        ) && spec_imp_reprable(
            tr.cz as int,
            tr.r1_2@,
            tr.x1_2@,
            tr.sbase1_2@,
            tr.nomv1@,
            fb@,
            sbase@,
        )) ==> r is Ok,
{
    let tap = match tap_two_winding(
        tr.cw,
        tr.windv1,
        tr.windv2,
        tr.nomv1,
        tr.nomv2,
        fb,
        tb,
        tr.i,
        tr.j,
        0,
    ) {
        Ok(v) => v,
        Err(e) => {
            return Err(e);
        },
    };
    let rx = match impedance_to_system(
        tr.cz,
        tr.r1_2,
        tr.x1_2,
        tr.sbase1_2,
        tr.nomv1,
        fb,
        sbase,
        tr.i,
        tr.j,
        0,
    ) {
        Ok(v) => v,
        Err(e) => {
            return Err(e);
        },
    };
    Ok(
        Branch {
            f_bus: tr.i,
            t_bus: tr.j,
            br_r: rx.0,
            br_x: rx.1,
            br_b: Rat::zero(),
            rate_a: tr.rata1,
            rate_b: tr.ratb1,
            rate_c: tr.ratc1,
            tap,
            shift: tr.ang1,
            br_status: if tr.stat != 0 {
                1
            } else {
                0
            },
            angmin: None,
            angmax: None,
            pf: None,
            qf: None,
            pt: None,
            qt: None,
            mu_sf: None,
            mu_st: None,
            mu_angmin: None,
            mu_angmax: None,
        },
    )
}

/// The fields a three-winding record must carry, and the divisors and root
/// domains its conversion needs.
pub open spec fn spec_tr3_ok(t: RawTransformer, fb1: Q, fb2: Q, fb3: Q, sbase: Q) -> bool {
    &&& t.r2_3 is Some
    &&& t.x2_3 is Some
    &&& t.sbase2_3 is Some
    &&& t.r3_1 is Some
    &&& t.x3_1 is Some
    &&& t.sbase3_1 is Some
    &&& t.windv3 is Some
    &&& t.nomv3 is Some
    &&& t.ang2 is Some
    &&& t.rata2 is Some
    &&& t.ratb2 is Some
    &&& t.ratc2 is Some
    &&& t.ang3 is Some
    &&& t.rata3 is Some
    &&& t.ratb3 is Some
    &&& t.ratc3 is Some
    &&& (t.cw == 1 || t.cw == 2)
    &&& (t.cw == 1 ==> fb1.n != 0)
    &&& spec_imp_ok(t.cz as int, t.r1_2@, t.x1_2@, t.sbase1_2@, fb1, sbase)
    &&& spec_imp_ok(t.cz as int, t.r2_3->0@, t.x2_3->0@, t.sbase2_3->0@, fb2, sbase)
    &&& spec_imp_ok(t.cz as int, t.r3_1->0@, t.x3_1->0@, t.sbase3_1->0@, fb3, sbase)
}

/// Leg representability transfers from exact loop components to the scaled
/// ones the computation holds.
proof fn lemma_leg_reprable_scaled(p: Q, p2: Q, q: Q, q2: Q, o: Q, o2: Q)
    requires
        q_wf(p2),
        q_wf(q2),
        q_wf(o2),
        q_scaled_of(p, p2),
        q_scaled_of(q, q2),
        q_scaled_of(o, o2),
        spec_leg_reprable(p, q, o),
    ensures
        spec_leg_reprable(p2, q2, o2),
{
    broadcast use crate::rat::group_q_wf;

    lemma_add_scaled(p, p2, q, q2);
    lemma_scaled_in_range(q_add(p, q), q_add(p2, q2));
    lemma_sub_scaled(q_add(p, q), q_add(p2, q2), o, o2);
    lemma_scaled_in_range(q_sub(q_add(p, q), o), q_sub(q_add(p2, q2), o2));
    lemma_scaled_refl(q_int(2));
    lemma_div_scaled(q_sub(q_add(p, q), o), q_sub(q_add(p2, q2), o2), q_int(2), q_int(2));
    lemma_scaled_in_range(spec_star_leg(p, q, o), spec_star_leg(p2, q2, o2));
}

/// The exact values a three-winding split passes through, each
/// representable: the three taps, the three impedance conversions, and the
/// six delta-to-star legs. When they are (and the record is convertible at
/// all), the split is owed a success.
pub open spec fn spec_tr3_reprable(t: RawTransformer, fb1: Q, fb2: Q, fb3: Q, sbase: Q) -> bool {
    let r12 = spec_imp_r(t.cz as int, t.r1_2@, t.x1_2@, t.sbase1_2@, t.nomv1@, fb1, sbase);
    let x12 = spec_imp_x(t.cz as int, t.r1_2@, t.x1_2@, t.sbase1_2@, t.nomv1@, fb1, sbase);
    let r23 = spec_imp_r(t.cz as int, t.r2_3->0@, t.x2_3->0@, t.sbase2_3->0@, t.nomv2@, fb2, sbase);
    let x23 = spec_imp_x(t.cz as int, t.r2_3->0@, t.x2_3->0@, t.sbase2_3->0@, t.nomv2@, fb2, sbase);
    let r31 = spec_imp_r(
        t.cz as int,
        t.r3_1->0@,
        t.x3_1->0@,
        t.sbase3_1->0@,
        t.nomv3->0@,
        fb3,
        sbase,
    );
    let x31 = spec_imp_x(
        t.cz as int,
        t.r3_1->0@,
        t.x3_1->0@,
        t.sbase3_1->0@,
        t.nomv3->0@,
        fb3,
        sbase,
    );
    &&& (t.cw == 1 ==> q_in_range(q_div(t.windv1@, fb1)) && q_in_range(q_div(t.windv2@, fb1))
        && q_in_range(q_div(t.windv3->0@, fb1)))
    &&& (t.cw == 2 ==> q_in_range(q_mul(t.windv1@, t.nomv1@)) && q_in_range(
        q_mul(t.windv2@, t.nomv2@),
    ) && q_in_range(q_mul(t.windv3->0@, t.nomv3->0@)))
    &&& spec_imp_reprable(t.cz as int, t.r1_2@, t.x1_2@, t.sbase1_2@, t.nomv1@, fb1, sbase)
    &&& spec_imp_reprable(
        t.cz as int,
        t.r2_3->0@,
        t.x2_3->0@,
        t.sbase2_3->0@,
        t.nomv2@,
        fb2,
        sbase,
    )
    &&& spec_imp_reprable(
        t.cz as int,
        t.r3_1->0@,
        t.x3_1->0@,
        t.sbase3_1->0@,
        t.nomv3->0@,
        fb3,
        sbase,
    )
    &&& spec_leg_reprable(r12, r31, r23)
    &&& spec_leg_reprable(r12, r23, r31)
    &&& spec_leg_reprable(r31, r23, r12)
    &&& spec_leg_reprable(x12, x31, x23)
    &&& spec_leg_reprable(x12, x23, x31)
    &&& spec_leg_reprable(x31, x23, x12)
}

/// Decompose one three-winding transformer into a star bus and three
/// two-winding equivalent branches. The star bus sits at `star_i`, takes its
/// operating point from the record's star-voltage fields, copies its
/// classifiers and limits from the first winding's bus, and is a load-type
/// bus when any leg is in service, else isolated. Each leg carries the
/// delta-to-star share of the converted loop impedances, its own tap, phase
/// shift and ratings, and a status read off the composite status code.
pub fn split_three_winding(
    tr: &RawTransformer,
    bus1: &Bus,
    b2kv: Rat,
    b3kv: Rat,
    star_i: usize,
    sbase: Rat,
) -> (r: Result<(Bus, Branch, Branch, Branch), CaseError>)
    requires
        tr.wf(),
        bus1.wf(),
        b2kv.wf(),
        b3kv.wf(),
        sbase.wf(),
    ensures
        (r matches Ok(out) ==> ({
            let fb1 = bus1.base_kv@;
            let r12 = spec_imp_r(
                tr.cz as int,
                tr.r1_2@,
                tr.x1_2@,
                tr.sbase1_2@,
                tr.nomv1@,
                fb1,
                sbase@,
            );
            let x12 = spec_imp_x(
                tr.cz as int,
                tr.r1_2@,
                tr.x1_2@,
                tr.sbase1_2@,
                tr.nomv1@,
                fb1,
                sbase@,
            );
            let r23 = spec_imp_r(
                tr.cz as int,
                tr.r2_3->0@,
                tr.x2_3->0@,
                tr.sbase2_3->0@,
                tr.nomv2@,
                b2kv@,
                sbase@,
            );
            let x23 = spec_imp_x(
                tr.cz as int,
                tr.r2_3->0@,
                tr.x2_3->0@,
                tr.sbase2_3->0@,
                tr.nomv2@,
                b2kv@,
                sbase@,
            );
            let r31 = spec_imp_r(
                tr.cz as int,
                tr.r3_1->0@,
                tr.x3_1->0@,
                tr.sbase3_1->0@,
                tr.nomv3->0@,
                b3kv@,
                sbase@,
            );
            let x31 = spec_imp_x(
                tr.cz as int,
                tr.r3_1->0@,
                tr.x3_1->0@,
                tr.sbase3_1->0@,
                tr.nomv3->0@,
                b3kv@,
                sbase@,
            );
            let star = out.0;
            let br1 = out.1;
            let br2 = out.2;
            let br3 = out.3;
            &&& star.wf()
            &&& br1.wf()
            &&& br2.wf()
            &&& br3.wf()
            &&& star.bus_i == star_i
            &&& star.bus_type == (if tr.stat != 0 {
                PQ
            } else {
                NONE
            })
            &&& star.vm == (match tr.vmstar {
                Some(v) => v,
                None => Rat { n: 1, d: 1 },
            })
            &&& star.va == (match tr.anstar {
                Some(v) => v,
                None => Rat { n: 0, d: 1 },
            })
            &&& star.pd == (Rat { n: 0, d: 1 }) && star.qd == (Rat { n: 0, d: 1 }) && star.gs == (
            Rat { n: 0, d: 1 }) && star.bs == (Rat { n: 0, d: 1 })
            &&& star.bus_area == bus1.bus_area && star.zone == bus1.zone && star.base_kv
                == bus1.base_kv && star.vmax == bus1.vmax && star.vmin == bus1.vmin
            &&& br1.f_bus == tr.i && br1.t_bus == star_i
            &&& br2.f_bus == tr.j && br2.t_bus == star_i
            &&& br3.f_bus == tr.k && br3.t_bus == star_i
            &&& q_eq(br1.br_r@, spec_star_leg(r12, r31, r23)) && q_eq(
                br1.br_x@,
                spec_star_leg(x12, x31, x23),
            )
            &&& q_eq(br2.br_r@, spec_star_leg(r12, r23, r31)) && q_eq(
                br2.br_x@,
                spec_star_leg(x12, x23, x31),
            )
            &&& q_eq(br3.br_r@, spec_star_leg(r31, r23, r12)) && q_eq(
                br3.br_x@,
                spec_star_leg(x31, x23, x12),
            )
            &&& q_eq(br1.tap@, spec_tap3(tr.cw as int, tr.windv1@, tr.nomv1@, fb1))
            &&& q_eq(br2.tap@, spec_tap3(tr.cw as int, tr.windv2@, tr.nomv2@, fb1))
            &&& q_eq(br3.tap@, spec_tap3(tr.cw as int, tr.windv3->0@, tr.nomv3->0@, fb1))
            &&& br1.shift == tr.ang1 && br2.shift == tr.ang2->0 && br3.shift == tr.ang3->0
            &&& br1.rate_a == tr.rata1 && br1.rate_b == tr.ratb1 && br1.rate_c == tr.ratc1
            &&& br2.rate_a == tr.rata2->0 && br2.rate_b == tr.ratb2->0 && br2.rate_c
                == tr.ratc2->0
            &&& br3.rate_a == tr.rata3->0 && br3.rate_b == tr.ratb3->0 && br3.rate_c
                == tr.ratc3->0
            &&& br1.br_status == (if tr.stat == 0 || tr.stat == 4 {
                0usize
            } else {
                1usize
            })
            &&& br2.br_status == (if tr.stat == 0 || tr.stat == 2 {
                0usize
            } else {
                1usize
            })
            &&& br3.br_status == (if tr.stat == 0 || tr.stat == 3 {
                0usize
            } else {
                1usize
            })
            &&& spec_tr3_ok(*tr, fb1, b2kv@, b3kv@, sbase@)
        })),
        (r matches Err(e) ==> (e matches CaseError::MissingField { field, .. } ==> !spec_tr3_ok(
            *tr,
            bus1.base_kv@,
            b2kv@,
            b3kv@,
            sbase@,
        ))),
        (tr.cw != 1 && tr.cw != 2) ==> r is Err,
        (spec_tr3_ok(*tr, bus1.base_kv@, b2kv@, b3kv@, sbase@) && r is Err) ==> r == Err::<
            (Bus, Branch, Branch, Branch),
            CaseError,
        >(CaseError::Overflow),
        (spec_tr3_ok(*tr, bus1.base_kv@, b2kv@, b3kv@, sbase@) && spec_tr3_reprable(
            *tr,
            bus1.base_kv@,
            b2kv@,
            b3kv@,
            sbase@,
        )) ==> r is Ok,
{
    let star = Bus {
        bus_i: star_i,
        bus_type: if tr.stat != 0 {
            PQ
        } else {
            NONE
        },
        pd: Rat::zero(),
        qd: Rat::zero(),
        gs: Rat::zero(),
        bs: Rat::zero(),
        bus_area: bus1.bus_area,
        vm: match &tr.vmstar {
            Some(v) => *v,
            None => Rat::one(),
        },
        va: match &tr.anstar {
            Some(v) => *v,
            None => Rat::zero(),
        },
        base_kv: bus1.base_kv,
        zone: bus1.zone,
        vmax: bus1.vmax,
        vmin: bus1.vmin,
        lam_p: None,
        lam_q: None,
        mu_vmax: None,
        mu_vmin: None,
    };
    let tap1 = match tap_three_winding(tr.cw, tr.windv1, tr.nomv1, bus1.base_kv, tr.i, tr.j, tr.k) {
        Ok(v) => v,
        Err(e) => {
            return Err(e);
        },
    };
    let z12 = match impedance_to_system(
        tr.cz,
        tr.r1_2,
        tr.x1_2,
        tr.sbase1_2,
        tr.nomv1,
        bus1.base_kv,
        sbase,
        tr.i,
        tr.j,
        tr.k,
    ) {
        Ok(v) => v,
        Err(e) => {
            return Err(e);
        },
    };
    let tap2 = match tap_three_winding(tr.cw, tr.windv2, tr.nomv2, bus1.base_kv, tr.i, tr.j, tr.k) {
        Ok(v) => v,
        Err(e) => {
            return Err(e);
        },
    };
    let r2_3 = match &tr.r2_3 {
        Some(v) => *v,
        None => {
            return Err(
                CaseError::MissingField {
                    field: FieldName::R23,
                    bus1: tr.i,
                    bus2: tr.j,
                    bus3: tr.k,
                },
            );
        },
    };
    let x2_3 = match &tr.x2_3 {
        Some(v) => *v,
        None => {
            return Err(
                CaseError::MissingField {
                    field: FieldName::X23,
                    bus1: tr.i,
                    bus2: tr.j,
                    bus3: tr.k,
                },
            );
        },
    };
    let sbase2_3 = match &tr.sbase2_3 {
        Some(v) => *v,
        None => {
            return Err(
                CaseError::MissingField {
                    field: FieldName::Sbase23,
                    bus1: tr.i,
                    bus2: tr.j,
                    bus3: tr.k,
                },
            );
        },
    };
    let z23 = match impedance_to_system(
        tr.cz,
        r2_3,
        x2_3,
        sbase2_3,
        tr.nomv2,
        b2kv,
        sbase,
        tr.i,
        tr.j,
        tr.k,
    ) {
        Ok(v) => v,
        Err(e) => {
            return Err(e);
        },
    };
    let windv3 = match &tr.windv3 {
        Some(v) => *v,
        None => {
            return Err(
                CaseError::MissingField {
                    field: FieldName::Windv3,
                    bus1: tr.i,
                    bus2: tr.j,
                    bus3: tr.k,
                },
            );
        },
    };
    let nomv3 = match &tr.nomv3 {
        Some(v) => *v,
        None => {
            return Err(
                CaseError::MissingField {
                    field: FieldName::Nomv3,
                    bus1: tr.i,
                    bus2: tr.j,
                    bus3: tr.k,
                },
            );
        },
    };
    let tap3 = match tap_three_winding(tr.cw, windv3, nomv3, bus1.base_kv, tr.i, tr.j, tr.k) {
        Ok(v) => v,
        Err(e) => {
            return Err(e);
        },
    };
    let sbase3_1 = match &tr.sbase3_1 {
        Some(v) => *v,
        None => {
            return Err(
                CaseError::MissingField {
                    field: FieldName::Sbase31,
                    bus1: tr.i,
                    bus2: tr.j,
                    bus3: tr.k,
                },
            );
        },
    };
    let r3_1 = match &tr.r3_1 {
        Some(v) => *v,
        None => {
            return Err(
                CaseError::MissingField {
                    field: FieldName::R31,
                    bus1: tr.i,
                    bus2: tr.j,
                    bus3: tr.k,
                },
            );
        },
    };
    let x3_1 = match &tr.x3_1 {
        Some(v) => *v,
        None => {
            return Err(
                CaseError::MissingField {
                    field: FieldName::X31,
                    bus1: tr.i,
                    bus2: tr.j,
                    bus3: tr.k,
                },
            );
        },
    };
    let z31 = match impedance_to_system(
        tr.cz,
        r3_1,
        x3_1,
        sbase3_1,
        nomv3,
        b3kv,
        sbase,
        tr.i,
        tr.j,
        tr.k,
    ) {
        Ok(v) => v,
        Err(e) => {
            return Err(e);
        },
    };
    let rlegs = match delta_to_star(z12.0, z23.0, z31.0) {
        Ok(v) => v,
        Err(e) => {
            proof {
                let fb1 = bus1.base_kv@;
                let r12 = spec_imp_r(
                    tr.cz as int,
                    tr.r1_2@,
                    tr.x1_2@,
                    tr.sbase1_2@,
                    tr.nomv1@,
                    fb1,
                    sbase@,
                );
                let r23 = spec_imp_r(
                    tr.cz as int,
                    tr.r2_3->0@,
                    tr.x2_3->0@,
                    tr.sbase2_3->0@,
                    tr.nomv2@,
                    b2kv@,
                    sbase@,
                );
                let r31 = spec_imp_r(
                    tr.cz as int,
                    tr.r3_1->0@,
                    tr.x3_1->0@,
                    tr.sbase3_1->0@,
                    tr.nomv3->0@,
                    b3kv@,
                    sbase@,
                );
                if spec_tr3_reprable(*tr, fb1, b2kv@, b3kv@, sbase@) {
                    lemma_leg_reprable_scaled(r12, z12.0@, r31, z31.0@, r23, z23.0@);
                    lemma_leg_reprable_scaled(r12, z12.0@, r23, z23.0@, r31, z31.0@);
                    lemma_leg_reprable_scaled(r31, z31.0@, r23, z23.0@, r12, z12.0@);
                    assert(false);
                }
            }
            return Err(e);
        },
    };
    let xlegs = match delta_to_star(z12.1, z23.1, z31.1) {
        Ok(v) => v,
        Err(e) => {
            proof {
                let fb1 = bus1.base_kv@;
                let x12 = spec_imp_x(
                    tr.cz as int,
                    tr.r1_2@,
                    tr.x1_2@,
                    tr.sbase1_2@,
                    tr.nomv1@,
                    fb1,
                    sbase@,
                );
                let x23 = spec_imp_x(
                    tr.cz as int,
                    tr.r2_3->0@,
                    tr.x2_3->0@,
                    tr.sbase2_3->0@,
                    tr.nomv2@,
                    b2kv@,
                    sbase@,
                );
                let x31 = spec_imp_x(
                    tr.cz as int,
                    tr.r3_1->0@,
                    tr.x3_1->0@,
                    tr.sbase3_1->0@,
                    tr.nomv3->0@,
                    b3kv@,
                    sbase@,
                );
                if spec_tr3_reprable(*tr, fb1, b2kv@, b3kv@, sbase@) {
                    lemma_leg_reprable_scaled(x12, z12.1@, x31, z31.1@, x23, z23.1@);
                    lemma_leg_reprable_scaled(x12, z12.1@, x23, z23.1@, x31, z31.1@);
                    lemma_leg_reprable_scaled(x31, z31.1@, x23, z23.1@, x12, z12.1@);
                    assert(false);
                }
            }
            return Err(e);
        },
    };
    let ang2 = match &tr.ang2 {
        Some(v) => *v,
        None => {
            return Err(
                CaseError::MissingField {
                    field: FieldName::Ang2,
                    bus1: tr.i,
                    bus2: tr.j,
                    bus3: tr.k,
                },
            );
        },
    };
    let ang3 = match &tr.ang3 {
        Some(v) => *v,
        None => {
            return Err(
                CaseError::MissingField {
                    field: FieldName::Ang3,
                    bus1: tr.i,
                    bus2: tr.j,
                    bus3: tr.k,
                },
            );
        },
    };
    let rata2 = match &tr.rata2 {
        Some(v) => *v,
        None => {
            return Err(
                CaseError::MissingField {
                    field: FieldName::Rata2,
                    bus1: tr.i,
                    bus2: tr.j,
                    bus3: tr.k,
                },
            );
        },
    };
    let ratb2 = match &tr.ratb2 {
        Some(v) => *v,
        None => {
            return Err(
                CaseError::MissingField {
                    field: FieldName::Ratb2,
                    bus1: tr.i,
                    bus2: tr.j,
                    bus3: tr.k,
                },
            );
        },
    };
    let ratc2 = match &tr.ratc2 {
        Some(v) => *v,
        None => {
            return Err(
                CaseError::MissingField {
                    field: FieldName::Ratc2,
                    bus1: tr.i,
                    bus2: tr.j,
                    bus3: tr.k,
                },
            );
        },
    };
    let rata3 = match &tr.rata3 {
        Some(v) => *v,
        None => {
            return Err(
                CaseError::MissingField {
                    field: FieldName::Rata3,
                    bus1: tr.i,
                    bus2: tr.j,
                    bus3: tr.k,
                },
            );
        },
    };
    let ratb3 = match &tr.ratb3 {
        Some(v) => *v,
        None => {
            return Err(
                CaseError::MissingField {
                    field: FieldName::Ratb3,
                    bus1: tr.i,
                    bus2: tr.j,
                    bus3: tr.k,
                },
            );
        },
    };
    let ratc3 = match &tr.ratc3 {
        Some(v) => *v,
        None => {
            return Err(
                CaseError::MissingField {
                    field: FieldName::Ratc3,
                    bus1: tr.i,
                    bus2: tr.j,
                    bus3: tr.k,
                },
            );
        },
    };
    let br1 = Branch {
        f_bus: tr.i,
        t_bus: star_i,
        br_r: rlegs.0,
        br_x: xlegs.0,
        br_b: Rat::zero(),
        rate_a: tr.rata1,
        rate_b: tr.ratb1,
        rate_c: tr.ratc1,
        tap: tap1,
        shift: tr.ang1,
        br_status: if tr.stat == 0 || tr.stat == 4 {
            0
        } else {
            1
        },
        angmin: None,
        angmax: None,
        pf: None,
        qf: None,
        pt: None,
        qt: None,
        mu_sf: None,
        mu_st: None,
        mu_angmin: None,
        mu_angmax: None,
    };
    let br2 = Branch {
        f_bus: tr.j,
        t_bus: star_i,
        br_r: rlegs.1,
        br_x: xlegs.1,
        br_b: Rat::zero(),
        rate_a: rata2,
        rate_b: ratb2,
        rate_c: ratc2,
        tap: tap2,
        shift: ang2,
        br_status: if tr.stat == 0 || tr.stat == 2 {
            0
        } else {
            1
        },
        angmin: None,
        angmax: None,
        pf: None,
        qf: None,
        pt: None,
        qt: None,
        mu_sf: None,
        mu_st: None,
        mu_angmin: None,
        mu_angmax: None,
    };
    let br3 = Branch {
        f_bus: tr.k,
        t_bus: star_i,
        br_r: rlegs.2,
        br_x: xlegs.2,
        br_b: Rat::zero(),
        rate_a: rata3,
        rate_b: ratb3,
        rate_c: ratc3,
        tap: tap3,
        shift: ang3,
        br_status: if tr.stat == 0 || tr.stat == 3 {
            0
        } else {
            1
        },
        angmin: None,
        angmax: None,
        pf: None,
        qf: None,
        pt: None,
        qt: None,
        mu_sf: None,
        mu_st: None,
        mu_angmin: None,
        mu_angmax: None,
    };
    proof {
        let fb1 = bus1.base_kv@;
        let r12 = spec_imp_r(
            tr.cz as int,
            tr.r1_2@,
            tr.x1_2@,
            tr.sbase1_2@,
            tr.nomv1@,
            fb1,
            sbase@,
        );
        let x12 = spec_imp_x(
            tr.cz as int,
            tr.r1_2@,
            tr.x1_2@,
            tr.sbase1_2@,
            tr.nomv1@,
            fb1,
            sbase@,
        );
        let r23 = spec_imp_r(
            tr.cz as int,
            tr.r2_3->0@,
            tr.x2_3->0@,
            tr.sbase2_3->0@,
            tr.nomv2@,
            b2kv@,
            sbase@,
        );
        let x23 = spec_imp_x(
            tr.cz as int,
            tr.r2_3->0@,
            tr.x2_3->0@,
            tr.sbase2_3->0@,
            tr.nomv2@,
            b2kv@,
            sbase@,
        );
        let r31 = spec_imp_r(
            tr.cz as int,
            tr.r3_1->0@,
            tr.x3_1->0@,
            tr.sbase3_1->0@,
            tr.nomv3->0@,
            b3kv@,
            sbase@,
        );
        let x31 = spec_imp_x(
            tr.cz as int,
            tr.r3_1->0@,
            tr.x3_1->0@,
            tr.sbase3_1->0@,
            tr.nomv3->0@,
            b3kv@,
            sbase@,
        );
        lemma_imp_spec_wf(tr.cz as int, tr.r1_2@, tr.x1_2@, tr.sbase1_2@, tr.nomv1@, fb1, sbase@);
        lemma_imp_spec_wf(
            tr.cz as int,
            tr.r2_3->0@,
            tr.x2_3->0@,
            tr.sbase2_3->0@,
            tr.nomv2@,
            b2kv@,
            sbase@,
        );
        lemma_imp_spec_wf(
            tr.cz as int,
            tr.r3_1->0@,
            tr.x3_1->0@,
            tr.sbase3_1->0@,
            tr.nomv3->0@,
            b3kv@,
            sbase@,
        );
        lemma_star_leg_congr(z12.0@, r12, z31.0@, r31, z23.0@, r23);
        lemma_q_eq_trans(
            rlegs.0@,
            spec_star_leg(z12.0@, z31.0@, z23.0@),
            spec_star_leg(r12, r31, r23),
        );
        lemma_star_leg_congr(z12.0@, r12, z23.0@, r23, z31.0@, r31);
        lemma_q_eq_trans(
            rlegs.1@,
            spec_star_leg(z12.0@, z23.0@, z31.0@),
            spec_star_leg(r12, r23, r31),
        );
        lemma_star_leg_congr(z31.0@, r31, z23.0@, r23, z12.0@, r12);
        lemma_q_eq_trans(
            rlegs.2@,
            spec_star_leg(z31.0@, z23.0@, z12.0@),
            spec_star_leg(r31, r23, r12),
        );
        lemma_star_leg_congr(z12.1@, x12, z31.1@, x31, z23.1@, x23);
        lemma_q_eq_trans(
            xlegs.0@,
            spec_star_leg(z12.1@, z31.1@, z23.1@),
            spec_star_leg(x12, x31, x23),
        );
        lemma_star_leg_congr(z12.1@, x12, z23.1@, x23, z31.1@, x31);
        lemma_q_eq_trans(
            xlegs.1@,
            spec_star_leg(z12.1@, z23.1@, z31.1@),
            spec_star_leg(x12, x23, x31),
        );
        lemma_star_leg_congr(z31.1@, x31, z23.1@, x23, z12.1@, x12);
        lemma_q_eq_trans(
            xlegs.2@,
            spec_star_leg(z31.1@, z23.1@, z12.1@),
            spec_star_leg(x31, x23, x12),
        );
    }
    Ok((star, br1, br2, br3))
}


/// The number of two-winding records among the first `k` transformers.
pub open spec fn count2(trs: Seq<RawTransformer>, k: int) -> int
    decreases k,
{
    if k <= 0 {
        0
    } else {
        count2(trs, k - 1) + if trs[k - 1].k == 0 {
            1int
        } else {
            0int
        }
    }
}

/// The number of three-winding records among the first `k` transformers.
pub open spec fn count3(trs: Seq<RawTransformer>, k: int) -> int
    decreases k,
{
    if k <= 0 {
        0
    } else {
        count3(trs, k - 1) + if trs[k - 1].k != 0 {
            1int
        } else {
            0int
        }
    }
}

/// Counts of record subsets never exceed the record count.
proof fn lemma_counts_bounded(trs: Seq<RawTransformer>, k: int)
    requires
        0 <= k <= trs.len(),
    ensures
        0 <= count2(trs, k) <= k,
        0 <= count3(trs, k) <= k,
    decreases k,
{
    if k > 0 {
        lemma_counts_bounded(trs, k - 1);
    }
}

/// Appending a bus number keeps every present number present, and makes the
/// appended number present.
pub proof fn lemma_pos_of_push(ids: Seq<int>, x: int, i: int)
    ensures
        pos_of(ids.push(x), i) == (if x == i {
            Some(ids.len() as int)
        } else {
            pos_of(ids, i)
        }),
{
    assert(ids.push(x).drop_last() =~= ids);
    assert(ids.push(x).last() == x);
}

/// Both endpoints of a branch are present in a set of bus numbers.
pub open spec fn endpoints_ok(b: Branch, ids: Seq<int>) -> bool {
    pos_of(ids, b.f_bus as int) is Some && pos_of(ids, b.t_bus as int) is Some
}

/// Both endpoints of a DC line are present in a set of bus numbers.
pub open spec fn dc_endpoints_ok(l: DCLine, ids: Seq<int>) -> bool {
    pos_of(ids, l.f_bus as int) is Some && pos_of(ids, l.t_bus as int) is Some
}

/// What a converted generator record holds: outputs, limits, setpoint and
/// machine base carry over; the status flag is normalized to zero or one.
pub open spec fn spec_gen(g: RawGenerator) -> Gen {
    Gen {
        gen_bus: g.i,
        pg: g.pg,
        qg: g.qg,
        qmax: Some(g.qt),
        qmin: Some(g.qb),
        vg: g.vs,
        mbase: g.mbase,
        gen_status: if g.stat != 0 {
            1usize
        } else {
            0usize
        },
        pmax: Some(g.pt),
        pmin: Some(g.pb),
        pc1: None,
        pc2: None,
        qc1min: None,
        qc1max: None,
        qc2min: None,
        qc2max: None,
        ramp_agc: None,
        ramp_10: None,
        ramp_30: None,
        ramp_q: None,
        apf: None,
        mu_pmax: None,
        mu_pmin: None,
        mu_qmax: None,
        mu_qmin: None,
    }
}

/// What a converted transmission-line record holds: impedance, charging and
/// ratings carry over unchanged (they are on the system base by the format's
/// convention); a zero tap marks the branch as a plain line.
pub open spec fn spec_line(br: RawBranch) -> Branch {
    Branch {
        f_bus: br.i,
        t_bus: br.spec_j_bus() as usize,
        br_r: br.r,
        br_x: br.x,
        br_b: br.b,
        rate_a: br.rate_a,
        rate_b: br.rate_b,
        rate_c: br.rate_c,
        tap: Rat { n: 0, d: 1 },
        shift: Rat { n: 0, d: 1 },
        br_status: if br.st != 0 {
            1usize
        } else {
            0usize
        },
        angmin: None,
        angmax: None,
        pf: None,
        qf: None,
        pt: None,
        qt: None,
        mu_sf: None,
        mu_st: None,
        mu_angmin: None,
        mu_angmax: None,
    }
}

/// What a finished bus in position `p` holds: the raw bus's own type,
/// classifiers, operating point and voltage limits, with demand and shunt
/// accumulated from every in-service record that references it.
pub open spec fn spec_bus_done(b: Bus, net: RawNetwork, p: int, sb: Q) -> bool {
    let rb = net.buses@[p];
    let ids = raw_ids(net.buses@);
    let n_l = net.loads@.len() as int;
    let n_f = net.fixed_shunts@.len() as int;
    let n_s = net.switched_shunts@.len() as int;
    let n_b = net.branches@.len() as int;
    &&& b.wf()
    &&& b.bus_i == rb.i
    &&& b.bus_type == rb.ide
    &&& b.bus_area == rb.area
    &&& b.zone == rb.zone
    &&& b.vm == rb.vm
    &&& b.va == rb.va
    &&& b.base_kv == rb.basekv
    &&& b.vmax == Some(rb.nvhi)
    &&& b.vmin == Some(rb.nvlo)
    &&& b.lam_p is None && b.lam_q is None && b.mu_vmax is None && b.mu_vmin is None
    &&& q_eq(b.pd@, acc_pd(net.loads@, ids, p, rb.vm@, q_int(0), n_l))
    &&& q_eq(b.qd@, acc_qd(net.loads@, ids, p, rb.vm@, q_int(0), n_l))
    &&& q_eq(
        b.gs@,
        acc_gs_branch(
            net.branches@,
            ids,
            p,
            sb,
            acc_gs_fixed(net.fixed_shunts@, ids, p, q_int(0), n_f),
            n_b,
        ),
    )
    &&& q_eq(
        b.bs@,
        acc_bs_branch(
            net.branches@,
            ids,
            p,
            sb,
            acc_bs_switched(
                net.switched_shunts@,
                ids,
                p,
                acc_bs_fixed(net.fixed_shunts@, ids, p, q_int(0), n_f),
                n_s,
            ),
            n_b,
        ),
    )
}

/// Whether a whole raw network is free of dangling references, unsupported
/// codes, missing fields, zero base quantities and negative radicands: on
/// such a network the conversion is owed a success, short of running out of
/// the 64-bit representable range.
pub open spec fn net_clean(net: RawNetwork) -> bool {
    let ids = raw_ids(net.buses@);
    let sbase = net.caseid.sbase@;
    &&& (forall|k: int|
        0 <= k < net.loads@.len() && (#[trigger] net.loads@[k]).status != 0 ==> pos_of(
            ids,
            net.loads@[k].i as int,
        ) is Some)
    &&& (forall|k: int|
        0 <= k < net.fixed_shunts@.len() && (#[trigger] net.fixed_shunts@[k]).status != 0
            ==> pos_of(ids, net.fixed_shunts@[k].i as int) is Some)
    &&& (forall|k: int|
        0 <= k < net.switched_shunts@.len() && (#[trigger] net.switched_shunts@[k]).stat != 0
            ==> pos_of(ids, net.switched_shunts@[k].i as int) is Some)
    &&& (forall|k: int|
        0 <= k < net.generators@.len() ==> pos_of(
            ids,
            (#[trigger] net.generators@[k]).i as int,
        ) is Some)
    &&& (forall|k: int|
        0 <= k < net.branches@.len() ==> pos_of(ids, (#[trigger] net.branches@[k]).i as int)
            is Some && pos_of(ids, net.branches@[k].spec_j_bus()) is Some)
    &&& (forall|k: int|
        0 <= k < net.two_terminal_dc@.len() ==> pos_of(
            ids,
            (#[trigger] net.two_terminal_dc@[k]).ipr as int,
        ) is Some && pos_of(ids, net.two_terminal_dc@[k].ipi as int) is Some)
    &&& (forall|k: int|
        0 <= k < net.transformers@.len() ==> tr_clean(#[trigger] net.transformers@[k], net))
}

/// Whether one transformer record is convertible (short of overflow).
pub open spec fn tr_clean(t: RawTransformer, net: RawNetwork) -> bool {
    let ids = raw_ids(net.buses@);
    let sbase = net.caseid.sbase@;
    &&& pos_of(ids, t.i as int) is Some
    &&& pos_of(ids, t.j as int) is Some
    &&& {
        let fb1 = net.buses@[pos_of(ids, t.i as int)->0].basekv@;
        if t.k == 0 {
            let fb2 = net.buses@[pos_of(ids, t.j as int)->0].basekv@;
            &&& spec_tap2_ok(t.cw as int, t.windv2@, t.nomv2@, fb1)
            &&& spec_imp_ok(t.cz as int, t.r1_2@, t.x1_2@, t.sbase1_2@, fb1, sbase)
        } else {
            &&& pos_of(ids, t.k as int) is Some
            &&& {
                let fb2 = net.buses@[pos_of(ids, t.j as int)->0].basekv@;
                let fb3 = net.buses@[pos_of(ids, t.k as int)->0].basekv@;
                spec_tr3_ok(t, fb1, fb2, fb3, sbase)
            }
        }
    }
}


/// The largest bus number among the first `k` raw buses (zero when there are
/// none).
pub open spec fn max_raw_id(s: Seq<RawBus>, k: int) -> int
    decreases k,
{
    if k <= 0 {
        0
    } else {
        let m = max_raw_id(s, k - 1);
        if s[k - 1].i as int > m {
            s[k - 1].i as int
        } else {
            m
        }
    }
}

/// A number present among a prefix is present in the whole.
pub proof fn lemma_pos_of_take_some(ids: Seq<int>, i: int, n: int)
    requires
        0 <= n <= ids.len(),
        pos_of(ids.take(n), i) is Some,
    ensures
        pos_of(ids, i) is Some,
    decreases ids.len(),
{
    if n < ids.len() {
        if ids.last() != i {
            assert(ids.drop_last().take(n) =~= ids.take(n));
            lemma_pos_of_take_some(ids.drop_last(), i, n);
        }
    } else {
        assert(ids.take(n) =~= ids);
    }
}

/// The two-winding records among the first `k` transformers, in order.
pub open spec fn tr2_seq(trs: Seq<RawTransformer>, k: int) -> Seq<RawTransformer>
    decreases k,
{
    if k <= 0 {
        Seq::empty()
    } else {
        let rest = tr2_seq(trs, k - 1);
        if trs[k - 1].k == 0 {
            rest.push(trs[k - 1])
        } else {
            rest
        }
    }
}

/// The three-winding records among the first `k` transformers, in order.
pub open spec fn tr3_seq(trs: Seq<RawTransformer>, k: int) -> Seq<RawTransformer>
    decreases k,
{
    if k <= 0 {
        Seq::empty()
    } else {
        let rest = tr3_seq(trs, k - 1);
        if trs[k - 1].k != 0 {
            rest.push(trs[k - 1])
        } else {
            rest
        }
    }
}

/// The filtered record sequences have the counted lengths.
proof fn lemma_tr_seq_len(trs: Seq<RawTransformer>, k: int)
    requires
        0 <= k <= trs.len(),
    ensures
        tr2_seq(trs, k).len() == count2(trs, k),
        tr3_seq(trs, k).len() == count3(trs, k),
    decreases k,
{
    if k > 0 {
        lemma_tr_seq_len(trs, k - 1);
    }
}

/// What the branch converted from a two-winding record holds: endpoints,
/// tap and impedance per the record's codes against the looked-up bus base
/// voltages, ratings, shift and status through.
pub open spec fn tr2_branch_ok(b: Branch, t: RawTransformer, raws: Seq<RawBus>, sbase: Q) -> bool {
    let ids = raw_ids(raws);
    let pi = pos_of(ids, t.i as int);
    let pj = pos_of(ids, t.j as int);
    &&& pi is Some
    &&& pj is Some
    &&& {
        let fb = raws[pi->0].basekv@;
        let tb = raws[pj->0].basekv@;
        &&& b.wf()
        &&& b.f_bus == t.i
        &&& b.t_bus == t.j
        &&& q_eq(b.tap@, spec_tap2(t.cw as int, t.windv1@, t.windv2@, t.nomv1@, t.nomv2@, fb, tb))
        &&& q_eq(
            b.br_r@,
            spec_imp_r(t.cz as int, t.r1_2@, t.x1_2@, t.sbase1_2@, t.nomv1@, fb, sbase),
        )
        &&& q_eq(
            b.br_x@,
            spec_imp_x(t.cz as int, t.r1_2@, t.x1_2@, t.sbase1_2@, t.nomv1@, fb, sbase),
        )
        &&& b.br_b == (Rat { n: 0, d: 1 })
        &&& b.rate_a == t.rata1
        &&& b.rate_b == t.ratb1
        &&& b.rate_c == t.ratc1
        &&& b.shift == t.ang1
        &&& b.br_status == (if t.stat != 0 {
            1usize
        } else {
            0usize
        })
    }
}

/// What the star bus and the three leg branches split from a three-winding
/// record hold: the star bus's operating point, classifiers copied from the
/// first winding's bus and type from the composite status; each leg's
/// delta-to-star impedance share, tap, shift, ratings and decoded status.
pub open spec fn tr3_result_ok(
    star: Bus,
    br1: Branch,
    br2: Branch,
    br3: Branch,
    t: RawTransformer,
    raws: Seq<RawBus>,
    sbase: Q,
) -> bool {
    let ids = raw_ids(raws);
    let p1 = pos_of(ids, t.i as int);
    let p2 = pos_of(ids, t.j as int);
    let p3 = pos_of(ids, t.k as int);
    &&& p1 is Some
    &&& p2 is Some
    &&& p3 is Some
    &&& {
        let rb1 = raws[p1->0];
        let fb1 = rb1.basekv@;
        let b2kv = raws[p2->0].basekv@;
        let b3kv = raws[p3->0].basekv@;
        let r12 = spec_imp_r(t.cz as int, t.r1_2@, t.x1_2@, t.sbase1_2@, t.nomv1@, fb1, sbase);
        let x12 = spec_imp_x(t.cz as int, t.r1_2@, t.x1_2@, t.sbase1_2@, t.nomv1@, fb1, sbase);
        let r23 = spec_imp_r(
            t.cz as int,
            t.r2_3->0@,
            t.x2_3->0@,
            t.sbase2_3->0@,
            t.nomv2@,
            b2kv,
            sbase,
        );
        let x23 = spec_imp_x(
            t.cz as int,
            t.r2_3->0@,
            t.x2_3->0@,
            t.sbase2_3->0@,
            t.nomv2@,
            b2kv,
            sbase,
        );
        let r31 = spec_imp_r(
            t.cz as int,
            t.r3_1->0@,
            t.x3_1->0@,
            t.sbase3_1->0@,
            t.nomv3->0@,
            b3kv,
            sbase,
        );
        let x31 = spec_imp_x(
            t.cz as int,
            t.r3_1->0@,
            t.x3_1->0@,
            t.sbase3_1->0@,
            t.nomv3->0@,
            b3kv,
            sbase,
        );
        &&& star.wf() && br1.wf() && br2.wf() && br3.wf()
        &&& spec_tr3_ok(t, fb1, b2kv, b3kv, sbase)
        &&& star.bus_type == (if t.stat != 0 {
            PQ
        } else {
            NONE
        })
        &&& star.vm == (match t.vmstar {
            Some(v) => v,
            None => Rat { n: 1, d: 1 },
        })
        &&& star.va == (match t.anstar {
            Some(v) => v,
            None => Rat { n: 0, d: 1 },
        })
        &&& star.pd == (Rat { n: 0, d: 1 }) && star.qd == (Rat { n: 0, d: 1 }) && star.gs == (Rat {
            n: 0,
            d: 1,
        }) && star.bs == (Rat { n: 0, d: 1 })
        &&& star.bus_area == rb1.area && star.zone == rb1.zone && star.base_kv == rb1.basekv
        &&& star.vmax == Some(rb1.nvhi) && star.vmin == Some(rb1.nvlo)
        &&& br1.f_bus == t.i && br1.t_bus == star.bus_i
        &&& br2.f_bus == t.j && br2.t_bus == star.bus_i
        &&& br3.f_bus == t.k && br3.t_bus == star.bus_i
        &&& q_eq(br1.br_r@, spec_star_leg(r12, r31, r23)) && q_eq(
            br1.br_x@,
            spec_star_leg(x12, x31, x23),
        )
        &&& q_eq(br2.br_r@, spec_star_leg(r12, r23, r31)) && q_eq(
            br2.br_x@,
            spec_star_leg(x12, x23, x31),
        )
        &&& q_eq(br3.br_r@, spec_star_leg(r31, r23, r12)) && q_eq(
            br3.br_x@,
            spec_star_leg(x31, x23, x12),
        )
        &&& q_eq(br1.tap@, spec_tap3(t.cw as int, t.windv1@, t.nomv1@, fb1))
        &&& q_eq(br2.tap@, spec_tap3(t.cw as int, t.windv2@, t.nomv2@, fb1))
        &&& q_eq(br3.tap@, spec_tap3(t.cw as int, t.windv3->0@, t.nomv3->0@, fb1))
        &&& br1.shift == t.ang1 && br2.shift == t.ang2->0 && br3.shift == t.ang3->0
        &&& br1.rate_a == t.rata1 && br1.rate_b == t.ratb1 && br1.rate_c == t.ratc1
        &&& br2.rate_a == t.rata2->0 && br2.rate_b == t.ratb2->0 && br2.rate_c == t.ratc2->0
        &&& br3.rate_a == t.rata3->0 && br3.rate_b == t.ratb3->0 && br3.rate_c == t.ratc3->0
        &&& br1.br_status == (if t.stat == 0 || t.stat == 4 {
            0usize
        } else {
            1usize
        })
        &&& br2.br_status == (if t.stat == 0 || t.stat == 2 {
            0usize
        } else {
            1usize
        })
        &&& br3.br_status == (if t.stat == 0 || t.stat == 3 {
            0usize
        } else {
            1usize
        })
    }
}

/// What a converted DC line holds: endpoints and blocked/unblocked status
/// from the control mode, the mode-derived flow at both ends with the
/// documented 0.85/1.15 flow limits, voltage setpoints from the terminal
/// buses, and the reactive bounds from the record's tangent factors.
pub open spec fn dc_line_ok(l: DCLine, d: RawTwoTerminalDC, out_buses: Seq<Bus>) -> bool {
    let ids = bus_ids(out_buses);
    let pr = pos_of(ids, d.ipr as int);
    let pi = pos_of(ids, d.ipi as int);
    let p = spec_dc_power(d.mdc as int, d.setvl@, d.vschd@);
    &&& pr is Some
    &&& pi is Some
    &&& l.wf()
    &&& l.f_bus == d.ipr
    &&& l.t_bus == d.ipi
    &&& l.br_status == (if d.mdc == 0 {
        0usize
    } else {
        1usize
    })
    &&& q_eq(l.pf@, p)
    &&& q_eq(l.pt@, p)
    &&& l.qf == (Rat { n: 0, d: 1 }) && l.qt == (Rat { n: 0, d: 1 })
    &&& l.vf == out_buses[pr->0].vm
    &&& l.vt == out_buses[pi->0].vm
    &&& (l.pmin matches Some(v) && q_eq(v@, q_mul(p, Q { n: 17, d: 20 })))
    &&& (l.pmax matches Some(v) && q_eq(v@, q_mul(p, Q { n: 23, d: 20 })))
    &&& (l.qminf matches Some(v) && q_eq(v@, q_abs(q_mul(p, d.tan_alpha_min@))))
    &&& (l.qmaxf matches Some(v) && q_eq(v@, q_abs(q_mul(p, d.tan_phi_rec@))))
    &&& (l.qmint matches Some(v) && q_eq(v@, q_abs(q_mul(p, d.tan_gamma_min@))))
    &&& (l.qmaxt matches Some(v) && q_eq(v@, q_abs(q_mul(p, d.tan_phi_inv@))))
    &&& l.loss0 == (Rat { n: 0, d: 1 }) && l.loss1 == (Rat { n: 0, d: 1 })
}

/// The power of ten above `m` grows at most linearly.
proof fn lemma_pow10_above_linear(m: nat)
    ensures
        m == 0 ==> spec_pow10_above(m) == 1,
        m >= 1 ==> spec_pow10_above(m) <= 10 * m,
    decreases m,
{
    if m >= 1 {
        lemma_pow10_above_linear(m / 10);
        if m / 10 == 0 {
        } else {
            assert(10 * spec_pow10_above(m / 10) <= 10 * (10 * (m / 10))) by (nonlinear_arith)
                requires
                    spec_pow10_above(m / 10) <= 10 * (m / 10),
            ;
            assert(10 * (10 * (m / 10)) <= 10 * m) by (nonlinear_arith)
                requires
                    m >= 10,
                    m / 10 == m as int / 10,
            ;
        }
    }
}

/// The exact values one DC-line conversion passes through, each
/// representable.
pub open spec fn dc_reprable(d: RawTwoTerminalDC) -> bool {
    let p = spec_dc_power(d.mdc as int, d.setvl@, d.vschd@);
    &&& q_in_range(q_mul(q_abs(d.setvl@), d.vschd@))
    &&& q_in_range(p)
    &&& q_in_range(q_mul(p, d.tan_alpha_min@))
    &&& q_in_range(q_mul(p, d.tan_phi_rec@))
    &&& q_in_range(q_mul(p, d.tan_gamma_min@))
    &&& q_in_range(q_mul(p, d.tan_phi_inv@))
    &&& q_in_range(q_mul(p, Q { n: 17, d: 20 }))
    &&& q_in_range(q_mul(p, Q { n: 23, d: 20 }))
}

/// The exact values one transformer conversion passes through, each
/// representable.
pub open spec fn tr_reprable(t: RawTransformer, net: RawNetwork) -> bool {
    let ids = raw_ids(net.buses@);
    let sbase = net.caseid.sbase@;
    &&& pos_of(ids, t.i as int) is Some
    &&& pos_of(ids, t.j as int) is Some
    &&& {
        let fb1 = net.buses@[pos_of(ids, t.i as int)->0].basekv@;
        let fb2 = net.buses@[pos_of(ids, t.j as int)->0].basekv@;
        if t.k == 0 {
            &&& spec_tap2_reprable(
                t.cw as int,
                t.windv1@,
                t.windv2@,
                t.nomv1@,
                t.nomv2@,
                fb1,
                fb2,
            )
            &&& spec_imp_reprable(t.cz as int, t.r1_2@, t.x1_2@, t.sbase1_2@, t.nomv1@, fb1, sbase)
        } else {
            &&& pos_of(ids, t.k as int) is Some
            &&& {
                let fb3 = net.buses@[pos_of(ids, t.k as int)->0].basekv@;
                spec_tr3_reprable(t, fb1, fb2, fb3, sbase)
            }
        }
    }
}

/// A network on which the conversion is owed a success: nothing accumulates
/// onto the buses, every record conversion stays representable, and the bus
/// numbers leave headroom for star identifiers.
pub open spec fn net_arith_owed(net: RawNetwork) -> bool {
    &&& net.loads@.len() == 0
    &&& net.fixed_shunts@.len() == 0
    &&& net.switched_shunts@.len() == 0
    &&& net.branches@.len() == 0
    &&& max_raw_id(net.buses@, net.buses@.len() as int) < 100000
    &&& net.transformers@.len() < 100000
    &&& (forall|k: int|
        0 <= k < net.transformers@.len() ==> tr_reprable(#[trigger] net.transformers@[k], net))
    &&& (forall|k: int|
        0 <= k < net.two_terminal_dc@.len() ==> dc_reprable(#[trigger] net.two_terminal_dc@[k]))
}

/// The mode-derived DC flow is a well-formed rational.
proof fn lemma_dc_power_wf(mdc: int, setvl: Q, vschd: Q)
    requires
        q_wf(setvl),
        q_wf(vschd),
    ensures
        q_wf(spec_dc_power(mdc, setvl, vschd)),
{
    assert(q_wf(q_abs(setvl)));
    if mdc == 2 {
        assert(q_wf(q_div(q_mul(q_abs(setvl), vschd), q_int(1000))));
    }
}

/// Convert a raw network into a normalized case: buses first, each with its
/// accumulated demand and shunt; then generators; then branches from lines,
/// two-winding transformers and split three-winding transformers (whose star
/// buses take the first collision-free power-of-ten identifiers); then DC
/// lines. The conversion succeeds or fails as a whole.
///
/// On success every output bus in a raw position satisfies
/// [`spec_bus_done`], every generator is [`spec_gen`] of its record, every
/// line branch is [`spec_line`] of its record, all branch and DC-line
/// endpoints exist in the output bus set, and — when the raw bus numbers are
/// pairwise distinct — so are the output bus numbers. On a clean network
/// (see [`net_clean`]) only running out of the representable range can make
/// it fail.
#[verifier::loop_isolation(false)]
#[verifier::rlimit(100)]
pub fn raw_to_case(net: &RawNetwork) -> (r: Result<
    (Case, Vec<Bus>, Vec<Gen>, Vec<Branch>, Vec<DCLine>),
    CaseError,
>)
    requires
        net.wf(),
    ensures
        (r matches Ok(out) ==> ({
            let ids = raw_ids(net.buses@);
            let nb = net.buses@.len() as int;
            let ntr = net.transformers@.len() as int;
            let n3 = count3(net.transformers@, ntr);
            let out_ids = bus_ids(out.1@);
            &&& out.0.wf()
            &&& out.0.name@ == Seq::<char>::empty()
            &&& out.0.base_mva == net.caseid.sbase
            &&& out.0.f == net.caseid.basfrq
            &&& out.1@.len() == nb + n3
            &&& (forall|p: int|
                0 <= p < nb ==> spec_bus_done(#[trigger] out.1@[p], *net, p, net.caseid.sbase@))
            &&& (forall|j: int|
                0 <= j < n3 ==> (#[trigger] out.1@[nb + j]).bus_i as int == spec_pow10_above(
                    max_raw_id(net.buses@, nb) as nat,
                ) + j)
            &&& out.2@.len() == net.generators@.len()
            &&& (forall|k: int|
                0 <= k < net.generators@.len() ==> #[trigger] out.2@[k] == spec_gen(
                    net.generators@[k],
                ))
            &&& out.3@.len() == net.branches@.len() + count2(net.transformers@, ntr) + 3 * n3
            &&& (forall|k: int|
                0 <= k < net.branches@.len() ==> #[trigger] out.3@[k] == spec_line(
                    net.branches@[k],
                ))
            &&& (forall|k: int|
                0 <= k < out.3@.len() ==> endpoints_ok(#[trigger] out.3@[k], out_ids))
            &&& out.4@.len() == net.two_terminal_dc@.len()
            &&& (forall|k: int|
                0 <= k < out.4@.len() ==> dc_endpoints_ok(#[trigger] out.4@[k], out_ids))
            &&& ((forall|m: int, n: int| 0 <= m < n < nb ==> ids[m] != ids[n]) ==> (forall|
                m: int,
                n: int,
            |
                0 <= m < n < out_ids.len() ==> out_ids[m] != out_ids[n]))
            &&& out.0.version@ == seq!['2']
            &&& (forall|j: int|
                0 <= j < count2(net.transformers@, ntr) ==> tr2_branch_ok(
                    #[trigger] out.3@[net.branches@.len() + j],
                    tr2_seq(net.transformers@, ntr)[j],
                    net.buses@,
                    net.caseid.sbase@,
                ))
            &&& (forall|j: int|
                0 <= j < n3 ==> tr3_result_ok(
                    #[trigger] out.1@[nb + j],
                    out.3@[net.branches@.len() + count2(net.transformers@, ntr) + 3 * j],
                    out.3@[net.branches@.len() + count2(net.transformers@, ntr) + 3 * j + 1],
                    out.3@[net.branches@.len() + count2(net.transformers@, ntr) + 3 * j + 2],
                    tr3_seq(net.transformers@, ntr)[j],
                    net.buses@,
                    net.caseid.sbase@,
                ))
            &&& (forall|k: int|
                0 <= k < net.two_terminal_dc@.len() ==> dc_line_ok(
                    #[trigger] out.4@[k],
                    net.two_terminal_dc@[k],
                    out.1@,
                ))
            &&& (forall|k: int|
                0 <= k < ntr ==> ((#[trigger] net.transformers@[k]).cw == 1
                    || net.transformers@[k].cw == 2) && (net.transformers@[k].cz == 1
                    || net.transformers@[k].cz == 2 || net.transformers@[k].cz == 3))
            &&& (forall|k: int|
                0 <= k < net.loads@.len() && (#[trigger] net.loads@[k]).status != 0 ==> pos_of(
                    ids,
                    net.loads@[k].i as int,
                ) is Some)
            &&& (forall|k: int|
                0 <= k < net.fixed_shunts@.len() && (#[trigger] net.fixed_shunts@[k]).status != 0
                    ==> pos_of(ids, net.fixed_shunts@[k].i as int) is Some)
            &&& (forall|k: int|
                0 <= k < net.switched_shunts@.len() && (#[trigger] net.switched_shunts@[k]).stat
                    != 0 ==> pos_of(ids, net.switched_shunts@[k].i as int) is Some)
            &&& (forall|k: int|
                0 <= k < net.generators@.len() ==> pos_of(
                    ids,
                    (#[trigger] net.generators@[k]).i as int,
                ) is Some)
        })),
        (net.loads@.len() == 0 && net.fixed_shunts@.len() == 0 && net.switched_shunts@.len() == 0
            && net.generators@.len() == 0 && net.branches@.len() == 0 && net.transformers@.len()
            == 0 && net.two_terminal_dc@.len() == 0 && max_raw_id(
            net.buses@,
            net.buses@.len() as int,
        ) < 100000) ==> r is Ok,
        (net_clean(*net) && r is Err) ==> r == Err::<
            (Case, Vec<Bus>, Vec<Gen>, Vec<Branch>, Vec<DCLine>),
            CaseError,
        >(CaseError::Overflow),
{
    let ghost ids = raw_ids(net.buses@);
    let ghost sbq = net.caseid.sbase@;
    let sbase = net.caseid.sbase;
    let case = Case {
        name: String::new(),
        version: String::from_str("2"),
        base_mva: sbase,
        f: net.caseid.basfrq,
    };
    let nb = net.buses.len();
    let mut k: usize = 0;
    while k < net.loads.len()
        invariant
            k <= net.loads@.len(),
            forall|j: int|
                0 <= j < k && (#[trigger] net.loads@[j]).status != 0 ==> pos_of(
                    ids,
                    net.loads@[j].i as int,
                ) is Some,
        decreases net.loads@.len() - k,
    {
        let l = &net.loads[k];
        if l.status != 0 {
            match find_raw_bus(&net.buses, l.i) {
                Some(_) => {},
                None => {
                    return Err(CaseError::DanglingReference { kind: RecordKind::Load, bus: l.i });
                },
            }
        }
        k = k + 1;
    }
    let mut k: usize = 0;
    while k < net.fixed_shunts.len()
        invariant
            k <= net.fixed_shunts@.len(),
            forall|j: int|
                0 <= j < k && (#[trigger] net.fixed_shunts@[j]).status != 0 ==> pos_of(
                    ids,
                    net.fixed_shunts@[j].i as int,
                ) is Some,
        decreases net.fixed_shunts@.len() - k,
    {
        let s = &net.fixed_shunts[k];
        if s.status != 0 {
            match find_raw_bus(&net.buses, s.i) {
                Some(_) => {},
                None => {
                    return Err(
                        CaseError::DanglingReference { kind: RecordKind::FixedShunt, bus: s.i },
                    );
                },
            }
        }
        k = k + 1;
    }
    let mut k: usize = 0;
    while k < net.switched_shunts.len()
        invariant
            k <= net.switched_shunts@.len(),
            forall|j: int|
                0 <= j < k && (#[trigger] net.switched_shunts@[j]).stat != 0 ==> pos_of(
                    ids,
                    net.switched_shunts@[j].i as int,
                ) is Some,
        decreases net.switched_shunts@.len() - k,
    {
        let s = &net.switched_shunts[k];
        if s.stat != 0 {
            match find_raw_bus(&net.buses, s.i) {
                Some(_) => {},
                None => {
                    return Err(
                        CaseError::DanglingReference { kind: RecordKind::SwitchedShunt, bus: s.i },
                    );
                },
            }
        }
        k = k + 1;
    }
    let mut buses: Vec<Bus> = Vec::new();
    let mut p: usize = 0;
    while p < nb
        invariant
            p <= nb,
            buses@.len() == p as int,
            forall|j: int| 0 <= j < p ==> spec_bus_done(#[trigger] buses@[j], *net, j, sbq),
        decreases nb - p,
    {
        let rb = &net.buses[p];
        let b0 = seeded_bus(rb);
        let last = match find_raw_bus(&net.buses, rb.i) {
            Some(pp) => pp == p,
            None => false,
        };
        let b = match accumulate_bus(b0, p, last, net, sbase, Ghost(ids)) {
            Ok(v) => v,
            Err(e) => {
                proof {
                    assert(!(net.loads@.len() == 0 && net.fixed_shunts@.len() == 0
                        && net.switched_shunts@.len() == 0 && net.branches@.len() == 0));
                }
                return Err(e);
            },
        };
        buses.push(b);
        p = p + 1;
    }
    proof {
        assert(bus_ids(buses@) =~= ids);
    }
    let mut gens: Vec<Gen> = Vec::new();
    let mut k: usize = 0;
    while k < net.generators.len()
        invariant
            k <= net.generators@.len(),
            gens@.len() == k as int,
            forall|j: int| 0 <= j < k ==> #[trigger] gens@[j] == spec_gen(net.generators@[j]),
            forall|j: int|
                0 <= j < k ==> pos_of(ids, (#[trigger] net.generators@[j]).i as int) is Some,
        decreases net.generators@.len() - k,
    {
        let g = &net.generators[k];
        match find_raw_bus(&net.buses, g.i) {
            Some(_) => {},
            None => {
                return Err(CaseError::DanglingReference { kind: RecordKind::Generator, bus: g.i });
            },
        }
        gens.push(
            Gen {
                gen_bus: g.i,
                pg: g.pg,
                qg: g.qg,
                qmax: Some(g.qt),
                qmin: Some(g.qb),
                vg: g.vs,
                mbase: g.mbase,
                gen_status: if g.stat != 0 {
                    1
                } else {
                    0
                },
                pmax: Some(g.pt),
                pmin: Some(g.pb),
                pc1: None,
                pc2: None,
                qc1min: None,
                qc1max: None,
                qc2min: None,
                qc2max: None,
                ramp_agc: None,
                ramp_10: None,
                ramp_30: None,
                ramp_q: None,
                apf: None,
                mu_pmax: None,
                mu_pmin: None,
                mu_qmax: None,
                mu_qmin: None,
            },
        );
        k = k + 1;
    }
    let nbr = net.branches.len();
    let mut branches: Vec<Branch> = Vec::new();
    let mut k: usize = 0;
    while k < nbr
        invariant
            k <= nbr,
            branches@.len() == k as int,
            forall|j: int| 0 <= j < k ==> #[trigger] branches@[j] == spec_line(net.branches@[j]),
            forall|j: int| 0 <= j < k ==> endpoints_ok(#[trigger] branches@[j], ids),
        decreases nbr - k,
    {
        let br = &net.branches[k];
        match find_raw_bus(&net.buses, br.i) {
            Some(_) => {},
            None => {
                return Err(CaseError::DanglingReference { kind: RecordKind::Branch, bus: br.i });
            },
        }
        let jb = br.j_bus();
        match find_raw_bus(&net.buses, jb) {
            Some(_) => {},
            None => {
                return Err(CaseError::DanglingReference { kind: RecordKind::Branch, bus: jb });
            },
        }
        branches.push(
            Branch {
                f_bus: br.i,
                t_bus: jb,
                br_r: br.r,
                br_x: br.x,
                br_b: br.b,
                rate_a: br.rate_a,
                rate_b: br.rate_b,
                rate_c: br.rate_c,
                tap: Rat::zero(),
                shift: Rat::zero(),
                br_status: if br.st != 0 {
                    1
                } else {
                    0
                },
                angmin: None,
                angmax: None,
                pf: None,
                qf: None,
                pt: None,
                qt: None,
                mu_sf: None,
                mu_st: None,
                mu_angmin: None,
                mu_angmax: None,
            },
        );
        k = k + 1;
    }
    let ntr = net.transformers.len();
    let mut k: usize = 0;
    while k < ntr
        invariant
            k <= ntr,
            branches@.len() == nbr as int + count2(net.transformers@, k as int),
            forall|j: int| 0 <= j < nbr ==> #[trigger] branches@[j] == spec_line(net.branches@[j]),
            forall|j: int| 0 <= j < branches@.len() ==> endpoints_ok(#[trigger] branches@[j], ids),
            forall|j: int|
                0 <= j < count2(net.transformers@, k as int) ==> tr2_branch_ok(
                    #[trigger] branches@[nbr + j],
                    tr2_seq(net.transformers@, k as int)[j],
                    net.buses@,
                    sbq,
                ),
            forall|j: int|
                0 <= j < k && (#[trigger] net.transformers@[j]).k == 0 ==> (net.transformers@[j].cw
                    == 1 || net.transformers@[j].cw == 2) && (net.transformers@[j].cz == 1
                    || net.transformers@[j].cz == 2 || net.transformers@[j].cz == 3),
        decreases ntr - k,
    {
        let t = &net.transformers[k];
        proof {
            lemma_counts_bounded(net.transformers@, k as int);
        }
        if t.k == 0 {
            let pi = match find_raw_bus(&net.buses, t.i) {
                Some(v) => v,
                None => {
                    return Err(
                        CaseError::DanglingReference { kind: RecordKind::Transformer, bus: t.i },
                    );
                },
            };
            let pj = match find_raw_bus(&net.buses, t.j) {
                Some(v) => v,
                None => {
                    return Err(
                        CaseError::DanglingReference { kind: RecordKind::Transformer, bus: t.j },
                    );
                },
            };
            proof {
                lemma_pos_of_valid(ids, t.i as int);
                lemma_pos_of_valid(ids, t.j as int);
            }
            let b = match two_winding_branch(t, buses[pi].base_kv, buses[pj].base_kv, sbase) {
                Ok(v) => v,
                Err(e) => {
                    proof {
                        if net_clean(*net) && net_arith_owed(*net) {
                            assert(tr_clean(net.transformers@[k as int], *net));
                            assert(tr_reprable(net.transformers@[k as int], *net));
                            assert(buses@[pi as int].base_kv == net.buses@[pi as int].basekv);
                            assert(buses@[pj as int].base_kv == net.buses@[pj as int].basekv);
                            assert(false);
                        }
                    }
                    return Err(e);
                },
            };
            let ghost old_branches = branches@;
            proof {
                lemma_counts_bounded(net.transformers@, k as int);
                assert(old_branches.len() >= nbr as int);
            }
            branches.push(b);
            proof {
                assert(branches@ == old_branches.push(b));
                assert forall|j: int| 0 <= j < nbr implies #[trigger] branches@[j] == spec_line(
                    net.branches@[j],
                ) by {
                    assert(branches@[j] == old_branches[j]);
                    assert(old_branches[j] == spec_line(net.branches@[j]));
                }
                lemma_tr_seq_len(net.transformers@, k as int);
                lemma_tr_seq_len(net.transformers@, k as int + 1);
                assert(tr2_seq(net.transformers@, k as int + 1) == tr2_seq(
                    net.transformers@,
                    k as int,
                ).push(*t));
                assert(buses@[pi as int].base_kv == net.buses@[pi as int].basekv);
                assert(buses@[pj as int].base_kv == net.buses@[pj as int].basekv);
                assert(tr2_branch_ok(b, *t, net.buses@, sbq));
                assert forall|j: int|
                    0 <= j < count2(net.transformers@, k as int + 1) implies tr2_branch_ok(
                    #[trigger] branches@[nbr + j],
                    tr2_seq(net.transformers@, k as int + 1)[j],
                    net.buses@,
                    sbq,
                ) by {
                    if j < count2(net.transformers@, k as int) {
                        assert(branches@[nbr + j] == old_branches[nbr + j]);
                        assert(tr2_seq(net.transformers@, k as int + 1)[j] == tr2_seq(
                            net.transformers@,
                            k as int,
                        )[j]);
                    } else {
                        assert(branches@[nbr + j] == b);
                    }
                }
            }
        }
        k = k + 1;
    }
    let mut maxid: usize = 0;
    let mut k: usize = 0;
    while k < nb
        invariant
            k <= nb,
            forall|j: int| 0 <= j < k ==> ids[j] <= maxid as int,
            maxid as int == max_raw_id(net.buses@, k as int),
        decreases nb - k,
    {
        if net.buses[k].i > maxid {
            maxid = net.buses[k].i;
        }
        k = k + 1;
    }
    let bus_i0 = match pow10_above(maxid) {
        Some(v) => v,
        None => {
            proof {
                if max_raw_id(net.buses@, net.buses@.len() as int) < 100000 {
                    lemma_pow10_above_linear(maxid as nat);
                    assert(usize::MAX >= 0xffff_ffffusize);
                    assert(spec_pow10_above(maxid as nat) <= usize::MAX);
                    assert(false);
                }
            }
            return Err(CaseError::Overflow);
        },
    };
    proof {
        lemma_pow10_above(maxid as nat);
    }
    let mut star_count: usize = 0;
    let mut k: usize = 0;
    while k < ntr
        invariant
            k <= ntr,
            star_count as int == count3(net.transformers@, k as int),
            buses@.len() == nb as int + star_count as int,
            branches@.len() == nbr as int + count2(net.transformers@, ntr as int) + 3 * (
            star_count as int),
            forall|j: int| 0 <= j < nb ==> spec_bus_done(#[trigger] buses@[j], *net, j, sbq),
            forall|j: int|
                0 <= j < star_count as int ==> (#[trigger] buses@[nb + j]).bus_i as int == bus_i0
                    as int + j,
            bus_ids(buses@).take(nb as int) =~= ids,
            forall|j: int| 0 <= j < nbr ==> #[trigger] branches@[j] == spec_line(net.branches@[j]),
            forall|j: int|
                0 <= j < branches@.len() ==> endpoints_ok(#[trigger] branches@[j], bus_ids(buses@)),
            forall|j: int|
                0 <= j < count2(net.transformers@, ntr as int) ==> tr2_branch_ok(
                    #[trigger] branches@[nbr + j],
                    tr2_seq(net.transformers@, ntr as int)[j],
                    net.buses@,
                    sbq,
                ),
            forall|j: int|
                0 <= j < star_count as int ==> tr3_result_ok(
                    #[trigger] buses@[nb + j],
                    branches@[nbr + count2(net.transformers@, ntr as int) + 3 * j],
                    branches@[nbr + count2(net.transformers@, ntr as int) + 3 * j + 1],
                    branches@[nbr + count2(net.transformers@, ntr as int) + 3 * j + 2],
                    tr3_seq(net.transformers@, k as int)[j],
                    net.buses@,
                    sbq,
                ),
            forall|j: int|
                0 <= j < k && (#[trigger] net.transformers@[j]).k != 0 ==> (net.transformers@[j].cw
                    == 1 || net.transformers@[j].cw == 2) && (net.transformers@[j].cz == 1
                    || net.transformers@[j].cz == 2 || net.transformers@[j].cz == 3),
        decreases ntr - k,
    {
        let t = &net.transformers[k];
        proof {
            lemma_counts_bounded(net.transformers@, k as int);
        }
        if t.k != 0 {
            let pi = match find_raw_bus(&net.buses, t.i) {
                Some(v) => v,
                None => {
                    return Err(
                        CaseError::DanglingReference { kind: RecordKind::Transformer, bus: t.i },
                    );
                },
            };
            let pj = match find_raw_bus(&net.buses, t.j) {
                Some(v) => v,
                None => {
                    return Err(
                        CaseError::DanglingReference { kind: RecordKind::Transformer, bus: t.j },
                    );
                },
            };
            let pk = match find_raw_bus(&net.buses, t.k) {
                Some(v) => v,
                None => {
                    return Err(
                        CaseError::DanglingReference { kind: RecordKind::Transformer, bus: t.k },
                    );
                },
            };
            proof {
                lemma_pos_of_valid(ids, t.i as int);
                lemma_pos_of_valid(ids, t.j as int);
                lemma_pos_of_valid(ids, t.k as int);
            }
            let star_i = match bus_i0.checked_add(star_count) {
                Some(v) => v,
                None => {
                    proof {
                        if max_raw_id(net.buses@, net.buses@.len() as int) < 100000
                            && net.transformers@.len() < 100000 {
                            lemma_pow10_above_linear(maxid as nat);
                            lemma_counts_bounded(net.transformers@, k as int);
                            assert(usize::MAX >= 0xffff_ffffusize);
                            assert(bus_i0 as int + star_count as int <= usize::MAX as int);
                            assert(false);
                        }
                    }
                    return Err(CaseError::Overflow);
                },
            };
            let out = match split_three_winding(
                t,
                &buses[pi],
                buses[pj].base_kv,
                buses[pk].base_kv,
                star_i,
                sbase,
            ) {
                Ok(v) => v,
                Err(e) => {
                    proof {
                        if net_clean(*net) && net_arith_owed(*net) {
                            assert(tr_clean(net.transformers@[k as int], *net));
                            assert(tr_reprable(net.transformers@[k as int], *net));
                            assert(buses@[pi as int].base_kv == net.buses@[pi as int].basekv);
                            assert(buses@[pj as int].base_kv == net.buses@[pj as int].basekv);
                            assert(buses@[pk as int].base_kv == net.buses@[pk as int].basekv);
                            assert(false);
                        }
                    }
                    return Err(e);
                },
            };
            let ghost old_ids = bus_ids(buses@);
            let ghost old_ids_buses = buses@;
            buses.push(out.0);
            proof {
                assert(bus_ids(buses@) =~= old_ids.push(star_i as int));
                assert(bus_ids(buses@).take(nb as int) =~= old_ids.take(nb as int));
                assert forall|j: int| 0 <= j < branches@.len() implies endpoints_ok(
                    #[trigger] branches@[j],
                    bus_ids(buses@),
                ) by {
                    lemma_pos_of_push(old_ids, star_i as int, branches@[j].f_bus as int);
                    lemma_pos_of_push(old_ids, star_i as int, branches@[j].t_bus as int);
                }
                lemma_pos_of_push(old_ids, star_i as int, star_i as int);
                lemma_pos_of_push(old_ids, star_i as int, t.i as int);
                lemma_pos_of_push(old_ids, star_i as int, t.j as int);
                lemma_pos_of_push(old_ids, star_i as int, t.k as int);
                assert(pos_of(old_ids, t.i as int) is Some) by {
                    assert(old_ids.take(nb as int) =~= ids);
                    lemma_pos_of_take_some(old_ids, t.i as int, nb as int);
                }
                assert(pos_of(old_ids, t.j as int) is Some) by {
                    lemma_pos_of_take_some(old_ids, t.j as int, nb as int);
                }
                assert(pos_of(old_ids, t.k as int) is Some) by {
                    lemma_pos_of_take_some(old_ids, t.k as int, nb as int);
                }
            }
            let ghost brs0 = branches@;
            let ghost cur_ids = bus_ids(buses@);
            proof {
                assert(pos_of(cur_ids, star_i as int) is Some);
                assert(pos_of(cur_ids, t.i as int) is Some);
                assert(pos_of(cur_ids, t.j as int) is Some);
                assert(pos_of(cur_ids, t.k as int) is Some);
            }
            branches.push(out.1);
            branches.push(out.2);
            branches.push(out.3);
            proof {
                lemma_counts_bounded(net.transformers@, ntr as int);
                assert(branches@ == brs0.push(out.1).push(out.2).push(out.3));
                assert forall|j: int| 0 <= j < nbr implies #[trigger] branches@[j] == spec_line(
                    net.branches@[j],
                ) by {
                    assert(branches@[j] == brs0[j]);
                }
                assert forall|j: int| 0 <= j < branches@.len() implies endpoints_ok(
                    #[trigger] branches@[j],
                    bus_ids(buses@),
                ) by {
                    if j < brs0.len() {
                        assert(branches@[j] == brs0[j]);
                    } else if j == brs0.len() {
                        assert(branches@[j] == out.1);
                    } else if j == brs0.len() + 1 {
                        assert(branches@[j] == out.2);
                    } else {
                        assert(branches@[j] == out.3);
                    }
                }
                assert forall|j: int|
                    0 <= j < count2(net.transformers@, ntr as int) implies tr2_branch_ok(
                    #[trigger] branches@[nbr + j],
                    tr2_seq(net.transformers@, ntr as int)[j],
                    net.buses@,
                    sbq,
                ) by {
                    assert(branches@[nbr + j] == brs0[nbr + j]);
                }
                lemma_tr_seq_len(net.transformers@, k as int);
                lemma_tr_seq_len(net.transformers@, k as int + 1);
                assert(tr3_seq(net.transformers@, k as int + 1) == tr3_seq(
                    net.transformers@,
                    k as int,
                ).push(*t));
                assert(buses@[nb + star_count as int] == out.0);
                assert(pos_of(ids, t.i as int) == Some(pi as int));
                assert(pos_of(ids, t.j as int) == Some(pj as int));
                assert(pos_of(ids, t.k as int) == Some(pk as int));
                assert(spec_bus_done(buses@[pi as int], *net, pi as int, sbq));
                assert(spec_bus_done(buses@[pj as int], *net, pj as int, sbq));
                assert(spec_bus_done(buses@[pk as int], *net, pk as int, sbq));
                assert(tr3_result_ok(out.0, out.1, out.2, out.3, *t, net.buses@, sbq));
                assert forall|j: int|
                    0 <= j < star_count as int + 1 implies tr3_result_ok(
                    #[trigger] buses@[nb + j],
                    branches@[nbr + count2(net.transformers@, ntr as int) + 3 * j],
                    branches@[nbr + count2(net.transformers@, ntr as int) + 3 * j + 1],
                    branches@[nbr + count2(net.transformers@, ntr as int) + 3 * j + 2],
                    tr3_seq(net.transformers@, k as int + 1)[j],
                    net.buses@,
                    sbq,
                ) by {
                    let base = nbr + count2(net.transformers@, ntr as int) + 3 * j;
                    if j < star_count as int {
                        assert(buses@[nb + j] == old_ids_buses[nb + j]);
                        assert(branches@[base] == brs0[base]);
                        assert(branches@[base + 1] == brs0[base + 1]);
                        assert(branches@[base + 2] == brs0[base + 2]);
                        assert(tr3_seq(net.transformers@, k as int + 1)[j] == tr3_seq(
                            net.transformers@,
                            k as int,
                        )[j]);
                    } else {
                        assert(buses@[nb + j] == out.0);
                        assert(base == brs0.len());
                        assert(branches@[base] == out.1);
                        assert(branches@[base + 1] == out.2);
                        assert(branches@[base + 2] == out.3);
                    }
                }
            }
            star_count = star_count + 1;
        }
        k = k + 1;
    }
    let mut dclines: Vec<DCLine> = Vec::new();
    let mut k: usize = 0;
    while k < net.two_terminal_dc.len()
        invariant
            k <= net.two_terminal_dc@.len(),
            dclines@.len() == k as int,
            forall|j: int|
                0 <= j < k ==> dc_endpoints_ok(#[trigger] dclines@[j], bus_ids(buses@)),
            forall|j: int|
                0 <= j < k ==> dc_line_ok(#[trigger] dclines@[j], net.two_terminal_dc@[j], buses@),
        decreases net.two_terminal_dc@.len() - k,
    {
        let d = &net.two_terminal_dc[k];
        let pr = match find_bus(&buses, d.ipr) {
            Some(v) => v,
            None => {
                proof {
                    if net_clean(*net) {
                        assert(bus_ids(buses@).take(nb as int) =~= ids);
                        lemma_pos_of_take_some(bus_ids(buses@), d.ipr as int, nb as int);
                    }
                }
                return Err(CaseError::DanglingReference { kind: RecordKind::DCLine, bus: d.ipr });
            },
        };
        let pi2 = match find_bus(&buses, d.ipi) {
            Some(v) => v,
            None => {
                proof {
                    if net_clean(*net) {
                        assert(bus_ids(buses@).take(nb as int) =~= ids);
                        lemma_pos_of_take_some(bus_ids(buses@), d.ipi as int, nb as int);
                    }
                }
                return Err(CaseError::DanglingReference { kind: RecordKind::DCLine, bus: d.ipi });
            },
        };
        proof {
            lemma_pos_of_valid(bus_ids(buses@), d.ipr as int);
            lemma_pos_of_valid(bus_ids(buses@), d.ipi as int);
        }
        let ghost pexact = spec_dc_power(d.mdc as int, d.setvl@, d.vschd@);
        let p_mw = match dc_power(d.mdc, d.setvl, d.vschd) {
            Ok(v) => v,
            Err(e) => {
                proof {
                    if net_clean(*net) && net_arith_owed(*net) {
                        assert(dc_reprable(net.two_terminal_dc@[k as int]));
                        assert(false);
                    }
                }
                return Err(e);
            },
        };
        let qr = match hvdc_q_lims(d.tan_phi_rec, d.tan_alpha_min, p_mw) {
            Ok(v) => v,
            Err(e) => {
                proof {
                    if net_clean(*net) && net_arith_owed(*net) {
                        assert(dc_reprable(net.two_terminal_dc@[k as int]));
                        lemma_scaled_refl(d.tan_alpha_min@);
                        lemma_mul_scaled(pexact, p_mw@, d.tan_alpha_min@, d.tan_alpha_min@);
                        lemma_scaled_in_range(
                            q_mul(pexact, d.tan_alpha_min@),
                            q_mul(p_mw@, d.tan_alpha_min@),
                        );
                        lemma_scaled_refl(d.tan_phi_rec@);
                        lemma_mul_scaled(pexact, p_mw@, d.tan_phi_rec@, d.tan_phi_rec@);
                        lemma_scaled_in_range(
                            q_mul(pexact, d.tan_phi_rec@),
                            q_mul(p_mw@, d.tan_phi_rec@),
                        );
                        assert(false);
                    }
                }
                return Err(e);
            },
        };
        let qi = match hvdc_q_lims(d.tan_phi_inv, d.tan_gamma_min, p_mw) {
            Ok(v) => v,
            Err(e) => {
                proof {
                    if net_clean(*net) && net_arith_owed(*net) {
                        assert(dc_reprable(net.two_terminal_dc@[k as int]));
                        lemma_scaled_refl(d.tan_gamma_min@);
                        lemma_mul_scaled(pexact, p_mw@, d.tan_gamma_min@, d.tan_gamma_min@);
                        lemma_scaled_in_range(
                            q_mul(pexact, d.tan_gamma_min@),
                            q_mul(p_mw@, d.tan_gamma_min@),
                        );
                        lemma_scaled_refl(d.tan_phi_inv@);
                        lemma_mul_scaled(pexact, p_mw@, d.tan_phi_inv@, d.tan_phi_inv@);
                        lemma_scaled_in_range(
                            q_mul(pexact, d.tan_phi_inv@),
                            q_mul(p_mw@, d.tan_phi_inv@),
                        );
                        assert(false);
                    }
                }
                return Err(e);
            },
        };
        let pmin = match ra(p_mw.mul(Rat { n: 17, d: 20 })) {
            Ok(v) => v,
            Err(e) => {
                proof {
                    if net_clean(*net) && net_arith_owed(*net) {
                        assert(dc_reprable(net.two_terminal_dc@[k as int]));
                        lemma_scaled_refl(Q { n: 17, d: 20 });
                        lemma_mul_scaled(pexact, p_mw@, Q { n: 17, d: 20 }, Q { n: 17, d: 20 });
                        lemma_scaled_in_range(
                            q_mul(pexact, Q { n: 17, d: 20 }),
                            q_mul(p_mw@, Q { n: 17, d: 20 }),
                        );
                        assert(false);
                    }
                }
                return Err(e);
            },
        };
        let pmax = match ra(p_mw.mul(Rat { n: 23, d: 20 })) {
            Ok(v) => v,
            Err(e) => {
                proof {
                    if net_clean(*net) && net_arith_owed(*net) {
                        assert(dc_reprable(net.two_terminal_dc@[k as int]));
                        lemma_scaled_refl(Q { n: 23, d: 20 });
                        lemma_mul_scaled(pexact, p_mw@, Q { n: 23, d: 20 }, Q { n: 23, d: 20 });
                        lemma_scaled_in_range(
                            q_mul(pexact, Q { n: 23, d: 20 }),
                            q_mul(p_mw@, Q { n: 23, d: 20 }),
                        );
                        assert(false);
                    }
                }
                return Err(e);
            },
        };
        let line = DCLine {
            f_bus: d.ipr,
            t_bus: d.ipi,
            br_status: if d.mdc == 0 {
                0
            } else {
                1
            },
            pf: p_mw,
            pt: p_mw,
            qf: Rat::zero(),
            qt: Rat::zero(),
            vf: buses[pr].vm,
            vt: buses[pi2].vm,
            pmin: Some(pmin),
            pmax: Some(pmax),
            qminf: Some(qr.0),
            qmaxf: Some(qr.1),
            qmint: Some(qi.0),
            qmaxt: Some(qi.1),
            loss0: Rat::zero(),
            loss1: Rat::zero(),
        };
        proof {
            let p = spec_dc_power(d.mdc as int, d.setvl@, d.vschd@);
            lemma_dc_power_wf(d.mdc as int, d.setvl@, d.vschd@);
            lemma_mul_congr(p_mw@, p, Q { n: 17, d: 20 }, Q { n: 17, d: 20 });
            lemma_q_eq_trans(pmin@, q_mul(p_mw@, Q { n: 17, d: 20 }), q_mul(p, Q { n: 17, d: 20 }));
            lemma_mul_congr(p_mw@, p, Q { n: 23, d: 20 }, Q { n: 23, d: 20 });
            lemma_q_eq_trans(pmax@, q_mul(p_mw@, Q { n: 23, d: 20 }), q_mul(p, Q { n: 23, d: 20 }));
            lemma_mul_congr(p_mw@, p, d.tan_alpha_min@, d.tan_alpha_min@);
            lemma_abs_congr(q_mul(p_mw@, d.tan_alpha_min@), q_mul(p, d.tan_alpha_min@));
            lemma_q_eq_trans(
                qr.0@,
                q_abs(q_mul(p_mw@, d.tan_alpha_min@)),
                q_abs(q_mul(p, d.tan_alpha_min@)),
            );
            lemma_mul_congr(p_mw@, p, d.tan_phi_rec@, d.tan_phi_rec@);
            lemma_abs_congr(q_mul(p_mw@, d.tan_phi_rec@), q_mul(p, d.tan_phi_rec@));
            lemma_q_eq_trans(
                qr.1@,
                q_abs(q_mul(p_mw@, d.tan_phi_rec@)),
                q_abs(q_mul(p, d.tan_phi_rec@)),
            );
            lemma_mul_congr(p_mw@, p, d.tan_gamma_min@, d.tan_gamma_min@);
            lemma_abs_congr(q_mul(p_mw@, d.tan_gamma_min@), q_mul(p, d.tan_gamma_min@));
            lemma_q_eq_trans(
                qi.0@,
                q_abs(q_mul(p_mw@, d.tan_gamma_min@)),
                q_abs(q_mul(p, d.tan_gamma_min@)),
            );
            lemma_mul_congr(p_mw@, p, d.tan_phi_inv@, d.tan_phi_inv@);
            lemma_abs_congr(q_mul(p_mw@, d.tan_phi_inv@), q_mul(p, d.tan_phi_inv@));
            lemma_q_eq_trans(
                qi.1@,
                q_abs(q_mul(p_mw@, d.tan_phi_inv@)),
                q_abs(q_mul(p, d.tan_phi_inv@)),
            );
            assert(buses@[pr as int].wf()) by {
                if pr < nb {
                    assert(spec_bus_done(buses@[pr as int], *net, pr as int, sbq));
                } else {
                    assert(buses@[nb + (pr as int - nb as int)] == buses@[pr as int]);
                }
            }
            assert(buses@[pi2 as int].wf()) by {
                if pi2 < nb {
                    assert(spec_bus_done(buses@[pi2 as int], *net, pi2 as int, sbq));
                } else {
                    assert(buses@[nb + (pi2 as int - nb as int)] == buses@[pi2 as int]);
                }
            }
            assert(dc_line_ok(line, *d, buses@));
        }
        dclines.push(line);
        k = k + 1;
    }
    proof {
        reveal_strlit("2");
        assert forall|kk: int| 0 <= kk < ntr implies ((#[trigger] net.transformers@[kk]).cw == 1
            || net.transformers@[kk].cw == 2) && (net.transformers@[kk].cz == 1
            || net.transformers@[kk].cz == 2 || net.transformers@[kk].cz == 3) by {
            if net.transformers@[kk].k == 0 {
            } else {
            }
        }
        let out_ids = bus_ids(buses@);
        let nbi = nb as int;
        let n3 = count3(net.transformers@, ntr as int);
        if forall|m: int, n: int| 0 <= m < n < nbi ==> ids[m] != ids[n] {
            assert forall|m: int, n: int|
                0 <= m < n < out_ids.len() implies out_ids[m] != out_ids[n] by {
                assert(out_ids.take(nbi) =~= ids);
                if m < nbi && n < nbi {
                    assert(ids[m] != ids[n]);
                } else if m < nbi && n >= nbi {
                    assert(out_ids[m] == ids[m]);
                    assert(ids[m] <= maxid as int);
                    assert(buses@[nbi + (n - nbi)].bus_i as int == bus_i0 as int + (n - nbi));
                    assert(out_ids[n] == buses@[n].bus_i as int);
                } else {
                    assert(buses@[nbi + (m - nbi)].bus_i as int == bus_i0 as int + (m - nbi));
                    assert(buses@[nbi + (n - nbi)].bus_i as int == bus_i0 as int + (n - nbi));
                    assert(out_ids[m] == buses@[m].bus_i as int);
                    assert(out_ids[n] == buses@[n].bus_i as int);
                }
            }
        }
    }
    Ok((case, buses, gens, branches, dclines))
}


/// The raw bus record a normalized bus writes back: both voltage limit
/// fields carry the normal limits.
pub open spec fn spec_raw_bus(b: Bus) -> RawBus {
    RawBus {
        i: b.bus_i,
        ide: b.bus_type,
        basekv: b.base_kv,
        area: b.bus_area,
        zone: b.zone,
        vm: b.vm,
        va: b.va,
        nvhi: b.vmax->0,
        nvlo: b.vmin->0,
    }
}

/// Whether a normalized bus carries demand.
pub open spec fn spec_is_load_bus(b: Bus) -> bool {
    !q_eq(b.pd@, q_int(0)) || !q_eq(b.qd@, q_int(0))
}

/// Whether a normalized bus carries shunt admittance.
pub open spec fn spec_is_shunt_bus(b: Bus) -> bool {
    !q_eq(b.gs@, q_int(0)) || !q_eq(b.bs@, q_int(0))
}

/// The in-service load record a demand-carrying bus writes back.
pub open spec fn spec_bus_load(b: Bus) -> RawLoad {
    RawLoad {
        i: b.bus_i,
        id: 1,
        status: 1,
        area: b.bus_area,
        zone: b.zone,
        pl: b.pd,
        ql: b.qd,
        ip: Rat { n: 0, d: 1 },
        iq: Rat { n: 0, d: 1 },
        yp: Rat { n: 0, d: 1 },
        yq: Rat { n: 0, d: 1 },
    }
}

/// The load records written back for the demand-carrying buses among the
/// first `k`.
pub open spec fn model_bus_loads(buses: Seq<Bus>, k: int) -> Seq<RawLoad>
    decreases k,
{
    if k <= 0 {
        Seq::empty()
    } else {
        let rest = model_bus_loads(buses, k - 1);
        if spec_is_load_bus(buses[k - 1]) {
            rest.push(spec_bus_load(buses[k - 1]))
        } else {
            rest
        }
    }
}

/// The fixed-shunt records written back for the shunt-carrying buses among
/// the first `k`.
pub open spec fn model_bus_shunts(buses: Seq<Bus>, k: int) -> Seq<RawFixedShunt>
    decreases k,
{
    if k <= 0 {
        Seq::empty()
    } else {
        let rest = model_bus_shunts(buses, k - 1);
        let b = buses[k - 1];
        if spec_is_shunt_bus(b) {
            rest.push(RawFixedShunt { i: b.bus_i, id: 1, status: 1, gl: b.gs, bl: b.bs })
        } else {
            rest
        }
    }
}

/// How many of the first `k` generators are dispatchable loads at bus `i`.
pub open spec fn count_dl_at(gens: Seq<Gen>, i: int, k: int) -> int
    decreases k,
{
    if k <= 0 {
        0
    } else {
        count_dl_at(gens, i, k - 1) + if qgen_is_load(gens[k - 1]@) && gens[k - 1].gen_bus as int
            == i {
            1int
        } else {
            0int
        }
    }
}

/// Whether some demand-carrying bus among the first `k` has number `i`.
pub open spec fn has_demand_bus(buses: Seq<Bus>, i: int, k: int) -> bool
    decreases k,
{
    if k <= 0 {
        false
    } else {
        has_demand_bus(buses, i, k - 1) || (spec_is_load_bus(buses[k - 1]) && buses[k
            - 1].bus_i as int == i)
    }
}

/// The load record a dispatchable-load generator writes back: demand is the
/// negated lower limits, and the identifier continues the per-bus count that
/// the bus's own demand record starts.
pub open spec fn spec_dl_load(g: Gen, area: int, zone: int, id: int) -> RawLoad {
    RawLoad {
        i: g.gen_bus,
        id: id as usize,
        status: g.gen_status,
        area: area as usize,
        zone: zone as usize,
        pl: q_neg_rat(g.pmin->0),
        ql: q_neg_rat(g.qmin->0),
        ip: Rat { n: 0, d: 1 },
        iq: Rat { n: 0, d: 1 },
        yp: Rat { n: 0, d: 1 },
        yq: Rat { n: 0, d: 1 },
    }
}

/// The negation of a rational value, as the executable negation computes it.
pub open spec fn q_neg_rat(r: Rat) -> Rat {
    Rat { n: (-r.n) as i64, d: r.d }
}

/// The raw generator record a true generator writes back.
pub open spec fn spec_raw_gen(g: Gen) -> RawGenerator {
    RawGenerator {
        i: g.gen_bus,
        id: 1,
        pg: g.pg,
        qg: g.qg,
        qt: g.qmax->0,
        qb: g.qmin->0,
        vs: g.vg,
        mbase: g.mbase,
        stat: g.gen_status,
        pt: g.pmax->0,
        pb: g.pmin->0,
    }
}

/// The true generators among the first `k`.
pub open spec fn model_raw_gens(gens: Seq<Gen>, k: int) -> Seq<RawGenerator>
    decreases k,
{
    if k <= 0 {
        Seq::empty()
    } else {
        let rest = model_raw_gens(gens, k - 1);
        if !qgen_is_load(gens[k - 1]@) {
            rest.push(spec_raw_gen(gens[k - 1]))
        } else {
            rest
        }
    }
}

/// How many of the first `k` branches that pass `tfmr`-selection share the
/// ordered endpoint pair `(f, t)`: the source of the sequential circuit
/// identifiers.
pub open spec fn count_pair(brs: Seq<Branch>, tfmr: bool, f: int, t: int, k: int) -> int
    decreases k,
{
    if k <= 0 {
        0
    } else {
        count_pair(brs, tfmr, f, t, k - 1) + if spec_is_tfmr(brs[k - 1]) == tfmr && brs[k
            - 1].f_bus as int == f && brs[k - 1].t_bus as int == t {
            1int
        } else {
            0int
        }
    }
}

/// Whether a branch writes back as a transformer record: nonzero tap or
/// nonzero shift.
pub open spec fn spec_is_tfmr(b: Branch) -> bool {
    !q_eq(b.tap@, q_int(0)) || !q_eq(b.shift@, q_int(0))
}

/// The raw line record a plain branch writes back, with its circuit tag.
pub open spec fn spec_raw_line(b: Branch, ckt: int) -> RawBranch {
    RawBranch {
        i: b.f_bus,
        j: b.t_bus as i64,
        ckt: ckt as usize,
        r: b.br_r,
        x: b.br_x,
        b: b.br_b,
        rate_a: b.rate_a,
        rate_b: b.rate_b,
        rate_c: b.rate_c,
        gi: Rat { n: 0, d: 1 },
        bi: Rat { n: 0, d: 1 },
        gj: Rat { n: 0, d: 1 },
        bj: Rat { n: 0, d: 1 },
        st: b.br_status,
    }
}

/// The plain lines among the first `k` branches, with sequential circuit
/// tags per endpoint pair.
pub open spec fn model_raw_lines(brs: Seq<Branch>, k: int) -> Seq<RawBranch>
    decreases k,
{
    if k <= 0 {
        Seq::empty()
    } else {
        let rest = model_raw_lines(brs, k - 1);
        let b = brs[k - 1];
        if !spec_is_tfmr(b) {
            rest.push(
                spec_raw_line(
                    b,
                    count_pair(brs, false, b.f_bus as int, b.t_bus as int, k - 1) + 1,
                ),
            )
        } else {
            rest
        }
    }
}

/// The raw transformer record a transformer branch writes back: impedance
/// already on the system base (code 1), the tap in the first
/// winding-voltage field (code 1), and its circuit tag.
pub open spec fn spec_raw_tfmr(b: Branch, sbase: Rat, ckt: int) -> RawTransformer {
    RawTransformer {
        i: b.f_bus,
        j: b.t_bus,
        k: 0,
        ckt: ckt as usize,
        cw: 1,
        cz: 1,
        stat: b.br_status,
        r1_2: b.br_r,
        x1_2: b.br_x,
        sbase1_2: sbase,
        windv1: b.tap,
        nomv1: Rat { n: 0, d: 1 },
        ang1: b.shift,
        rata1: b.rate_a,
        ratb1: b.rate_b,
        ratc1: b.rate_c,
        windv2: Rat { n: 1, d: 1 },
        nomv2: Rat { n: 0, d: 1 },
        r2_3: None,
        x2_3: None,
        sbase2_3: None,
        r3_1: None,
        x3_1: None,
        sbase3_1: None,
        vmstar: None,
        anstar: None,
        windv3: None,
        nomv3: None,
        ang2: None,
        rata2: None,
        ratb2: None,
        ratc2: None,
        ang3: None,
        rata3: None,
        ratb3: None,
        ratc3: None,
    }
}

/// The transformer records among the first `k` branches, with sequential
/// circuit tags per endpoint pair.
pub open spec fn model_raw_tfmrs(brs: Seq<Branch>, sbase: Rat, k: int) -> Seq<RawTransformer>
    decreases k,
{
    if k <= 0 {
        Seq::empty()
    } else {
        let rest = model_raw_tfmrs(brs, sbase, k - 1);
        let b = brs[k - 1];
        if spec_is_tfmr(b) {
            rest.push(
                spec_raw_tfmr(
                    b,
                    sbase,
                    count_pair(brs, true, b.f_bus as int, b.t_bus as int, k - 1) + 1,
                ),
            )
        } else {
            rest
        }
    }
}


/// The load records the dispatchable-load generators among the first `k`
/// write back.
pub open spec fn model_dl_loads(gens: Seq<Gen>, buses: Seq<Bus>, k: int) -> Seq<RawLoad>
    decreases k,
{
    if k <= 0 {
        Seq::empty()
    } else {
        let rest = model_dl_loads(gens, buses, k - 1);
        let g = gens[k - 1];
        if qgen_is_load(g@) {
            let p = pos_of(bus_ids(buses), g.gen_bus as int)->0;
            let base = if has_demand_bus(buses, g.gen_bus as int, buses.len() as int) {
                1int
            } else {
                0int
            };
            rest.push(
                spec_dl_load(
                    g,
                    buses[p].bus_area as int,
                    buses[p].zone as int,
                    base + count_dl_at(gens, g.gen_bus as int, k - 1) + 1,
                ),
            )
        } else {
            rest
        }
    }
}

/// The raw two-terminal record a DC line writes back: the setpoint is the
/// "from"-end flow; everything else is left at its blocked-mode defaults,
/// the mode itself included.
pub open spec fn spec_raw_dc(l: DCLine) -> RawTwoTerminalDC {
    RawTwoTerminalDC {
        mdc: 0,
        setvl: l.pf,
        vschd: Rat { n: 0, d: 1 },
        ipr: l.f_bus,
        ipi: l.t_bus,
        tan_alpha_min: Rat { n: 0, d: 1 },
        tan_phi_rec: Rat { n: 0, d: 1 },
        tan_gamma_min: Rat { n: 0, d: 1 },
        tan_phi_inv: Rat { n: 0, d: 1 },
    }
}

/// Assemble raw-format records back from a normalized case: one raw bus per
/// bus; a load for every demand-carrying bus and every dispatchable-load
/// generator, with sequential per-bus load identifiers; a fixed shunt for
/// every shunt-carrying bus; the true generators; the zero-tap, zero-shift
/// branches as lines and the rest as transformer records, each class with
/// sequential circuit tags per ordered endpoint pair; and one two-terminal
/// record per DC line.
#[verifier::loop_isolation(false)]
pub fn case_to_raw(
    case: &Case,
    bus: &Vec<Bus>,
    gen: &Vec<Gen>,
    branch: &Vec<Branch>,
    dcline: &Vec<DCLine>,
) -> (r: RawNetwork)
    requires
        case.wf(),
        forall|k: int| 0 <= k < bus@.len() ==> (#[trigger] bus@[k]).wf(),
        forall|k: int| 0 <= k < gen@.len() ==> (#[trigger] gen@[k]).wf(),
        forall|k: int| 0 <= k < branch@.len() ==> (#[trigger] branch@[k]).wf(),
        forall|k: int| 0 <= k < dcline@.len() ==> (#[trigger] dcline@[k]).wf(),
        forall|k: int|
            0 <= k < bus@.len() ==> (#[trigger] bus@[k]).vmax is Some && bus@[k].vmin is Some,
        forall|k: int|
            0 <= k < gen@.len() ==> (#[trigger] gen@[k]).qmax is Some && gen@[k].qmin is Some
                && gen@[k].pmax is Some && gen@[k].pmin is Some,
        forall|k: int|
            0 <= k < gen@.len() && qgen_is_load((#[trigger] gen@[k])@) ==> pos_of(
                bus_ids(bus@),
                gen@[k].gen_bus as int,
            ) is Some,
        gen@.len() + 2 <= usize::MAX,
        branch@.len() + 2 <= usize::MAX,
    ensures
        r.caseid.sbase == case.base_mva,
        r.caseid.basfrq == case.f,
        r.buses@.len() == bus@.len(),
        forall|k: int| 0 <= k < bus@.len() ==> #[trigger] r.buses@[k] == spec_raw_bus(bus@[k]),
        r.loads@ == model_bus_loads(bus@, bus@.len() as int) + model_dl_loads(
            gen@,
            bus@,
            gen@.len() as int,
        ),
        r.fixed_shunts@ == model_bus_shunts(bus@, bus@.len() as int),
        r.switched_shunts@.len() == 0,
        r.generators@ == model_raw_gens(gen@, gen@.len() as int),
        r.branches@ == model_raw_lines(branch@, branch@.len() as int),
        r.transformers@ == model_raw_tfmrs(branch@, case.base_mva, branch@.len() as int),
        r.two_terminal_dc@.len() == dcline@.len(),
        forall|k: int|
            0 <= k < dcline@.len() ==> #[trigger] r.two_terminal_dc@[k] == spec_raw_dc(
                dcline@[k],
            ),
{
    let nb = bus.len();
    let mut buses: Vec<RawBus> = Vec::new();
    let mut k: usize = 0;
    while k < nb
        invariant
            k <= nb,
            buses@.len() == k as int,
            forall|j: int| 0 <= j < k ==> #[trigger] buses@[j] == spec_raw_bus(bus@[j]),
        decreases nb - k,
    {
        let b = &bus[k];
        let vmax = match &b.vmax {
            Some(v) => *v,
            None => Rat::zero(),
        };
        let vmin = match &b.vmin {
            Some(v) => *v,
            None => Rat::zero(),
        };
        buses.push(
            RawBus {
                i: b.bus_i,
                ide: b.bus_type,
                basekv: b.base_kv,
                area: b.bus_area,
                zone: b.zone,
                vm: b.vm,
                va: b.va,
                nvhi: vmax,
                nvlo: vmin,
            },
        );
        k = k + 1;
    }
    let mut loads: Vec<RawLoad> = Vec::new();
    let mut k: usize = 0;
    while k < nb
        invariant
            k <= nb,
            loads@ == model_bus_loads(bus@, k as int),
        decreases nb - k,
    {
        let b = &bus[k];
        if !b.pd.is_zero() || !b.qd.is_zero() {
            loads.push(
                RawLoad {
                    i: b.bus_i,
                    id: 1,
                    status: 1,
                    area: b.bus_area,
                    zone: b.zone,
                    pl: b.pd,
                    ql: b.qd,
                    ip: Rat::zero(),
                    iq: Rat::zero(),
                    yp: Rat::zero(),
                    yq: Rat::zero(),
                },
            );
        }
        k = k + 1;
    }
    let ghost bus_loads = loads@;
    let mut k: usize = 0;
    while k < gen.len()
        invariant
            k <= gen@.len(),
            loads@ == bus_loads + model_dl_loads(gen@, bus@, k as int),
        decreases gen@.len() - k,
    {
        let g = &gen[k];
        if g.is_load() {
            let p = match find_bus(bus, g.gen_bus) {
                Some(v) => v,
                None => {
                    proof {
                        assert(false);
                    }
                    0
                },
            };
            proof {
                lemma_pos_of_valid(bus_ids(bus@), g.gen_bus as int);
            }
            let mut base: usize = 0;
            let mut j: usize = 0;
            while j < nb
                invariant
                    j <= nb,
                    base as int == (if has_demand_bus(bus@, g.gen_bus as int, j as int) {
                        1int
                    } else {
                        0int
                    }),
                    base <= 1,
                decreases nb - j,
            {
                let bb = &bus[j];
                if (!bb.pd.is_zero() || !bb.qd.is_zero()) && bb.bus_i == g.gen_bus {
                    base = 1;
                }
                j = j + 1;
            }
            let mut cnt: usize = 0;
            let mut j: usize = 0;
            while j < k
                invariant
                    j <= k,
                    cnt as int == count_dl_at(gen@, g.gen_bus as int, j as int),
                    cnt <= j,
                decreases k - j,
            {
                let gg = &gen[j];
                if gg.is_load() && gg.gen_bus == g.gen_bus {
                    cnt = cnt + 1;
                }
                j = j + 1;
            }
            let pmin = match &g.pmin {
                Some(v) => *v,
                None => Rat::zero(),
            };
            let qmin = match &g.qmin {
                Some(v) => *v,
                None => Rat::zero(),
            };
            let pln = pmin.neg();
            let qln = qmin.neg();
            proof {
                assert(pln == q_neg_rat(g.pmin->0));
                assert(qln == q_neg_rat(g.qmin->0));
            }
            loads.push(
                RawLoad {
                    i: g.gen_bus,
                    id: base + cnt + 1,
                    status: g.gen_status,
                    area: bus[p].bus_area,
                    zone: bus[p].zone,
                    pl: pln,
                    ql: qln,
                    ip: Rat::zero(),
                    iq: Rat::zero(),
                    yp: Rat::zero(),
                    yq: Rat::zero(),
                },
            );
        }
        k = k + 1;
    }
    let mut fixed_shunts: Vec<RawFixedShunt> = Vec::new();
    let mut k: usize = 0;
    while k < nb
        invariant
            k <= nb,
            fixed_shunts@ == model_bus_shunts(bus@, k as int),
        decreases nb - k,
    {
        let b = &bus[k];
        if !b.gs.is_zero() || !b.bs.is_zero() {
            fixed_shunts.push(
                RawFixedShunt { i: b.bus_i, id: 1, status: 1, gl: b.gs, bl: b.bs },
            );
        }
        k = k + 1;
    }
    let mut generators: Vec<RawGenerator> = Vec::new();
    let mut k: usize = 0;
    while k < gen.len()
        invariant
            k <= gen@.len(),
            generators@ == model_raw_gens(gen@, k as int),
        decreases gen@.len() - k,
    {
        let g = &gen[k];
        if !g.is_load() {
            let qmax = match &g.qmax {
                Some(v) => *v,
                None => Rat::zero(),
            };
            let qmin = match &g.qmin {
                Some(v) => *v,
                None => Rat::zero(),
            };
            let pmax = match &g.pmax {
                Some(v) => *v,
                None => Rat::zero(),
            };
            let pmin = match &g.pmin {
                Some(v) => *v,
                None => Rat::zero(),
            };
            generators.push(
                RawGenerator {
                    i: g.gen_bus,
                    id: 1,
                    pg: g.pg,
                    qg: g.qg,
                    qt: qmax,
                    qb: qmin,
                    vs: g.vg,
                    mbase: g.mbase,
                    stat: g.gen_status,
                    pt: pmax,
                    pb: pmin,
                },
            );
        }
        k = k + 1;
    }
    let nbr = branch.len();
    let mut lines: Vec<RawBranch> = Vec::new();
    let mut tfmrs: Vec<RawTransformer> = Vec::new();
    let mut k: usize = 0;
    while k < nbr
        invariant
            k <= nbr,
            lines@ == model_raw_lines(branch@, k as int),
            tfmrs@ == model_raw_tfmrs(branch@, case.base_mva, k as int),
        decreases nbr - k,
    {
        let b = &branch[k];
        let is_t = !b.tap.is_zero() || !b.shift.is_zero();
        let mut cnt: usize = 0;
        let mut j: usize = 0;
        while j < k
            invariant
                j <= k,
                cnt as int == count_pair(branch@, is_t, b.f_bus as int, b.t_bus as int, j as int),
                cnt <= j,
            decreases k - j,
        {
            let bb = &branch[j];
            let jt = !bb.tap.is_zero() || !bb.shift.is_zero();
            if jt == is_t && bb.f_bus == b.f_bus && bb.t_bus == b.t_bus {
                cnt = cnt + 1;
            }
            j = j + 1;
        }
        if !is_t {
            lines.push(
                RawBranch {
                    i: b.f_bus,
                    j: b.t_bus as i64,
                    ckt: cnt + 1,
                    r: b.br_r,
                    x: b.br_x,
                    b: b.br_b,
                    rate_a: b.rate_a,
                    rate_b: b.rate_b,
                    rate_c: b.rate_c,
                    gi: Rat::zero(),
                    bi: Rat::zero(),
                    gj: Rat::zero(),
                    bj: Rat::zero(),
                    st: b.br_status,
                },
            );
        } else {
            tfmrs.push(
                RawTransformer {
                    i: b.f_bus,
                    j: b.t_bus,
                    k: 0,
                    ckt: cnt + 1,
                    cw: 1,
                    cz: 1,
                    stat: b.br_status,
                    r1_2: b.br_r,
                    x1_2: b.br_x,
                    sbase1_2: case.base_mva,
                    windv1: b.tap,
                    nomv1: Rat::zero(),
                    ang1: b.shift,
                    rata1: b.rate_a,
                    ratb1: b.rate_b,
                    ratc1: b.rate_c,
                    windv2: Rat::one(),
                    nomv2: Rat::zero(),
                    r2_3: None,
                    x2_3: None,
                    sbase2_3: None,
                    r3_1: None,
                    x3_1: None,
                    sbase3_1: None,
                    vmstar: None,
                    anstar: None,
                    windv3: None,
                    nomv3: None,
                    ang2: None,
                    rata2: None,
                    ratb2: None,
                    ratc2: None,
                    ang3: None,
                    rata3: None,
                    ratb3: None,
                    ratc3: None,
                },
            );
        }
        k = k + 1;
    }
    let mut two_terminal_dc: Vec<RawTwoTerminalDC> = Vec::new();
    let mut k: usize = 0;
    while k < dcline.len()
        invariant
            k <= dcline@.len(),
            two_terminal_dc@.len() == k as int,
            forall|j: int|
                0 <= j < k ==> #[trigger] two_terminal_dc@[j] == spec_raw_dc(dcline@[j]),
        decreases dcline@.len() - k,
    {
        let d = &dcline[k];
        two_terminal_dc.push(
            RawTwoTerminalDC {
                mdc: 0,
                setvl: d.pf,
                vschd: Rat::zero(),
                ipr: d.f_bus,
                ipi: d.t_bus,
                tan_alpha_min: Rat::zero(),
                tan_phi_rec: Rat::zero(),
                tan_gamma_min: Rat::zero(),
                tan_phi_inv: Rat::zero(),
            },
        );
        k = k + 1;
    }
    RawNetwork {
        caseid: RawCaseId { sbase: case.base_mva, basfrq: case.f },
        buses,
        loads,
        fixed_shunts,
        switched_shunts: Vec::new(),
        generators,
        branches: lines,
        transformers: tfmrs,
        two_terminal_dc,
    }
}


/// Adding a zero of any denominator changes no value.
proof fn lemma_q_add_zero(a: Q, d: int)
    requires
        q_wf(a),
        d > 0,
    ensures
        q_eq(q_add(a, Q { n: 0, d }), a),
        q_wf(q_add(a, Q { n: 0, d })),
        q_eq(q_sub(a, Q { n: 0, d }), a),
        q_wf(q_sub(a, Q { n: 0, d })),
{
    lemma_mul_is_associative(a.n, d, a.d);
    lemma_mul_is_commutative(d, a.d);
    lemma_mul_is_associative(a.n, a.d, d);
    vstd::arithmetic::mul::lemma_mul_strictly_positive(a.d, d);
    assert(q_add(a, Q { n: 0, d }).n == a.n * d);
    assert(q_sub(a, Q { n: 0, d }).n == a.n * d);
}

/// Multiplying by any representation of one changes no value.
proof fn lemma_q_mul_one(a: Q, w: Q)
    requires
        q_wf(a),
        q_wf(w),
        q_eq(w, q_int(1)),
    ensures
        q_eq(q_mul(a, w), a),
{
    assert(w.n == w.d);
    lemma_mul_is_associative(a.n, w.n, a.d);
    lemma_mul_is_commutative(w.n, a.d);
    lemma_mul_is_associative(a.n, a.d, w.n);
}

/// Round trip of a bus's accumulated demand: the load record the bus writes
/// back carries its demand as pure constant power, so folding that record
/// onto a fresh bus restores the demand exactly, at any voltage magnitude.
pub proof fn lemma_bus_demand_round_trip(b: Bus, vm: Q)
    requires
        b.wf(),
        q_wf(vm),
    ensures
        q_eq(spec_load_pd(spec_bus_load(b), vm), b.pd@),
        q_eq(spec_load_qd(spec_bus_load(b), vm), b.qd@),
{
    let l = spec_bus_load(b);
    let vm2 = q_mul(vm, vm);
    assert(l.ip == (Rat { n: 0, d: 1 }) && l.iq == (Rat { n: 0, d: 1 }) && l.yp == (Rat {
        n: 0,
        d: 1,
    }) && l.yq == (Rat { n: 0, d: 1 }));
    assert(l.ip@ == (Q { n: 0 as int, d: 1 as int }));
    assert(q_mul(l.ip@, vm).n == 0 && q_mul(l.ip@, vm).d == vm.d) by (nonlinear_arith)
        requires
            l.ip@ == (Q { n: 0 as int, d: 1 as int }),
    ;
    assert(q_mul(l.ip@, vm) == Q { n: 0, d: vm.d });
    assert(q_mul(l.yp@, vm2).n == 0 && q_mul(l.yp@, vm2).d == vm2.d) by (nonlinear_arith)
        requires
            l.yp@ == (Q { n: 0 as int, d: 1 as int }),
    ;
    assert(q_mul(l.yp@, vm2) == Q { n: 0, d: vm2.d });
    assert(q_mul(l.iq@, vm).n == 0 && q_mul(l.iq@, vm).d == vm.d) by (nonlinear_arith)
        requires
            l.iq@ == (Q { n: 0 as int, d: 1 as int }),
    ;
    assert(q_mul(l.iq@, vm) == Q { n: 0, d: vm.d });
    assert(q_mul(l.yq@, vm2).n == 0 && q_mul(l.yq@, vm2).d == vm2.d) by (nonlinear_arith)
        requires
            l.yq@ == (Q { n: 0 as int, d: 1 as int }),
    ;
    assert(q_mul(l.yq@, vm2) == Q { n: 0, d: vm2.d });
    lemma_q_add_zero(b.pd@, vm.d);
    lemma_q_add_zero(b.qd@, vm.d);
    vstd::arithmetic::mul::lemma_mul_strictly_positive(vm.d, vm.d);
    lemma_q_add_zero(q_add(b.pd@, q_mul(l.ip@, vm)), vm2.d);
    lemma_q_eq_trans(spec_load_pd(l, vm), q_add(b.pd@, q_mul(l.ip@, vm)), b.pd@);
    lemma_q_add_zero(q_add(b.qd@, q_mul(l.iq@, vm)), vm2.d);
    lemma_q_eq_trans(spec_load_qd(l, vm), q_add(b.qd@, q_mul(l.iq@, vm)), b.qd@);
}

/// Round trip of a plain line: the raw branch record it writes back reads
/// back as the same line, to the last field.
pub proof fn lemma_line_round_trip(b: Branch, ckt: int)
    requires
        b.wf(),
        !spec_is_tfmr(b),
        b.br_status <= 1,
        b.t_bus as int <= i64::MAX as int,
    ensures
        ({
            let l = spec_line(spec_raw_line(b, ckt));
            &&& l.f_bus == b.f_bus
            &&& l.t_bus == b.t_bus
            &&& l.br_r == b.br_r
            &&& l.br_x == b.br_x
            &&& l.br_b == b.br_b
            &&& l.rate_a == b.rate_a
            &&& l.rate_b == b.rate_b
            &&& l.rate_c == b.rate_c
            &&& q_eq(l.tap@, b.tap@)
            &&& q_eq(l.shift@, b.shift@)
            &&& l.br_status == b.br_status
        }),
{
    let rb = spec_raw_line(b, ckt);
    assert(rb.j >= 0);
    assert(rb.spec_j_bus() == b.t_bus as int);
}

/// Round trip of a transformer branch whose endpoints share one base
/// voltage: the raw record it writes back (winding code 1, impedance code 1,
/// unit second winding) reads back with the same impedance and the same tap
/// ratio.
pub proof fn lemma_transformer_round_trip(b: Branch, sbase: Rat, fb: Q, tb: Q, ckt: int)
    requires
        b.wf(),
        sbase.wf(),
        q_wf(fb),
        q_wf(tb),
        q_eq(fb, tb),
        fb.n != 0,
        b.br_status <= 1,
    ensures
        ({
            let t = spec_raw_tfmr(b, sbase, ckt);
            &&& t.i == b.f_bus && t.j == b.t_bus
            &&& spec_imp_r(
                t.cz as int,
                t.r1_2@,
                t.x1_2@,
                t.sbase1_2@,
                t.nomv1@,
                fb,
                sbase@,
            ) == b.br_r@
            &&& spec_imp_x(
                t.cz as int,
                t.r1_2@,
                t.x1_2@,
                t.sbase1_2@,
                t.nomv1@,
                fb,
                sbase@,
            ) == b.br_x@
            &&& q_eq(
                spec_tap2(t.cw as int, t.windv1@, t.windv2@, t.nomv1@, t.nomv2@, fb, tb),
                b.tap@,
            )
            &&& t.ang1 == b.shift
            &&& t.stat == b.br_status
        }),
{
    let t = spec_raw_tfmr(b, sbase, ckt);
    let w = q_div(tb, fb);
    assert(q_div(b.tap@, q_int(1)) == b.tap@) by {
        assert(q_div(b.tap@, q_int(1)).n == b.tap@.n);
        assert(q_div(b.tap@, q_int(1)).d == b.tap@.d);
    }
    assert(q_eq(w, q_int(1))) by {
        if fb.n >= 0 {
            lemma_mul_is_commutative(tb.d, fb.n);
        } else {
            lemma_mul_is_commutative(tb.d, fb.n);
        }
    }
    assert(q_wf(w)) by {
        crate::rat::lemma_q_div_wf(tb, fb);
    }
    lemma_q_mul_one(b.tap@, w);
    assert(spec_tap2(1int, t.windv1@, t.windv2@, t.nomv1@, t.nomv2@, fb, tb) == q_mul(
        b.tap@,
        w,
    ));
}

} // verus!
