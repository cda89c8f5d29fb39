//! Referential validation of a normalized case: bus numbers are pairwise
//! distinct, and every generator, branch and DC-line endpoint references an
//! existing bus.

use vstd::prelude::*;

use crate::branch::Branch;
use crate::bus::Bus;
use crate::convert::{bus_ids, find_bus, pos_of};
use crate::dcline::DCLine;
use crate::gen::Gen;
use crate::rat::q_lt;

verus! {

/// Why a case failed validation.
#[derive(Clone, Copy, Debug, PartialEq, Eq, Structural)]
pub enum ValidateError {
    /// Two buses share this number.
    DuplicateBusNumber { bus: usize },
    /// A generator references this absent bus number.
    GenBusMissing { bus: usize },
    /// A branch's "from" end references this absent bus number.
    BranchFromBusMissing { bus: usize },
    /// A branch's "to" end references this absent bus number.
    BranchToBusMissing { bus: usize },
    /// A DC line's "from" end references this absent bus number.
    DCLineFromBusMissing { bus: usize },
    /// A DC line's "to" end references this absent bus number.
    DCLineToBusMissing { bus: usize },
    /// A generator's upper reactive limit lies below its lower one.
    GenReactiveLimitsInverted { bus: usize },
    /// A generator's upper real limit lies below its lower one.
    GenRealLimitsInverted { bus: usize },
    /// Some but not all of a generator's capability-curve and ramp fields
    /// are set.
    GenCurveFieldsIncomplete { bus: usize },
    /// Some but not all of a generator's multiplier results are set.
    GenMultipliersIncomplete { bus: usize },
    /// A branch joins a bus to itself.
    BranchSelfLoop { bus: usize },
    /// One angle-difference limit of a branch is set without the other.
    BranchAngleLimitsIncomplete { f_bus: usize, t_bus: usize },
    /// Some but not all of a branch's flow results are set, or flows are set
    /// without angle limits.
    BranchFlowsIncomplete { f_bus: usize, t_bus: usize },
    /// Some but not all of a branch's multiplier results are set, or they
    /// are set without flows or angle limits.
    BranchMultipliersIncomplete { f_bus: usize, t_bus: usize },
}

/// Whether all of a generator's capability-curve and ramp fields are set.
pub open spec fn gen_curve_all_set(g: Gen) -> bool {
    &&& g.pc1 is Some
    &&& g.pc2 is Some
    &&& g.qc1min is Some
    &&& g.qc1max is Some
    &&& g.qc2min is Some
    &&& g.qc2max is Some
    &&& g.ramp_agc is Some
    &&& g.ramp_10 is Some
    &&& g.ramp_30 is Some
    &&& g.ramp_q is Some
    &&& g.apf is Some
}

/// Whether any of a generator's capability-curve and ramp fields is set.
pub open spec fn gen_curve_any_set(g: Gen) -> bool {
    ||| g.pc1 is Some
    ||| g.pc2 is Some
    ||| g.qc1min is Some
    ||| g.qc1max is Some
    ||| g.qc2min is Some
    ||| g.qc2max is Some
    ||| g.ramp_agc is Some
    ||| g.ramp_10 is Some
    ||| g.ramp_30 is Some
    ||| g.ramp_q is Some
    ||| g.apf is Some
}

/// Check one generator's field consistency: ordered limits (an absent limit
/// is unbounded and never inverted), the capability-curve and ramp fields
/// all set if any is, and the multiplier results all set if any is, in which
/// case the curve fields must be set too.
pub fn validate_gen(g: &Gen) -> (r: Result<(), ValidateError>)
    requires
        g.wf(),
    ensures
        r is Ok <==> ({
            &&& !(g.qmax matches Some(qmax) && g.qmin matches Some(qmin) && q_lt(qmax@, qmin@))
            &&& !(g.pmax matches Some(pmax) && g.pmin matches Some(pmin) && q_lt(pmax@, pmin@))
            &&& (gen_curve_any_set(*g) ==> gen_curve_all_set(*g))
            &&& ((g.mu_pmax is Some || g.mu_pmin is Some || g.mu_qmax is Some || g.mu_qmin
                is Some) ==> (g.mu_pmax is Some && g.mu_pmin is Some && g.mu_qmax is Some
                && g.mu_qmin is Some && gen_curve_all_set(*g)))
        }),
{
    if let (Some(qmax), Some(qmin)) = (&g.qmax, &g.qmin) {
        if qmax.lt(qmin) {
            return Err(ValidateError::GenReactiveLimitsInverted { bus: g.gen_bus });
        }
    }
    if let (Some(pmax), Some(pmin)) = (&g.pmax, &g.pmin) {
        if pmax.lt(pmin) {
            return Err(ValidateError::GenRealLimitsInverted { bus: g.gen_bus });
        }
    }
    let curve_any = g.pc1.is_some() || g.pc2.is_some() || g.qc1min.is_some() || g.qc1max.is_some()
        || g.qc2min.is_some() || g.qc2max.is_some() || g.ramp_agc.is_some() || g.ramp_10.is_some()
        || g.ramp_30.is_some() || g.ramp_q.is_some() || g.apf.is_some();
    let curve_all = g.pc1.is_some() && g.pc2.is_some() && g.qc1min.is_some() && g.qc1max.is_some()
        && g.qc2min.is_some() && g.qc2max.is_some() && g.ramp_agc.is_some() && g.ramp_10.is_some()
        && g.ramp_30.is_some() && g.ramp_q.is_some() && g.apf.is_some();
    if curve_any && !curve_all {
        return Err(ValidateError::GenCurveFieldsIncomplete { bus: g.gen_bus });
    }
    let mu_any = g.mu_pmax.is_some() || g.mu_pmin.is_some() || g.mu_qmax.is_some()
        || g.mu_qmin.is_some();
    let mu_all = g.mu_pmax.is_some() && g.mu_pmin.is_some() && g.mu_qmax.is_some()
        && g.mu_qmin.is_some();
    if mu_any && !(mu_all && curve_all) {
        return Err(ValidateError::GenMultipliersIncomplete { bus: g.gen_bus });
    }
    Ok(())
}

/// Check one branch's field consistency: distinct endpoints, both angle
/// limits set if one is, all four flow results set (with the angle limits)
/// if any is, and all four multiplier results set (with flows and angle
/// limits) if any is.
pub fn validate_branch(br: &Branch) -> (r: Result<(), ValidateError>)
    ensures
        r is Ok <==> ({
            let anglim_all = br.angmin is Some && br.angmax is Some;
            let flows_any = br.pf is Some || br.qf is Some || br.pt is Some || br.qt is Some;
            let flows_all = br.pf is Some && br.qf is Some && br.pt is Some && br.qt is Some;
            let mu_any = br.mu_sf is Some || br.mu_st is Some || br.mu_angmin is Some
                || br.mu_angmax is Some;
            let mu_all = br.mu_sf is Some && br.mu_st is Some && br.mu_angmin is Some
                && br.mu_angmax is Some;
            &&& br.f_bus != br.t_bus
            &&& ((br.angmin is Some || br.angmax is Some) ==> anglim_all)
            &&& (flows_any ==> (anglim_all && flows_all))
            &&& (mu_any ==> (anglim_all && flows_all && mu_all))
        }),
{
    if br.f_bus == br.t_bus {
        return Err(ValidateError::BranchSelfLoop { bus: br.f_bus });
    }
    let anglim_all = br.angmin.is_some() && br.angmax.is_some();
    if (br.angmin.is_some() || br.angmax.is_some()) && !anglim_all {
        return Err(
            ValidateError::BranchAngleLimitsIncomplete { f_bus: br.f_bus, t_bus: br.t_bus },
        );
    }
    let flows_any = br.pf.is_some() || br.qf.is_some() || br.pt.is_some() || br.qt.is_some();
    let flows_all = br.pf.is_some() && br.qf.is_some() && br.pt.is_some() && br.qt.is_some();
    if flows_any && !(anglim_all && flows_all) {
        return Err(ValidateError::BranchFlowsIncomplete { f_bus: br.f_bus, t_bus: br.t_bus });
    }
    let mu_any = br.mu_sf.is_some() || br.mu_st.is_some() || br.mu_angmin.is_some()
        || br.mu_angmax.is_some();
    let mu_all = br.mu_sf.is_some() && br.mu_st.is_some() && br.mu_angmin.is_some()
        && br.mu_angmax.is_some();
    if mu_any && !(anglim_all && flows_all && mu_all) {
        return Err(
            ValidateError::BranchMultipliersIncomplete { f_bus: br.f_bus, t_bus: br.t_bus },
        );
    }
    Ok(())
}

/// Check the case's referential invariants: succeeds exactly when the bus
/// numbers are pairwise distinct and every reference made by the supplied
/// collections resolves.
#[verifier::loop_isolation(false)]
pub fn validate_bus_numbers(
    bus: &Vec<Bus>,
    gen: Option<&Vec<Gen>>,
    branch: Option<&Vec<Branch>>,
    dcline: Option<&Vec<DCLine>>,
) -> (r: Result<(), ValidateError>)
    ensures
        r is Ok <==> ({
            let ids = bus_ids(bus@);
            &&& (forall|m: int, n: int| 0 <= m < n < ids.len() ==> ids[m] != ids[n])
            &&& (gen matches Some(g) ==> forall|k: int|
                0 <= k < g@.len() ==> pos_of(ids, (#[trigger] g@[k]).gen_bus as int) is Some)
            &&& (branch matches Some(b) ==> forall|k: int|
                0 <= k < b@.len() ==> pos_of(ids, (#[trigger] b@[k]).f_bus as int) is Some
                    && pos_of(ids, b@[k].t_bus as int) is Some)
            &&& (dcline matches Some(d) ==> forall|k: int|
                0 <= k < d@.len() ==> pos_of(ids, (#[trigger] d@[k]).f_bus as int) is Some
                    && pos_of(ids, d@[k].t_bus as int) is Some)
        }),
        (r matches Err(e) ==> ({
            let ids = bus_ids(bus@);
            &&& (e matches ValidateError::DuplicateBusNumber { bus: dup } ==> exists|m: int, n: int|
                0 <= m < n < ids.len() && #[trigger] ids[m] == #[trigger] ids[n] && ids[n]
                    == dup as int)
            &&& (e matches ValidateError::GenBusMissing { bus: missing } ==> pos_of(
                ids,
                missing as int,
            ) is None && (gen matches Some(g) && exists|k: int|
                0 <= k < g@.len() && (#[trigger] g@[k]).gen_bus == missing))
            &&& (e matches ValidateError::BranchFromBusMissing { bus: missing } ==> pos_of(
                ids,
                missing as int,
            ) is None && (branch matches Some(b) && exists|k: int|
                0 <= k < b@.len() && (#[trigger] b@[k]).f_bus == missing))
            &&& (e matches ValidateError::BranchToBusMissing { bus: missing } ==> pos_of(
                ids,
                missing as int,
            ) is None && (branch matches Some(b) && exists|k: int|
                0 <= k < b@.len() && (#[trigger] b@[k]).t_bus == missing))
            &&& (e matches ValidateError::DCLineFromBusMissing { bus: missing } ==> pos_of(
                ids,
                missing as int,
            ) is None && (dcline matches Some(d) && exists|k: int|
                0 <= k < d@.len() && (#[trigger] d@[k]).f_bus == missing))
            &&& (e matches ValidateError::DCLineToBusMissing { bus: missing } ==> pos_of(
                ids,
                missing as int,
            ) is None && (dcline matches Some(d) && exists|k: int|
                0 <= k < d@.len() && (#[trigger] d@[k]).t_bus == missing))
            &&& !(e matches ValidateError::GenReactiveLimitsInverted { .. })
            &&& !(e matches ValidateError::GenRealLimitsInverted { .. })
            &&& !(e matches ValidateError::GenCurveFieldsIncomplete { .. })
            &&& !(e matches ValidateError::GenMultipliersIncomplete { .. })
            &&& !(e matches ValidateError::BranchSelfLoop { .. })
            &&& !(e matches ValidateError::BranchAngleLimitsIncomplete { .. })
            &&& !(e matches ValidateError::BranchFlowsIncomplete { .. })
            &&& !(e matches ValidateError::BranchMultipliersIncomplete { .. })
        })),
{
    let ghost ids = bus_ids(bus@);
    let nb = bus.len();
    let mut k: usize = 0;
    while k < nb
        invariant
            k <= nb,
            forall|m: int, n: int| 0 <= m < n < k ==> ids[m] != ids[n],
        decreases nb - k,
    {
        let mut j: usize = 0;
        while j < k
            invariant
                j <= k,
                k < nb,
                forall|m: int| 0 <= m < j ==> ids[m] != ids[k as int],
            decreases k - j,
        {
            if bus[j].bus_i == bus[k].bus_i {
                proof {
                    assert(ids[j as int] == ids[k as int]);
                    assert((j as int) < (k as int) < ids.len());
                }
                return Err(ValidateError::DuplicateBusNumber { bus: bus[k].bus_i });
            }
            j = j + 1;
        }
        k = k + 1;
    }
    proof {
        assert forall|m: int, n: int| 0 <= m < n < ids.len() implies ids[m] != ids[n] by {}
    }
    match gen {
        Some(g) => {
            let mut k: usize = 0;
            while k < g.len()
                invariant
                    k <= g@.len(),
                    forall|j: int|
                        0 <= j < k ==> pos_of(ids, (#[trigger] g@[j]).gen_bus as int) is Some,
                decreases g@.len() - k,
            {
                match find_bus(bus, g[k].gen_bus) {
                    Some(_) => {},
                    None => {
                        proof {
                            assert(!(pos_of(ids, g@[k as int].gen_bus as int) is Some));
                        }
                        return Err(ValidateError::GenBusMissing { bus: g[k].gen_bus });
                    },
                }
                k = k + 1;
            }
        },
        None => {},
    }
    match branch {
        Some(b) => {
            let mut k: usize = 0;
            while k < b.len()
                invariant
                    k <= b@.len(),
                    forall|j: int|
                        0 <= j < k ==> pos_of(ids, (#[trigger] b@[j]).f_bus as int) is Some
                            && pos_of(ids, b@[j].t_bus as int) is Some,
                decreases b@.len() - k,
            {
                match find_bus(bus, b[k].f_bus) {
                    Some(_) => {},
                    None => {
                        proof {
                            assert(!(pos_of(ids, b@[k as int].f_bus as int) is Some));
                        }
                        return Err(ValidateError::BranchFromBusMissing { bus: b[k].f_bus });
                    },
                }
                match find_bus(bus, b[k].t_bus) {
                    Some(_) => {},
                    None => {
                        proof {
                            assert(!(pos_of(ids, b@[k as int].t_bus as int) is Some));
                        }
                        return Err(ValidateError::BranchToBusMissing { bus: b[k].t_bus });
                    },
                }
                k = k + 1;
            }
        },
        None => {},
    }
    match dcline {
        Some(d) => {
            let mut k: usize = 0;
            while k < d.len()
                invariant
                    k <= d@.len(),
                    forall|j: int|
                        0 <= j < k ==> pos_of(ids, (#[trigger] d@[j]).f_bus as int) is Some
                            && pos_of(ids, d@[j].t_bus as int) is Some,
                decreases d@.len() - k,
            {
                match find_bus(bus, d[k].f_bus) {
                    Some(_) => {},
                    None => {
                        proof {
                            assert(!(pos_of(ids, d@[k as int].f_bus as int) is Some));
                        }
                        return Err(ValidateError::DCLineFromBusMissing { bus: d[k].f_bus });
                    },
                }
                match find_bus(bus, d[k].t_bus) {
                    Some(_) => {},
                    None => {
                        proof {
                            assert(!(pos_of(ids, d@[k as int].t_bus as int) is Some));
                        }
                        return Err(ValidateError::DCLineToBusMissing { bus: d[k].t_bus });
                    },
                }
                k = k + 1;
            }
        },
        None => {},
    }
    Ok(())
}

} // verus!
