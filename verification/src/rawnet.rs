//! Raw-format record collections: the exchange-format side of the
//! conversion.
//!
//! Every electrical quantity is already held as an exact rational; the
//! boundary that parses the textual exchange format supplies these values.
//! A two-terminal DC line record carries, besides its plain fields, the
//! tangent factors derived from its commutation and extinction angle limits:
//! those factors come from transcendental functions that the boundary
//! evaluates, and the limit calculator here is exact in terms of them.

use vstd::prelude::*;

use crate::rat::{opt_view, opt_wf, q_wf, Q, Rat};

verus! {

/// Case identification data.
#[derive(Clone, Debug)]
pub struct RawCaseId {
    /// System base MVA.
    pub sbase: Rat,
    /// System base frequency in Hertz.
    pub basfrq: Option<Rat>,
}

impl RawCaseId {
    pub open spec fn wf(self) -> bool {
        self.sbase.wf() && opt_wf(self.basfrq)
    }
}

/// A raw bus record.
#[derive(Clone, Debug)]
pub struct RawBus {
    /// Bus number.
    pub i: usize,
    /// Bus type code.
    pub ide: usize,
    /// Bus base voltage (kV).
    pub basekv: Rat,
    /// Area number.
    pub area: usize,
    /// Zone number.
    pub zone: usize,
    /// Voltage magnitude (p.u.).
    pub vm: Rat,
    /// Voltage phase angle (degrees).
    pub va: Rat,
    /// Normal voltage magnitude high limit (p.u.).
    pub nvhi: Rat,
    /// Normal voltage magnitude low limit (p.u.).
    pub nvlo: Rat,
}

impl RawBus {
    pub open spec fn wf(self) -> bool {
        &&& self.basekv.wf()
        &&& self.vm.wf()
        &&& self.va.wf()
        &&& self.nvhi.wf()
        &&& self.nvlo.wf()
    }
}

/// A raw load record.
#[derive(Clone, Debug)]
pub struct RawLoad {
    /// Bus number.
    pub i: usize,
    /// Load identifier among the loads at bus `i`.
    pub id: usize,
    /// In-service (nonzero) or out-of-service (zero).
    pub status: usize,
    /// Area number.
    pub area: usize,
    /// Zone number.
    pub zone: usize,
    /// Active power of constant MVA load (MW).
    pub pl: Rat,
    /// Reactive power of constant MVA load (MVAr).
    pub ql: Rat,
    /// Active power of constant current load (MW at 1 p.u. voltage).
    pub ip: Rat,
    /// Reactive power of constant current load (MVAr at 1 p.u. voltage).
    pub iq: Rat,
    /// Active power of constant admittance load (MW at 1 p.u. voltage).
    pub yp: Rat,
    /// Reactive power of constant admittance load (MVAr at 1 p.u. voltage).
    pub yq: Rat,
}

impl RawLoad {
    pub open spec fn wf(self) -> bool {
        &&& self.pl.wf()
        &&& self.ql.wf()
        &&& self.ip.wf()
        &&& self.iq.wf()
        &&& self.yp.wf()
        &&& self.yq.wf()
    }
}

/// A raw fixed-shunt record.
#[derive(Clone, Debug)]
pub struct RawFixedShunt {
    /// Bus number.
    pub i: usize,
    /// Shunt identifier among the shunts at bus `i`.
    pub id: usize,
    /// In-service (nonzero) or out-of-service (zero).
    pub status: usize,
    /// Active component of shunt admittance to ground (MW at 1 p.u. voltage).
    pub gl: Rat,
    /// Reactive component of shunt admittance to ground (MVAr at 1 p.u.
    /// voltage).
    pub bl: Rat,
}

impl RawFixedShunt {
    pub open spec fn wf(self) -> bool {
        self.gl.wf() && self.bl.wf()
    }
}

/// A raw switched-shunt record.
#[derive(Clone, Debug)]
pub struct RawSwitchedShunt {
    /// Bus number.
    pub i: usize,
    /// In-service (nonzero) or out-of-service (zero).
    pub stat: usize,
    /// Initial switched shunt admittance (MVAr at 1 p.u. voltage).
    pub binit: Rat,
}

impl RawSwitchedShunt {
    pub open spec fn wf(self) -> bool {
        self.binit.wf()
    }
}

/// A raw generator record.
#[derive(Clone, Debug)]
pub struct RawGenerator {
    /// Bus number.
    pub i: usize,
    /// Machine identifier among the machines at bus `i`.
    pub id: usize,
    /// Active power output (MW).
    pub pg: Rat,
    /// Reactive power output (MVAr).
    pub qg: Rat,
    /// Maximum reactive power output (MVAr).
    pub qt: Rat,
    /// Minimum reactive power output (MVAr).
    pub qb: Rat,
    /// Regulated voltage setpoint (p.u.).
    pub vs: Rat,
    /// Total MVA base of the machine.
    pub mbase: Rat,
    /// In-service (nonzero) or out-of-service (zero).
    pub stat: usize,
    /// Maximum active power output (MW).
    pub pt: Rat,
    /// Minimum active power output (MW).
    pub pb: Rat,
}

impl RawGenerator {
    pub open spec fn wf(self) -> bool {
        &&& self.pg.wf()
        &&& self.qg.wf()
        &&& self.qt.wf()
        &&& self.qb.wf()
        &&& self.vs.wf()
        &&& self.mbase.wf()
        &&& self.pt.wf()
        &&& self.pb.wf()
    }
}

/// A raw non-transformer branch record. Everything is on the system base by
/// the conventions of the exchange format.
#[derive(Clone, Debug)]
pub struct RawBranch {
    /// "from" bus number.
    pub i: usize,
    /// "to" bus number; a negative entry designates bus `j` as the metered
    /// end, the magnitude is the bus number.
    pub j: i64,
    /// Circuit identifier among parallel branches.
    pub ckt: usize,
    /// Resistance (p.u.).
    pub r: Rat,
    /// Reactance (p.u.).
    pub x: Rat,
    /// Total charging susceptance (p.u.).
    pub b: Rat,
    /// First loading rating (MVA).
    pub rate_a: Rat,
    /// Second loading rating (MVA).
    pub rate_b: Rat,
    /// Third loading rating (MVA).
    pub rate_c: Rat,
    /// Line shunt admittance, real part, at the `i` end (p.u.).
    pub gi: Rat,
    /// Line shunt admittance, imaginary part, at the `i` end (p.u.).
    pub bi: Rat,
    /// Line shunt admittance, real part, at the `j` end (p.u.).
    pub gj: Rat,
    /// Line shunt admittance, imaginary part, at the `j` end (p.u.).
    pub bj: Rat,
    /// In-service (nonzero) or out-of-service (zero).
    pub st: usize,
}

impl RawBranch {
    pub open spec fn wf(self) -> bool {
        &&& self.r.wf()
        &&& self.x.wf()
        &&& self.b.wf()
        &&& self.rate_a.wf()
        &&& self.rate_b.wf()
        &&& self.rate_c.wf()
        &&& self.gi.wf()
        &&& self.bi.wf()
        &&& self.gj.wf()
        &&& self.bj.wf()
        &&& self.j > i64::MIN
        &&& -(usize::MAX as int) <= self.j as int <= usize::MAX as int
    }

    /// The "to" bus number, with the metered-end sign stripped.
    pub open spec fn spec_j_bus(self) -> int {
        if self.j >= 0 {
            self.j as int
        } else {
            -(self.j as int)
        }
    }

    /// The "to" bus number, with the metered-end sign stripped.
    pub fn j_bus(&self) -> (r: usize)
        requires
            self.wf(),
        ensures
            r == self.spec_j_bus(),
    {
        if self.j >= 0 {
            self.j as usize
        } else {
            (-self.j) as usize
        }
    }
}

/// A raw transformer record: a two-winding transformer when `k` is zero,
/// else a three-winding transformer coupling buses `i`, `j` and `k`.
///
/// Fields that only a three-winding record carries are optional; a record
/// that turns out to need one that is absent fails the conversion with a
/// missing-field error.
#[derive(Clone, Debug)]
pub struct RawTransformer {
    /// First winding bus number.
    pub i: usize,
    /// Second winding bus number.
    pub j: usize,
    /// Third winding bus number; zero for a two-winding transformer.
    pub k: usize,
    /// Circuit identifier among parallel transformers.
    pub ckt: usize,
    /// Winding code: how `windv1` and `windv2` are expressed (1 for p.u. of
    /// winding bus base voltage, 2 for kV).
    pub cw: i64,
    /// Impedance code: how `r1_2` and `x1_2` are expressed (1 for p.u. on
    /// system base, 2 for p.u. on winding base, 3 for load loss in watts and
    /// impedance magnitude in p.u. on winding base).
    pub cz: i64,
    /// Composite status: 0 all out, 1 all in service; for a three-winding
    /// record 2, 3 and 4 mean that only the second, third or first winding
    /// leg is out of service.
    pub stat: usize,
    /// Measured impedance between windings 1 and 2, real part (units per
    /// `cz`).
    pub r1_2: Rat,
    /// Measured impedance between windings 1 and 2, imaginary part or
    /// magnitude (units per `cz`).
    pub x1_2: Rat,
    /// Winding one to two base MVA.
    pub sbase1_2: Rat,
    /// Winding one ratio or voltage (units per `cw`).
    pub windv1: Rat,
    /// Winding one nominal voltage (kV).
    pub nomv1: Rat,
    /// Winding one phase shift angle (degrees).
    pub ang1: Rat,
    /// Winding one rating A (MVA).
    pub rata1: Rat,
    /// Winding one rating B (MVA).
    pub ratb1: Rat,
    /// Winding one rating C (MVA).
    pub ratc1: Rat,
    /// Winding two ratio or voltage (units per `cw`).
    pub windv2: Rat,
    /// Winding two nominal voltage (kV).
    pub nomv2: Rat,
    /// Measured impedance between windings 2 and 3, real part.
    pub r2_3: Option<Rat>,
    /// Measured impedance between windings 2 and 3, imaginary part or
    /// magnitude.
    pub x2_3: Option<Rat>,
    /// Winding two to three base MVA.
    pub sbase2_3: Option<Rat>,
    /// Measured impedance between windings 3 and 1, real part.
    pub r3_1: Option<Rat>,
    /// Measured impedance between windings 3 and 1, imaginary part or
    /// magnitude.
    pub x3_1: Option<Rat>,
    /// Winding three to one base MVA.
    pub sbase3_1: Option<Rat>,
    /// Star-point voltage magnitude (p.u.).
    pub vmstar: Option<Rat>,
    /// Star-point voltage angle (degrees).
    pub anstar: Option<Rat>,
    /// Winding three ratio or voltage (units per `cw`).
    pub windv3: Option<Rat>,
    /// Winding three nominal voltage (kV).
    pub nomv3: Option<Rat>,
    /// Winding two phase shift angle (degrees).
    pub ang2: Option<Rat>,
    /// Winding two rating A (MVA).
    pub rata2: Option<Rat>,
    /// Winding two rating B (MVA).
    pub ratb2: Option<Rat>,
    /// Winding two rating C (MVA).
    pub ratc2: Option<Rat>,
    /// Winding three phase shift angle (degrees).
    pub ang3: Option<Rat>,
    /// Winding three rating A (MVA).
    pub rata3: Option<Rat>,
    /// Winding three rating B (MVA).
    pub ratb3: Option<Rat>,
    /// Winding three rating C (MVA).
    pub ratc3: Option<Rat>,
}

impl RawTransformer {
    pub open spec fn wf(self) -> bool {
        &&& self.r1_2.wf()
        &&& self.x1_2.wf()
        &&& self.sbase1_2.wf()
        &&& self.windv1.wf()
        &&& self.nomv1.wf()
        &&& self.ang1.wf()
        &&& self.rata1.wf()
        &&& self.ratb1.wf()
        &&& self.ratc1.wf()
        &&& self.windv2.wf()
        &&& self.nomv2.wf()
        &&& opt_wf(self.r2_3)
        &&& opt_wf(self.x2_3)
        &&& opt_wf(self.sbase2_3)
        &&& opt_wf(self.r3_1)
        &&& opt_wf(self.x3_1)
        &&& opt_wf(self.sbase3_1)
        &&& opt_wf(self.vmstar)
        &&& opt_wf(self.anstar)
        &&& opt_wf(self.windv3)
        &&& opt_wf(self.nomv3)
        &&& opt_wf(self.ang2)
        &&& opt_wf(self.rata2)
        &&& opt_wf(self.ratb2)
        &&& opt_wf(self.ratc2)
        &&& opt_wf(self.ang3)
        &&& opt_wf(self.rata3)
        &&& opt_wf(self.ratb3)
        &&& opt_wf(self.ratc3)
    }
}

/// A raw two-terminal DC line record.
///
/// The reactive-limit calculator works from tangents of the relevant control
/// angles. Those tangents are transcendental in the angles, so the parsing
/// boundary computes them once and hands them over here:
/// `tan_alpha_min` is `tan(alfmn)`; `tan_phi_rec` is `tan(phi)` for the
/// rectifier, where `phi` combines the maximum firing angle with the maximum
/// assumed overlap angle of 60 degrees through
/// `cos(phi) = (cos(alfmx) + cos(60°)) / 2`; `tan_gamma_min` and
/// `tan_phi_inv` are the same two quantities for the inverter's extinction
/// angle limits.
#[derive(Clone, Debug)]
pub struct RawTwoTerminalDC {
    /// Control mode: 0 blocked, 1 power, 2 current.
    pub mdc: i64,
    /// Current (amps) or power (MW) demand, per `mdc`.
    pub setvl: Rat,
    /// Scheduled compounded DC voltage (kV).
    pub vschd: Rat,
    /// Rectifier converter bus number.
    pub ipr: usize,
    /// Inverter converter bus number.
    pub ipi: usize,
    /// Tangent of the minimum steady-state rectifier firing angle.
    pub tan_alpha_min: Rat,
    /// Tangent of the rectifier power-factor angle at maximum overlap.
    pub tan_phi_rec: Rat,
    /// Tangent of the minimum steady-state inverter extinction angle.
    pub tan_gamma_min: Rat,
    /// Tangent of the inverter power-factor angle at maximum overlap.
    pub tan_phi_inv: Rat,
}

impl RawTwoTerminalDC {
    pub open spec fn wf(self) -> bool {
        &&& self.setvl.wf()
        &&& self.vschd.wf()
        &&& self.tan_alpha_min.wf()
        &&& self.tan_phi_rec.wf()
        &&& self.tan_gamma_min.wf()
        &&& self.tan_phi_inv.wf()
    }
}

/// A raw network: case identification plus the ordered record collections.
#[derive(Clone, Debug)]
pub struct RawNetwork {
    /// Case identification data.
    pub caseid: RawCaseId,
    /// Bus records.
    pub buses: Vec<RawBus>,
    /// Load records.
    pub loads: Vec<RawLoad>,
    /// Fixed shunt records.
    pub fixed_shunts: Vec<RawFixedShunt>,
    /// Switched shunt records.
    pub switched_shunts: Vec<RawSwitchedShunt>,
    /// Generator records.
    pub generators: Vec<RawGenerator>,
    /// Non-transformer branch records.
    pub branches: Vec<RawBranch>,
    /// Transformer records, two- and three-winding.
    pub transformers: Vec<RawTransformer>,
    /// Two-terminal DC line records.
    pub two_terminal_dc: Vec<RawTwoTerminalDC>,
}

impl RawNetwork {
    pub open spec fn wf(self) -> bool {
        &&& self.caseid.wf()
        &&& (forall|k: int| 0 <= k < self.buses@.len() ==> (#[trigger] self.buses@[k]).wf())
        &&& (forall|k: int| 0 <= k < self.loads@.len() ==> (#[trigger] self.loads@[k]).wf())
        &&& (forall|k: int|
            0 <= k < self.fixed_shunts@.len() ==> (#[trigger] self.fixed_shunts@[k]).wf())
        &&& (forall|k: int|
            0 <= k < self.switched_shunts@.len() ==> (#[trigger] self.switched_shunts@[k]).wf())
        &&& (forall|k: int|
            0 <= k < self.generators@.len() ==> (#[trigger] self.generators@[k]).wf())
        &&& (forall|k: int| 0 <= k < self.branches@.len() ==> (#[trigger] self.branches@[k]).wf())
        &&& (forall|k: int|
            0 <= k < self.transformers@.len() ==> (#[trigger] self.transformers@[k]).wf())
        &&& (forall|k: int|
            0 <= k < self.two_terminal_dc@.len() ==> (#[trigger] self.two_terminal_dc@[k]).wf())
    }
}

} // verus!
