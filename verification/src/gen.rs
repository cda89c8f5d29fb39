//! Generator (or dispatchable load) records.

use vstd::prelude::*;

use crate::rat::{opt_view, opt_wf, q_eq, q_int, q_lt, Q, Rat};

verus! {

/// The spec-level value of a [`Gen`].
pub struct QGen {
    pub gen_bus: int,
    pub pg: Q,
    pub qg: Q,
    pub qmax: Option<Q>,
    pub qmin: Option<Q>,
    pub vg: Q,
    pub mbase: Q,
    pub gen_status: int,
    pub pmax: Option<Q>,
    pub pmin: Option<Q>,
    pub pc1: Option<Q>,
    pub pc2: Option<Q>,
    pub qc1min: Option<Q>,
    pub qc1max: Option<Q>,
    pub qc2min: Option<Q>,
    pub qc2max: Option<Q>,
    pub ramp_agc: Option<Q>,
    pub ramp_10: Option<Q>,
    pub ramp_30: Option<Q>,
    pub ramp_q: Option<Q>,
    pub apf: Option<Q>,
    pub mu_pmax: Option<Q>,
    pub mu_pmin: Option<Q>,
    pub mu_qmax: Option<Q>,
    pub mu_qmin: Option<Q>,
}

/// Whether a spec generator denotes a dispatchable load: negative lower real
/// power limit (an absent limit is unbounded below, hence negative) and a
/// zero upper limit.
pub open spec fn qgen_is_load(g: QGen) -> bool {
    &&& (g.pmin matches Some(p) ==> q_lt(p, q_int(0)))
    &&& (g.pmax matches Some(p) && q_eq(p, q_int(0)))
}

/// Generator or dispatchable load.
#[derive(Clone, Debug)]
pub struct Gen {
    /// Bus number.
    pub gen_bus: usize,
    /// Real power output (MW).
    pub pg: Rat,
    /// Reactive power output (MVAr).
    pub qg: Rat,
    /// Maximum reactive power output (MVAr); `None` is unbounded.
    pub qmax: Option<Rat>,
    /// Minimum reactive power output (MVAr); `None` is unbounded.
    pub qmin: Option<Rat>,
    /// Voltage magnitude setpoint (p.u.).
    pub vg: Rat,
    /// Total MVA base of this machine; zero means the system base.
    pub mbase: Rat,
    /// Machine status.
    pub gen_status: usize,
    /// Maximum real power output (MW); `None` is unbounded.
    pub pmax: Option<Rat>,
    /// Minimum real power output (MW); `None` is unbounded.
    pub pmin: Option<Rat>,
    /// Lower real power output of PQ capability curve (MW).
    pub pc1: Option<Rat>,
    /// Upper real power output of PQ capability curve (MW).
    pub pc2: Option<Rat>,
    /// Minimum reactive power output at Pc1 (MVAr).
    pub qc1min: Option<Rat>,
    /// Maximum reactive power output at Pc1 (MVAr).
    pub qc1max: Option<Rat>,
    /// Minimum reactive power output at Pc2 (MVAr).
    pub qc2min: Option<Rat>,
    /// Maximum reactive power output at Pc2 (MVAr).
    pub qc2max: Option<Rat>,
    /// Ramp rate for load following/AGC (MW/min).
    pub ramp_agc: Option<Rat>,
    /// Ramp rate for 10 minute reserves (MW).
    pub ramp_10: Option<Rat>,
    /// Ramp rate for 30 minute reserves (MW).
    pub ramp_30: Option<Rat>,
    /// Ramp rate for reactive power (MVAr/min).
    pub ramp_q: Option<Rat>,
    /// Area participation factor.
    pub apf: Option<Rat>,
    /// Kuhn-Tucker multiplier on upper Pg limit (u/MW).
    pub mu_pmax: Option<Rat>,
    /// Kuhn-Tucker multiplier on lower Pg limit (u/MW).
    pub mu_pmin: Option<Rat>,
    /// Kuhn-Tucker multiplier on upper Qg limit (u/MVAr).
    pub mu_qmax: Option<Rat>,
    /// Kuhn-Tucker multiplier on lower Qg limit (u/MVAr).
    pub mu_qmin: Option<Rat>,
}

impl View for Gen {
    type V = QGen;

    open spec fn view(&self) -> QGen {
        QGen {
            gen_bus: self.gen_bus as int,
            pg: self.pg@,
            qg: self.qg@,
            qmax: opt_view(self.qmax),
            qmin: opt_view(self.qmin),
            vg: self.vg@,
            mbase: self.mbase@,
            gen_status: self.gen_status as int,
            pmax: opt_view(self.pmax),
            pmin: opt_view(self.pmin),
            pc1: opt_view(self.pc1),
            pc2: opt_view(self.pc2),
            qc1min: opt_view(self.qc1min),
            qc1max: opt_view(self.qc1max),
            qc2min: opt_view(self.qc2min),
            qc2max: opt_view(self.qc2max),
            ramp_agc: opt_view(self.ramp_agc),
            ramp_10: opt_view(self.ramp_10),
            ramp_30: opt_view(self.ramp_30),
            ramp_q: opt_view(self.ramp_q),
            apf: opt_view(self.apf),
            mu_pmax: opt_view(self.mu_pmax),
            mu_pmin: opt_view(self.mu_pmin),
            mu_qmax: opt_view(self.mu_qmax),
            mu_qmin: opt_view(self.mu_qmin),
        }
    }
}

impl Gen {
    pub open spec fn wf(self) -> bool {
        &&& self.pg.wf()
        &&& self.qg.wf()
        &&& opt_wf(self.qmax)
        &&& opt_wf(self.qmin)
        &&& self.vg.wf()
        &&& self.mbase.wf()
        &&& opt_wf(self.pmax)
        &&& opt_wf(self.pmin)
        &&& opt_wf(self.pc1)
        &&& opt_wf(self.pc2)
        &&& opt_wf(self.qc1min)
        &&& opt_wf(self.qc1max)
        &&& opt_wf(self.qc2min)
        &&& opt_wf(self.qc2max)
        &&& opt_wf(self.ramp_agc)
        &&& opt_wf(self.ramp_10)
        &&& opt_wf(self.ramp_30)
        &&& opt_wf(self.ramp_q)
        &&& opt_wf(self.apf)
        &&& opt_wf(self.mu_pmax)
        &&& opt_wf(self.mu_pmin)
        &&& opt_wf(self.mu_qmax)
        &&& opt_wf(self.mu_qmin)
    }

    /// Build new [Gen].
    pub fn new(gen_bus: usize) -> (r: GenBuilder)
        ensures
            r == GenBuilder::init(gen_bus),
    {
        GenBuilder {
            gen_bus,
            pg: Rat::zero(),
            qg: Rat::zero(),
            qmax: None,
            qmin: None,
            vg: Rat::one(),
            mbase: Rat::zero(),
            gen_status: 1,
            pmax: None,
            pmin: None,
            pc1: None,
            pc2: None,
            qc1min: None,
            qc1max: None,
            qc2min: None,
            qc2max: None,
            ramp_agc: None,
            ramp_10: None,
            ramp_30: None,
            ramp_q: None,
            apf: None,
        }
    }

    /// Machine in-service.
    pub fn is_on(&self) -> (r: bool)
        ensures
            r == (self.gen_status != 0),
    {
        self.gen_status != 0
    }

    /// Machine out-of-service.
    pub fn is_off(&self) -> (r: bool)
        ensures
            r == (self.gen_status == 0),
    {
        self.gen_status == 0
    }

    /// Checks for dispatchable loads.
    pub fn is_load(&self) -> (r: bool)
        requires
            self.wf(),
        ensures
            r == qgen_is_load(self@),
    {
        let pmin_neg: bool = match &self.pmin {
            Some(p) => p.is_neg(),
            None => true,
        };
        let pmax_zero: bool = match &self.pmax {
            Some(p) => p.is_zero(),
            None => false,
        };
        pmin_neg && pmax_zero
    }

    /// The capability-curve and ramp columns are not included in the first
    /// version of the case format.
    pub fn is_version_1(&self) -> (r: bool)
        ensures
            r == (self.pc1 is None && self.pc2 is None && self.qc1min is None && self.qc1max
                is None && self.qc2min is None && self.qc2max is None && self.ramp_agc is None
                && self.ramp_10 is None && self.ramp_30 is None && self.ramp_q is None && self.apf
                is None),
    {
        self.pc1.is_none() && self.pc2.is_none() && self.qc1min.is_none() && self.qc1max.is_none()
            && self.qc2min.is_none() && self.qc2max.is_none() && self.ramp_agc.is_none()
            && self.ramp_10.is_none() && self.ramp_30.is_none() && self.ramp_q.is_none()
            && self.apf.is_none()
    }

    /// Is OPF result.
    pub fn is_opf(&self) -> (r: bool)
        ensures
            r == (self.mu_pmax is Some && self.mu_pmin is Some && self.mu_qmax is Some
                && self.mu_qmin is Some),
    {
        self.mu_pmax.is_some() && self.mu_pmin.is_some() && self.mu_qmax.is_some()
            && self.mu_qmin.is_some()
    }
}

/// Why a [`GenBuilder`] could not build. Every field has a default, so
/// nothing can go wrong; the type is kept for interface stability.
#[derive(Clone, Copy, Debug, PartialEq, Eq, Structural)]
pub enum GenBuilderError {
    Unbuildable,
}

/// Step-by-step construction of a [`Gen`], with the documented defaults.
#[derive(Clone, Debug)]
pub struct GenBuilder {
    pub gen_bus: usize,
    pub pg: Rat,
    pub qg: Rat,
    pub qmax: Option<Rat>,
    pub qmin: Option<Rat>,
    pub vg: Rat,
    pub mbase: Rat,
    pub gen_status: usize,
    pub pmax: Option<Rat>,
    pub pmin: Option<Rat>,
    pub pc1: Option<Rat>,
    pub pc2: Option<Rat>,
    pub qc1min: Option<Rat>,
    pub qc1max: Option<Rat>,
    pub qc2min: Option<Rat>,
    pub qc2max: Option<Rat>,
    pub ramp_agc: Option<Rat>,
    pub ramp_10: Option<Rat>,
    pub ramp_30: Option<Rat>,
    pub ramp_q: Option<Rat>,
    pub apf: Option<Rat>,
}

impl GenBuilder {
    /// The builder state produced by [`Gen::new`].
    pub open spec fn init(gen_bus: usize) -> GenBuilder {
        GenBuilder {
            gen_bus,
            pg: Rat { n: 0, d: 1 },
            qg: Rat { n: 0, d: 1 },
            qmax: None,
            qmin: None,
            vg: Rat { n: 1, d: 1 },
            mbase: Rat { n: 0, d: 1 },
            gen_status: 1,
            pmax: None,
            pmin: None,
            pc1: None,
            pc2: None,
            qc1min: None,
            qc1max: None,
            qc2min: None,
            qc2max: None,
            ramp_agc: None,
            ramp_10: None,
            ramp_30: None,
            ramp_q: None,
            apf: None,
        }
    }

    pub open spec fn wf(self) -> bool {
        &&& self.pg.wf()
        &&& self.qg.wf()
        &&& opt_wf(self.qmax)
        &&& opt_wf(self.qmin)
        &&& self.vg.wf()
        &&& self.mbase.wf()
        &&& opt_wf(self.pmax)
        &&& opt_wf(self.pmin)
        &&& opt_wf(self.pc1)
        &&& opt_wf(self.pc2)
        &&& opt_wf(self.qc1min)
        &&& opt_wf(self.qc1max)
        &&& opt_wf(self.qc2min)
        &&& opt_wf(self.qc2max)
        &&& opt_wf(self.ramp_agc)
        &&& opt_wf(self.ramp_10)
        &&& opt_wf(self.ramp_30)
        &&& opt_wf(self.ramp_q)
        &&& opt_wf(self.apf)
    }

    pub fn pg(self, v: Rat) -> (r: Self)
        ensures
            r == (GenBuilder { pg: v, ..self }),
    {
        GenBuilder { pg: v, ..self }
    }

    pub fn qg(self, v: Rat) -> (r: Self)
        ensures
            r == (GenBuilder { qg: v, ..self }),
    {
        GenBuilder { qg: v, ..self }
    }

    pub fn qmax(self, v: Rat) -> (r: Self)
        ensures
            r == (GenBuilder { qmax: Some(v), ..self }),
    {
        GenBuilder { qmax: Some(v), ..self }
    }

    pub fn qmin(self, v: Rat) -> (r: Self)
        ensures
            r == (GenBuilder { qmin: Some(v), ..self }),
    {
        GenBuilder { qmin: Some(v), ..self }
    }

    pub fn vg(self, v: Rat) -> (r: Self)
        ensures
            r == (GenBuilder { vg: v, ..self }),
    {
        GenBuilder { vg: v, ..self }
    }

    pub fn mbase(self, v: Rat) -> (r: Self)
        ensures
            r == (GenBuilder { mbase: v, ..self }),
    {
        GenBuilder { mbase: v, ..self }
    }

    pub fn gen_status(self, v: usize) -> (r: Self)
        ensures
            r == (GenBuilder { gen_status: v, ..self }),
    {
        GenBuilder { gen_status: v, ..self }
    }

    /// In-service gen status.
    pub fn in_service(self) -> (r: Self)
        ensures
            r == (GenBuilder { gen_status: 1usize, ..self }),
    {
        GenBuilder { gen_status: 1, ..self }
    }

    /// Out-of-service gen status.
    pub fn out_of_service(self) -> (r: Self)
        ensures
            r == (GenBuilder { gen_status: 0usize, ..self }),
    {
        GenBuilder { gen_status: 0, ..self }
    }

    pub fn pmax(self, v: Rat) -> (r: Self)
        ensures
            r == (GenBuilder { pmax: Some(v), ..self }),
    {
        GenBuilder { pmax: Some(v), ..self }
    }

    pub fn pmin(self, v: Rat) -> (r: Self)
        ensures
            r == (GenBuilder { pmin: Some(v), ..self }),
    {
        GenBuilder { pmin: Some(v), ..self }
    }

    pub fn pc1(self, v: Rat) -> (r: Self)
        ensures
            r == (GenBuilder { pc1: Some(v), ..self }),
    {
        GenBuilder { pc1: Some(v), ..self }
    }

    pub fn pc2(self, v: Rat) -> (r: Self)
        ensures
            r == (GenBuilder { pc2: Some(v), ..self }),
    {
        GenBuilder { pc2: Some(v), ..self }
    }

    pub fn qc1min(self, v: Rat) -> (r: Self)
        ensures
            r == (GenBuilder { qc1min: Some(v), ..self }),
    {
        GenBuilder { qc1min: Some(v), ..self }
    }

    pub fn qc1max(self, v: Rat) -> (r: Self)
        ensures
            r == (GenBuilder { qc1max: Some(v), ..self }),
    {
        GenBuilder { qc1max: Some(v), ..self }
    }

    pub fn qc2min(self, v: Rat) -> (r: Self)
        ensures
            r == (GenBuilder { qc2min: Some(v), ..self }),
    {
        GenBuilder { qc2min: Some(v), ..self }
    }

    pub fn qc2max(self, v: Rat) -> (r: Self)
        ensures
            r == (GenBuilder { qc2max: Some(v), ..self }),
    {
        GenBuilder { qc2max: Some(v), ..self }
    }

    pub fn ramp_agc(self, v: Rat) -> (r: Self)
        ensures
            r == (GenBuilder { ramp_agc: Some(v), ..self }),
    {
        GenBuilder { ramp_agc: Some(v), ..self }
    }

    pub fn ramp_10(self, v: Rat) -> (r: Self)
        ensures
            r == (GenBuilder { ramp_10: Some(v), ..self }),
    {
        GenBuilder { ramp_10: Some(v), ..self }
    }

    pub fn ramp_30(self, v: Rat) -> (r: Self)
        ensures
            r == (GenBuilder { ramp_30: Some(v), ..self }),
    {
        GenBuilder { ramp_30: Some(v), ..self }
    }

    pub fn ramp_q(self, v: Rat) -> (r: Self)
        ensures
            r == (GenBuilder { ramp_q: Some(v), ..self }),
    {
        GenBuilder { ramp_q: Some(v), ..self }
    }

    pub fn apf(self, v: Rat) -> (r: Self)
        ensures
            r == (GenBuilder { apf: Some(v), ..self }),
    {
        GenBuilder { apf: Some(v), ..self }
    }

    /// Finish the generator; never fails.
    pub fn build(self) -> (r: Result<Gen, GenBuilderError>)
        requires
            self.wf(),
        ensures
            r matches Ok(g) && g.wf() && g == (Gen {
                gen_bus: self.gen_bus,
                pg: self.pg,
                qg: self.qg,
                qmax: self.qmax,
                qmin: self.qmin,
                vg: self.vg,
                mbase: self.mbase,
                gen_status: self.gen_status,
                pmax: self.pmax,
                pmin: self.pmin,
                pc1: self.pc1,
                pc2: self.pc2,
                qc1min: self.qc1min,
                qc1max: self.qc1max,
                qc2min: self.qc2min,
                qc2max: self.qc2max,
                ramp_agc: self.ramp_agc,
                ramp_10: self.ramp_10,
                ramp_30: self.ramp_30,
                ramp_q: self.ramp_q,
                apf: self.apf,
                mu_pmax: None,
                mu_pmin: None,
                mu_qmax: None,
                mu_qmin: None,
            }),
    {
        Ok(
            Gen {
                gen_bus: self.gen_bus,
                pg: self.pg,
                qg: self.qg,
                qmax: self.qmax,
                qmin: self.qmin,
                vg: self.vg,
                mbase: self.mbase,
                gen_status: self.gen_status,
                pmax: self.pmax,
                pmin: self.pmin,
                pc1: self.pc1,
                pc2: self.pc2,
                qc1min: self.qc1min,
                qc1max: self.qc1max,
                qc2min: self.qc2min,
                qc2max: self.qc2max,
                ramp_agc: self.ramp_agc,
                ramp_10: self.ramp_10,
                ramp_30: self.ramp_30,
                ramp_q: self.ramp_q,
                apf: self.apf,
                mu_pmax: None,
                mu_pmin: None,
                mu_qmax: None,
                mu_qmin: None,
            },
        )
    }
}

} // verus!
