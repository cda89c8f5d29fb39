//! Normalized bus records.

use vstd::prelude::*;

use crate::rat::{opt_q_eq, opt_view, opt_wf, q_eq, q_wf, Q, Rat};

verus! {

pub type BusType = usize;

/// PQ bus type.
pub const PQ: BusType = 1;

/// PV bus type.
pub const PV: BusType = 2;

/// Reference bus type.
pub const REF: BusType = 3;

/// Isolated bus type.
pub const NONE: BusType = 4;

/// The spec-level value of a [`Bus`].
pub struct QBus {
    pub bus_i: int,
    pub bus_type: int,
    pub pd: Q,
    pub qd: Q,
    pub gs: Q,
    pub bs: Q,
    pub bus_area: int,
    pub vm: Q,
    pub va: Q,
    pub base_kv: Q,
    pub zone: int,
    pub vmax: Option<Q>,
    pub vmin: Option<Q>,
    pub lam_p: Option<Q>,
    pub lam_q: Option<Q>,
    pub mu_vmax: Option<Q>,
    pub mu_vmin: Option<Q>,
}

/// A normalized bus record, all quantities on the system base.
#[derive(Clone, Debug)]
pub struct Bus {
    /// Bus number.
    pub bus_i: usize,
    /// Bus type.
    pub bus_type: usize,
    /// Real power demand (MW).
    pub pd: Rat,
    /// Reactive power demand (MVAr).
    pub qd: Rat,
    /// Shunt conductance (MW at V = 1.0 p.u.).
    pub gs: Rat,
    /// Shunt susceptance (MVAr at V = 1.0 p.u.).
    pub bs: Rat,
    /// Area number.
    pub bus_area: usize,
    /// Voltage magnitude (p.u.).
    pub vm: Rat,
    /// Voltage angle (degrees).
    pub va: Rat,
    /// Base voltage (kV).
    pub base_kv: Rat,
    /// Loss zone.
    pub zone: usize,
    /// Maximum voltage magnitude (p.u.); `None` is unbounded.
    pub vmax: Option<Rat>,
    /// Minimum voltage magnitude (p.u.); `None` is unbounded.
    pub vmin: Option<Rat>,
    /// Lagrange multiplier on real power mismatch (u/MW).
    pub lam_p: Option<Rat>,
    /// Lagrange multiplier on reactive power mismatch (u/MVAr).
    pub lam_q: Option<Rat>,
    /// Kuhn-Tucker multiplier on upper voltage limit (u/p.u.).
    pub mu_vmax: Option<Rat>,
    /// Kuhn-Tucker multiplier on lower voltage limit (u/p.u.).
    pub mu_vmin: Option<Rat>,
}

impl View for Bus {
    type V = QBus;

    open spec fn view(&self) -> QBus {
        QBus {
            bus_i: self.bus_i as int,
            bus_type: self.bus_type as int,
            pd: self.pd@,
            qd: self.qd@,
            gs: self.gs@,
            bs: self.bs@,
            bus_area: self.bus_area as int,
            vm: self.vm@,
            va: self.va@,
            base_kv: self.base_kv@,
            zone: self.zone as int,
            vmax: opt_view(self.vmax),
            vmin: opt_view(self.vmin),
            lam_p: opt_view(self.lam_p),
            lam_q: opt_view(self.lam_q),
            mu_vmax: opt_view(self.mu_vmax),
            mu_vmin: opt_view(self.mu_vmin),
        }
    }
}

impl Bus {
    /// Well-formedness: every rational field is well-formed.
    pub open spec fn wf(self) -> bool {
        &&& self.pd.wf()
        &&& self.qd.wf()
        &&& self.gs.wf()
        &&& self.bs.wf()
        &&& self.vm.wf()
        &&& self.va.wf()
        &&& self.base_kv.wf()
        &&& opt_wf(self.vmax)
        &&& opt_wf(self.vmin)
        &&& opt_wf(self.lam_p)
        &&& opt_wf(self.lam_q)
        &&& opt_wf(self.mu_vmax)
        &&& opt_wf(self.mu_vmin)
    }

    /// Build a new [Bus].
    pub fn new(bus_i: usize) -> (r: BusBuilder)
        ensures
            r == BusBuilder::init(bus_i),
    {
        BusBuilder {
            bus_i,
            bus_type: PQ,
            pd: Rat::zero(),
            qd: Rat::zero(),
            gs: Rat::zero(),
            bs: Rat::zero(),
            bus_area: 1,
            vm: Rat::one(),
            va: Rat::zero(),
            base_kv: None,
            zone: 1,
            vmax: None,
            vmin: None,
        }
    }

    /// Fixed active and reactive power.
    pub fn is_pq(&self) -> (r: bool)
        ensures
            r == (self.bus_type == PQ),
    {
        self.bus_type == PQ
    }

    /// Fixed voltage magnitude and active power.
    pub fn is_pv(&self) -> (r: bool)
        ensures
            r == (self.bus_type == PV),
    {
        self.bus_type == PV
    }

    /// Voltage angle reference. Slack active and reactive power.
    pub fn is_ref(&self) -> (r: bool)
        ensures
            r == (self.bus_type == REF),
    {
        self.bus_type == REF
    }

    /// Isolated bus.
    pub fn is_isolated(&self) -> (r: bool)
        ensures
            r == (self.bus_type != PQ && self.bus_type != PV && self.bus_type != REF),
    {
        !(self.is_pq() || self.is_pv() || self.is_ref())
    }

    /// Is OPF result.
    pub fn is_opf(&self) -> (r: bool)
        ensures
            r == (self.lam_p is Some && self.lam_q is Some && self.mu_vmax is Some
                && self.mu_vmin is Some),
    {
        self.lam_p.is_some() && self.lam_q.is_some() && self.mu_vmax.is_some()
            && self.mu_vmin.is_some()
    }
}

/// Why a [`BusBuilder`] could not build.
#[derive(Clone, Copy, Debug, PartialEq, Eq, Structural)]
pub enum BusBuilderError {
    /// The base voltage was never given.
    UninitializedBaseKv,
}

/// Step-by-step construction of a [`Bus`], with the documented defaults.
#[derive(Clone, Debug)]
pub struct BusBuilder {
    pub bus_i: usize,
    pub bus_type: usize,
    pub pd: Rat,
    pub qd: Rat,
    pub gs: Rat,
    pub bs: Rat,
    pub bus_area: usize,
    pub vm: Rat,
    pub va: Rat,
    pub base_kv: Option<Rat>,
    pub zone: usize,
    pub vmax: Option<Rat>,
    pub vmin: Option<Rat>,
}

impl BusBuilder {
    /// The builder state produced by [`Bus::new`].
    pub open spec fn init(bus_i: usize) -> BusBuilder {
        BusBuilder {
            bus_i,
            bus_type: PQ,
            pd: Rat { n: 0, d: 1 },
            qd: Rat { n: 0, d: 1 },
            gs: Rat { n: 0, d: 1 },
            bs: Rat { n: 0, d: 1 },
            bus_area: 1,
            vm: Rat { n: 1, d: 1 },
            va: Rat { n: 0, d: 1 },
            base_kv: None,
            zone: 1,
            vmax: None,
            vmin: None,
        }
    }

    /// Well-formedness of the pending fields.
    pub open spec fn wf(self) -> bool {
        &&& self.pd.wf()
        &&& self.qd.wf()
        &&& self.gs.wf()
        &&& self.bs.wf()
        &&& self.vm.wf()
        &&& self.va.wf()
        &&& opt_wf(self.base_kv)
        &&& opt_wf(self.vmax)
        &&& opt_wf(self.vmin)
    }

    pub fn bus_type(self, v: usize) -> (r: Self)
        ensures
            r == (BusBuilder { bus_type: v, ..self }),
    {
        BusBuilder { bus_type: v, ..self }
    }

    /// PQ bus type.
    pub fn pq(self) -> (r: Self)
        ensures
            r == (BusBuilder { bus_type: PQ, ..self }),
    {
        BusBuilder { bus_type: PQ, ..self }
    }

    /// PV bus type.
    pub fn pv(self) -> (r: Self)
        ensures
            r == (BusBuilder { bus_type: PV, ..self }),
    {
        BusBuilder { bus_type: PV, ..self }
    }

    /// Reference bus type.
    pub fn slack(self) -> (r: Self)
        ensures
            r == (BusBuilder { bus_type: REF, ..self }),
    {
        BusBuilder { bus_type: REF, ..self }
    }

    pub fn pd(self, v: Rat) -> (r: Self)
        ensures
            r == (BusBuilder { pd: v, ..self }),
    {
        BusBuilder { pd: v, ..self }
    }

    pub fn qd(self, v: Rat) -> (r: Self)
        ensures
            r == (BusBuilder { qd: v, ..self }),
    {
        BusBuilder { qd: v, ..self }
    }

    pub fn gs(self, v: Rat) -> (r: Self)
        ensures
            r == (BusBuilder { gs: v, ..self }),
    {
        BusBuilder { gs: v, ..self }
    }

    pub fn bs(self, v: Rat) -> (r: Self)
        ensures
            r == (BusBuilder { bs: v, ..self }),
    {
        BusBuilder { bs: v, ..self }
    }

    pub fn bus_area(self, v: usize) -> (r: Self)
        ensures
            r == (BusBuilder { bus_area: v, ..self }),
    {
        BusBuilder { bus_area: v, ..self }
    }

    pub fn vm(self, v: Rat) -> (r: Self)
        ensures
            r == (BusBuilder { vm: v, ..self }),
    {
        BusBuilder { vm: v, ..self }
    }

    pub fn va(self, v: Rat) -> (r: Self)
        ensures
            r == (BusBuilder { va: v, ..self }),
    {
        BusBuilder { va: v, ..self }
    }

    pub fn base_kv(self, v: Rat) -> (r: Self)
        ensures
            r == (BusBuilder { base_kv: Some(v), ..self }),
    {
        BusBuilder { base_kv: Some(v), ..self }
    }

    pub fn zone(self, v: usize) -> (r: Self)
        ensures
            r == (BusBuilder { zone: v, ..self }),
    {
        BusBuilder { zone: v, ..self }
    }

    pub fn vmax(self, v: Rat) -> (r: Self)
        ensures
            r == (BusBuilder { vmax: Some(v), ..self }),
    {
        BusBuilder { vmax: Some(v), ..self }
    }

    pub fn vmin(self, v: Rat) -> (r: Self)
        ensures
            r == (BusBuilder { vmin: Some(v), ..self }),
    {
        BusBuilder { vmin: Some(v), ..self }
    }

    /// Finish the bus. Fails exactly when no base voltage was given.
    pub fn build(self) -> (r: Result<Bus, BusBuilderError>)
        requires
            self.wf(),
        ensures
            (self.base_kv matches Some(kv) ==> (r matches Ok(b) && b.wf() && b == (Bus {
                bus_i: self.bus_i,
                bus_type: self.bus_type,
                pd: self.pd,
                qd: self.qd,
                gs: self.gs,
                bs: self.bs,
                bus_area: self.bus_area,
                vm: self.vm,
                va: self.va,
                base_kv: kv,
                zone: self.zone,
                vmax: self.vmax,
                vmin: self.vmin,
                lam_p: None,
                lam_q: None,
                mu_vmax: None,
                mu_vmin: None,
            }))),
            r is Err <==> self.base_kv is None,
    {
        match self.base_kv {
            Some(kv) => Ok(
                Bus {
                    bus_i: self.bus_i,
                    bus_type: self.bus_type,
                    pd: self.pd,
                    qd: self.qd,
                    gs: self.gs,
                    bs: self.bs,
                    bus_area: self.bus_area,
                    vm: self.vm,
                    va: self.va,
                    base_kv: kv,
                    zone: self.zone,
                    vmax: self.vmax,
                    vmin: self.vmin,
                    lam_p: None,
                    lam_q: None,
                    mu_vmax: None,
                    mu_vmin: None,
                },
            ),
            None => Err(BusBuilderError::UninitializedBaseKv),
        }
    }
}

} // verus!
