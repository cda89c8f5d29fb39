//! Branch records: transmission lines, cables, and two-winding transformer
//! equivalents.

use vstd::prelude::*;

use crate::rat::{opt_view, opt_wf, q_eq, q_int, Q, Rat};

verus! {

/// The spec-level value of a [`Branch`].
pub struct QBranch {
    pub f_bus: int,
    pub t_bus: int,
    pub br_r: Q,
    pub br_x: Q,
    pub br_b: Q,
    pub rate_a: Q,
    pub rate_b: Q,
    pub rate_c: Q,
    pub tap: Q,
    pub shift: Q,
    pub br_status: int,
    pub angmin: Option<Q>,
    pub angmax: Option<Q>,
    pub pf: Option<Q>,
    pub qf: Option<Q>,
    pub pt: Option<Q>,
    pub qt: Option<Q>,
    pub mu_sf: Option<Q>,
    pub mu_st: Option<Q>,
    pub mu_angmin: Option<Q>,
    pub mu_angmax: Option<Q>,
}

/// Whether a spec branch is a transformer equivalent: nonzero off-nominal
/// tap ratio (a zero tap marks a plain line).
pub open spec fn qbranch_is_transformer(b: QBranch) -> bool {
    !q_eq(b.tap, q_int(0))
}

/// Transmission line/cable or two winding transformer.
#[derive(Clone, Debug)]
pub struct Branch {
    /// "from" bus number.
    pub f_bus: usize,
    /// "to" bus number.
    pub t_bus: usize,
    /// Resistance (p.u.).
    pub br_r: Rat,
    /// Reactance (p.u.).
    pub br_x: Rat,
    /// Total line charging susceptance (p.u.).
    pub br_b: Rat,
    /// MVA rating A (long term rating).
    pub rate_a: Rat,
    /// MVA rating B (short term rating) (MVA).
    pub rate_b: Rat,
    /// MVA rating C (emergency rating) (MVA).
    pub rate_c: Rat,
    /// Transformer off nominal tap ratio; zero marks a non-transformer line.
    pub tap: Rat,
    /// Transformer phase shift angle (degrees).
    pub shift: Rat,
    /// Initial branch status.
    pub br_status: usize,
    /// Minimum angle difference; angle(Vf) - angle(Vt) (degrees).
    pub angmin: Option<Rat>,
    /// Maximum angle difference; angle(Vf) - angle(Vt) (degrees).
    pub angmax: Option<Rat>,
    /// Real power injected at "from" bus end (MW).
    pub pf: Option<Rat>,
    /// Reactive power injected at "from" bus end (MVAr).
    pub qf: Option<Rat>,
    /// Real power injected at "to" bus end (MW).
    pub pt: Option<Rat>,
    /// Reactive power injected at "to" bus end (MVAr).
    pub qt: Option<Rat>,
    /// Kuhn-Tucker multiplier on MVA limit at "from" bus (u/MVA).
    pub mu_sf: Option<Rat>,
    /// Kuhn-Tucker multiplier on MVA limit at "to" bus (u/MVA).
    pub mu_st: Option<Rat>,
    /// Kuhn-Tucker multiplier lower angle difference limit (u/degree).
    pub mu_angmin: Option<Rat>,
    /// Kuhn-Tucker multiplier upper angle difference limit (u/degree).
    pub mu_angmax: Option<Rat>,
}

impl View for Branch {
    type V = QBranch;

    open spec fn view(&self) -> QBranch {
        QBranch {
            f_bus: self.f_bus as int,
            t_bus: self.t_bus as int,
            br_r: self.br_r@,
            br_x: self.br_x@,
            br_b: self.br_b@,
            rate_a: self.rate_a@,
            rate_b: self.rate_b@,
            rate_c: self.rate_c@,
            tap: self.tap@,
            shift: self.shift@,
            br_status: self.br_status as int,
            angmin: opt_view(self.angmin),
            angmax: opt_view(self.angmax),
            pf: opt_view(self.pf),
            qf: opt_view(self.qf),
            pt: opt_view(self.pt),
            qt: opt_view(self.qt),
            mu_sf: opt_view(self.mu_sf),
            mu_st: opt_view(self.mu_st),
            mu_angmin: opt_view(self.mu_angmin),
            mu_angmax: opt_view(self.mu_angmax),
        }
    }
}

impl Branch {
    pub open spec fn wf(self) -> bool {
        &&& self.br_r.wf()
        &&& self.br_x.wf()
        &&& self.br_b.wf()
        &&& self.rate_a.wf()
        &&& self.rate_b.wf()
        &&& self.rate_c.wf()
        &&& self.tap.wf()
        &&& self.shift.wf()
        &&& opt_wf(self.angmin)
        &&& opt_wf(self.angmax)
        &&& opt_wf(self.pf)
        &&& opt_wf(self.qf)
        &&& opt_wf(self.pt)
        &&& opt_wf(self.qt)
        &&& opt_wf(self.mu_sf)
        &&& opt_wf(self.mu_st)
        &&& opt_wf(self.mu_angmin)
        &&& opt_wf(self.mu_angmax)
    }

    /// Build new [Branch].
    pub fn new(f_bus: usize, t_bus: usize) -> (r: BranchBuilder)
        ensures
            r == BranchBuilder::init(f_bus, t_bus),
    {
        BranchBuilder {
            f_bus,
            t_bus,
            br_r: Rat::zero(),
            br_x: Rat::zero(),
            br_b: Rat::zero(),
            rate_a: Rat::zero(),
            rate_b: Rat::zero(),
            rate_c: Rat::zero(),
            tap: Rat::zero(),
            shift: Rat::zero(),
            br_status: 1,
            angmin: None,
            angmax: None,
        }
    }

    /// Branch is in-service.
    pub fn is_on(&self) -> (r: bool)
        ensures
            r == (self.br_status != 0),
    {
        self.br_status != 0
    }

    /// Branch is out-of-service.
    pub fn is_off(&self) -> (r: bool)
        ensures
            r == (self.br_status == 0),
    {
        self.br_status == 0
    }

    /// Branch is a transformer.
    pub fn is_transformer(&self) -> (r: bool)
        requires
            self.wf(),
        ensures
            r == qbranch_is_transformer(self@),
    {
        !self.tap.is_zero()
    }

    /// Is power flow result.
    pub fn is_pf(&self) -> (r: bool)
        ensures
            r == (self.pf is Some && self.qf is Some && self.pt is Some && self.qt is Some),
    {
        self.pf.is_some() && self.qf.is_some() && self.pt.is_some() && self.qt.is_some()
    }

    /// Is OPF result.
    pub fn is_opf(&self) -> (r: bool)
        ensures
            r == (self.pf is Some && self.qf is Some && self.pt is Some && self.qt is Some
                && self.mu_sf is Some && self.mu_st is Some && self.mu_angmin is Some
                && self.mu_angmax is Some),
    {
        self.is_pf() && self.mu_sf.is_some() && self.mu_st.is_some() && self.mu_angmin.is_some()
            && self.mu_angmax.is_some()
    }
}

/// Why a [`BranchBuilder`] could not build. Every field has a default, so
/// nothing can go wrong; the type is kept for interface stability.
#[derive(Clone, Copy, Debug, PartialEq, Eq, Structural)]
pub enum BranchBuilderError {
    Unbuildable,
}

/// Step-by-step construction of a [`Branch`], with the documented defaults.
#[derive(Clone, Debug)]
pub struct BranchBuilder {
    pub f_bus: usize,
    pub t_bus: usize,
    pub br_r: Rat,
    pub br_x: Rat,
    pub br_b: Rat,
    pub rate_a: Rat,
    pub rate_b: Rat,
    pub rate_c: Rat,
    pub tap: Rat,
    pub shift: Rat,
    pub br_status: usize,
    pub angmin: Option<Rat>,
    pub angmax: Option<Rat>,
}

impl BranchBuilder {
    /// The builder state produced by [`Branch::new`].
    pub open spec fn init(f_bus: usize, t_bus: usize) -> BranchBuilder {
        BranchBuilder {
            f_bus,
            t_bus,
            br_r: Rat { n: 0, d: 1 },
            br_x: Rat { n: 0, d: 1 },
            br_b: Rat { n: 0, d: 1 },
            rate_a: Rat { n: 0, d: 1 },
            rate_b: Rat { n: 0, d: 1 },
            rate_c: Rat { n: 0, d: 1 },
            tap: Rat { n: 0, d: 1 },
            shift: Rat { n: 0, d: 1 },
            br_status: 1,
            angmin: None,
            angmax: None,
        }
    }

    pub open spec fn wf(self) -> bool {
        &&& self.br_r.wf()
        &&& self.br_x.wf()
        &&& self.br_b.wf()
        &&& self.rate_a.wf()
        &&& self.rate_b.wf()
        &&& self.rate_c.wf()
        &&& self.tap.wf()
        &&& self.shift.wf()
        &&& opt_wf(self.angmin)
        &&& opt_wf(self.angmax)
    }

    pub fn br_r(self, v: Rat) -> (r: Self)
        ensures
            r == (BranchBuilder { br_r: v, ..self }),
    {
        BranchBuilder { br_r: v, ..self }
    }

    pub fn br_x(self, v: Rat) -> (r: Self)
        ensures
            r == (BranchBuilder { br_x: v, ..self }),
    {
        BranchBuilder { br_x: v, ..self }
    }

    pub fn br_b(self, v: Rat) -> (r: Self)
        ensures
            r == (BranchBuilder { br_b: v, ..self }),
    {
        BranchBuilder { br_b: v, ..self }
    }

    pub fn rate_a(self, v: Rat) -> (r: Self)
        ensures
            r == (BranchBuilder { rate_a: v, ..self }),
    {
        BranchBuilder { rate_a: v, ..self }
    }

    pub fn rate_b(self, v: Rat) -> (r: Self)
        ensures
            r == (BranchBuilder { rate_b: v, ..self }),
    {
        BranchBuilder { rate_b: v, ..self }
    }

    pub fn rate_c(self, v: Rat) -> (r: Self)
        ensures
            r == (BranchBuilder { rate_c: v, ..self }),
    {
        BranchBuilder { rate_c: v, ..self }
    }

    pub fn tap(self, v: Rat) -> (r: Self)
        ensures
            r == (BranchBuilder { tap: v, ..self }),
    {
        BranchBuilder { tap: v, ..self }
    }

    pub fn shift(self, v: Rat) -> (r: Self)
        ensures
            r == (BranchBuilder { shift: v, ..self }),
    {
        BranchBuilder { shift: v, ..self }
    }

    pub fn br_status(self, v: usize) -> (r: Self)
        ensures
            r == (BranchBuilder { br_status: v, ..self }),
    {
        BranchBuilder { br_status: v, ..self }
    }

    /// In-service branch status.
    pub fn in_service(self) -> (r: Self)
        ensures
            r == (BranchBuilder { br_status: 1usize, ..self }),
    {
        BranchBuilder { br_status: 1, ..self }
    }

    /// Out-of-service branch status.
    pub fn out_of_service(self) -> (r: Self)
        ensures
            r == (BranchBuilder { br_status: 0usize, ..self }),
    {
        BranchBuilder { br_status: 0, ..self }
    }

    pub fn angmin(self, v: Rat) -> (r: Self)
        ensures
            r == (BranchBuilder { angmin: Some(v), ..self }),
    {
        BranchBuilder { angmin: Some(v), ..self }
    }

    pub fn angmax(self, v: Rat) -> (r: Self)
        ensures
            r == (BranchBuilder { angmax: Some(v), ..self }),
    {
        BranchBuilder { angmax: Some(v), ..self }
    }

    /// Finish the branch; never fails.
    pub fn build(self) -> (r: Result<Branch, BranchBuilderError>)
        requires
            self.wf(),
        ensures
            r matches Ok(b) && b.wf() && b == (Branch {
                f_bus: self.f_bus,
                t_bus: self.t_bus,
                br_r: self.br_r,
                br_x: self.br_x,
                br_b: self.br_b,
                rate_a: self.rate_a,
                rate_b: self.rate_b,
                rate_c: self.rate_c,
                tap: self.tap,
                shift: self.shift,
                br_status: self.br_status,
                angmin: self.angmin,
                angmax: self.angmax,
                pf: None,
                qf: None,
                pt: None,
                qt: None,
                mu_sf: None,
                mu_st: None,
                mu_angmin: None,
                mu_angmax: None,
            }),
    {
        Ok(
            Branch {
                f_bus: self.f_bus,
                t_bus: self.t_bus,
                br_r: self.br_r,
                br_x: self.br_x,
                br_b: self.br_b,
                rate_a: self.rate_a,
                rate_b: self.rate_b,
                rate_c: self.rate_c,
                tap: self.tap,
                shift: self.shift,
                br_status: self.br_status,
                angmin: self.angmin,
                angmax: self.angmax,
                pf: None,
                qf: None,
                pt: None,
                qt: None,
                mu_sf: None,
                mu_st: None,
                mu_angmin: None,
                mu_angmax: None,
            },
        )
    }
}

} // verus!
