//! Dispatchable DC transmission line records.

use vstd::prelude::*;

use crate::rat::{opt_view, opt_wf, Q, Rat};

verus! {

/// The spec-level value of a [`DCLine`].
pub struct QDCLine {
    pub f_bus: int,
    pub t_bus: int,
    pub br_status: int,
    pub pf: Q,
    pub pt: Q,
    pub qf: Q,
    pub qt: Q,
    pub vf: Q,
    pub vt: Q,
    pub pmin: Option<Q>,
    pub pmax: Option<Q>,
    pub qminf: Option<Q>,
    pub qmaxf: Option<Q>,
    pub qmint: Option<Q>,
    pub qmaxt: Option<Q>,
    pub loss0: Q,
    pub loss1: Q,
}

/// Dispatchable DC transmission line.
#[derive(Clone, Debug)]
pub struct DCLine {
    /// "from" bus number.
    pub f_bus: usize,
    /// "to" bus number.
    pub t_bus: usize,
    /// Initial DC line status.
    pub br_status: usize,
    /// Flow at "from" bus ("from" -> "to") (MW).
    pub pf: Rat,
    /// Flow at "to" bus ("from" -> "to") (MW).
    pub pt: Rat,
    /// Injection at "from" bus ("from" -> "to") (MVAr).
    pub qf: Rat,
    /// Injection at "to" bus ("from" -> "to") (MVAr).
    pub qt: Rat,
    /// Voltage setpoint at "from" bus (p.u.).
    pub vf: Rat,
    /// Voltage setpoint at "to" bus (p.u.).
    pub vt: Rat,
    /// Lower limit on MW flow at "from" end (MW); `None` is unbounded.
    pub pmin: Option<Rat>,
    /// Upper limit on MW flow at "from" end (MW); `None` is unbounded.
    pub pmax: Option<Rat>,
    /// Lower limit on MVAr injection at "from" bus (MVAr); `None` is unbounded.
    pub qminf: Option<Rat>,
    /// Upper limit on MVAr injection at "from" bus (MVAr); `None` is unbounded.
    pub qmaxf: Option<Rat>,
    /// Lower limit on MVAr injection at "to" bus (MVAr); `None` is unbounded.
    pub qmint: Option<Rat>,
    /// Upper limit on MVAr injection at "to" bus (MVAr); `None` is unbounded.
    pub qmaxt: Option<Rat>,
    /// Constant term of linear loss function (MW).
    pub loss0: Rat,
    /// Linear term of linear loss function (MW/MW).
    pub loss1: Rat,
}

impl View for DCLine {
    type V = QDCLine;

    open spec fn view(&self) -> QDCLine {
        QDCLine {
            f_bus: self.f_bus as int,
            t_bus: self.t_bus as int,
            br_status: self.br_status as int,
            pf: self.pf@,
            pt: self.pt@,
            qf: self.qf@,
            qt: self.qt@,
            vf: self.vf@,
            vt: self.vt@,
            pmin: opt_view(self.pmin),
            pmax: opt_view(self.pmax),
            qminf: opt_view(self.qminf),
            qmaxf: opt_view(self.qmaxf),
            qmint: opt_view(self.qmint),
            qmaxt: opt_view(self.qmaxt),
            loss0: self.loss0@,
            loss1: self.loss1@,
        }
    }
}

impl DCLine {
    pub open spec fn wf(self) -> bool {
        &&& self.pf.wf()
        &&& self.pt.wf()
        &&& self.qf.wf()
        &&& self.qt.wf()
        &&& self.vf.wf()
        &&& self.vt.wf()
        &&& opt_wf(self.pmin)
        &&& opt_wf(self.pmax)
        &&& opt_wf(self.qminf)
        &&& opt_wf(self.qmaxf)
        &&& opt_wf(self.qmint)
        &&& opt_wf(self.qmaxt)
        &&& self.loss0.wf()
        &&& self.loss1.wf()
    }

    /// Build new [DCLine].
    pub fn new(f_bus: usize, t_bus: usize) -> (r: DCLineBuilder)
        ensures
            r == DCLineBuilder::init(f_bus, t_bus),
    {
        DCLineBuilder {
            f_bus,
            t_bus,
            br_status: 1,
            pf: Rat::zero(),
            pt: Rat::zero(),
            qf: Rat::zero(),
            qt: Rat::zero(),
            vf: Rat::one(),
            vt: Rat::one(),
            pmin: None,
            pmax: None,
            qminf: None,
            qmaxf: None,
            qmint: None,
            qmaxt: None,
            loss0: Rat::zero(),
            loss1: Rat::zero(),
        }
    }

    /// DC line is in-service.
    pub fn is_on(&self) -> (r: bool)
        ensures
            r == (self.br_status != 0),
    {
        self.br_status != 0
    }

    /// DC line is out-of-service.
    pub fn is_off(&self) -> (r: bool)
        ensures
            r == (self.br_status == 0),
    {
        self.br_status == 0
    }
}

/// Why a [`DCLineBuilder`] could not build. Every field has a default, so
/// nothing can go wrong; the type is kept for interface stability.
#[derive(Clone, Copy, Debug, PartialEq, Eq, Structural)]
pub enum DCLineBuilderError {
    Unbuildable,
}

/// Step-by-step construction of a [`DCLine`], with the documented defaults.
#[derive(Clone, Debug)]
pub struct DCLineBuilder {
    pub f_bus: usize,
    pub t_bus: usize,
    pub br_status: usize,
    pub pf: Rat,
    pub pt: Rat,
    pub qf: Rat,
    pub qt: Rat,
    pub vf: Rat,
    pub vt: Rat,
    pub pmin: Option<Rat>,
    pub pmax: Option<Rat>,
    pub qminf: Option<Rat>,
    pub qmaxf: Option<Rat>,
    pub qmint: Option<Rat>,
    pub qmaxt: Option<Rat>,
    pub loss0: Rat,
    pub loss1: Rat,
}

impl DCLineBuilder {
    /// The builder state produced by [`DCLine::new`].
    pub open spec fn init(f_bus: usize, t_bus: usize) -> DCLineBuilder {
        DCLineBuilder {
            f_bus,
            t_bus,
            br_status: 1,
            pf: Rat { n: 0, d: 1 },
            pt: Rat { n: 0, d: 1 },
            qf: Rat { n: 0, d: 1 },
            qt: Rat { n: 0, d: 1 },
            vf: Rat { n: 1, d: 1 },
            vt: Rat { n: 1, d: 1 },
            pmin: None,
            pmax: None,
            qminf: None,
            qmaxf: None,
            qmint: None,
            qmaxt: None,
            loss0: Rat { n: 0, d: 1 },
            loss1: Rat { n: 0, d: 1 },
        }
    }

    pub open spec fn wf(self) -> bool {
        &&& self.pf.wf()
        &&& self.pt.wf()
        &&& self.qf.wf()
        &&& self.qt.wf()
        &&& self.vf.wf()
        &&& self.vt.wf()
        &&& opt_wf(self.pmin)
        &&& opt_wf(self.pmax)
        &&& opt_wf(self.qminf)
        &&& opt_wf(self.qmaxf)
        &&& opt_wf(self.qmint)
        &&& opt_wf(self.qmaxt)
        &&& self.loss0.wf()
        &&& self.loss1.wf()
    }

    pub fn br_status(self, v: usize) -> (r: Self)
        ensures
            r == (DCLineBuilder { br_status: v, ..self }),
    {
        DCLineBuilder { br_status: v, ..self }
    }

    /// In-service DC line status.
    pub fn in_service(self) -> (r: Self)
        ensures
            r == (DCLineBuilder { br_status: 1usize, ..self }),
    {
        DCLineBuilder { br_status: 1, ..self }
    }

    /// Out-of-service DC line status.
    pub fn out_of_service(self) -> (r: Self)
        ensures
            r == (DCLineBuilder { br_status: 0usize, ..self }),
    {
        DCLineBuilder { br_status: 0, ..self }
    }

    pub fn pf(self, v: Rat) -> (r: Self)
        ensures
            r == (DCLineBuilder { pf: v, ..self }),
    {
        DCLineBuilder { pf: v, ..self }
    }

    pub fn pt(self, v: Rat) -> (r: Self)
        ensures
            r == (DCLineBuilder { pt: v, ..self }),
    {
        DCLineBuilder { pt: v, ..self }
    }

    pub fn qf(self, v: Rat) -> (r: Self)
        ensures
            r == (DCLineBuilder { qf: v, ..self }),
    {
        DCLineBuilder { qf: v, ..self }
    }

    pub fn qt(self, v: Rat) -> (r: Self)
        ensures
            r == (DCLineBuilder { qt: v, ..self }),
    {
        DCLineBuilder { qt: v, ..self }
    }

    pub fn vf(self, v: Rat) -> (r: Self)
        ensures
            r == (DCLineBuilder { vf: v, ..self }),
    {
        DCLineBuilder { vf: v, ..self }
    }

    pub fn vt(self, v: Rat) -> (r: Self)
        ensures
            r == (DCLineBuilder { vt: v, ..self }),
    {
        DCLineBuilder { vt: v, ..self }
    }

    pub fn pmin(self, v: Rat) -> (r: Self)
        ensures
            r == (DCLineBuilder { pmin: Some(v), ..self }),
    {
        DCLineBuilder { pmin: Some(v), ..self }
    }

    pub fn pmax(self, v: Rat) -> (r: Self)
        ensures
            r == (DCLineBuilder { pmax: Some(v), ..self }),
    {
        DCLineBuilder { pmax: Some(v), ..self }
    }

    pub fn qminf(self, v: Rat) -> (r: Self)
        ensures
            r == (DCLineBuilder { qminf: Some(v), ..self }),
    {
        DCLineBuilder { qminf: Some(v), ..self }
    }

    pub fn qmaxf(self, v: Rat) -> (r: Self)
        ensures
            r == (DCLineBuilder { qmaxf: Some(v), ..self }),
    {
        DCLineBuilder { qmaxf: Some(v), ..self }
    }

    pub fn qmint(self, v: Rat) -> (r: Self)
        ensures
            r == (DCLineBuilder { qmint: Some(v), ..self }),
    {
        DCLineBuilder { qmint: Some(v), ..self }
    }

    pub fn qmaxt(self, v: Rat) -> (r: Self)
        ensures
            r == (DCLineBuilder { qmaxt: Some(v), ..self }),
    {
        DCLineBuilder { qmaxt: Some(v), ..self }
    }

    pub fn loss0(self, v: Rat) -> (r: Self)
        ensures
            r == (DCLineBuilder { loss0: v, ..self }),
    {
        DCLineBuilder { loss0: v, ..self }
    }

    pub fn loss1(self, v: Rat) -> (r: Self)
        ensures
            r == (DCLineBuilder { loss1: v, ..self }),
    {
        DCLineBuilder { loss1: v, ..self }
    }

    /// Finish the DC line; never fails.
    pub fn build(self) -> (r: Result<DCLine, DCLineBuilderError>)
        requires
            self.wf(),
        ensures
            r matches Ok(l) && l.wf() && l == (DCLine {
                f_bus: self.f_bus,
                t_bus: self.t_bus,
                br_status: self.br_status,
                pf: self.pf,
                pt: self.pt,
                qf: self.qf,
                qt: self.qt,
                vf: self.vf,
                vt: self.vt,
                pmin: self.pmin,
                pmax: self.pmax,
                qminf: self.qminf,
                qmaxf: self.qmaxf,
                qmint: self.qmint,
                qmaxt: self.qmaxt,
                loss0: self.loss0,
                loss1: self.loss1,
            }),
    {
        Ok(
            DCLine {
                f_bus: self.f_bus,
                t_bus: self.t_bus,
                br_status: self.br_status,
                pf: self.pf,
                pt: self.pt,
                qf: self.qf,
                qt: self.qt,
                vf: self.vf,
                vt: self.vt,
                pmin: self.pmin,
                pmax: self.pmax,
                qminf: self.qminf,
                qmaxf: self.qmaxf,
                qmint: self.qmint,
                qmaxt: self.qmaxt,
                loss0: self.loss0,
                loss1: self.loss1,
            },
        )
    }
}

} // verus!
