//! Case-level metadata.

use vstd::prelude::*;

use crate::rat::{opt_view, opt_wf, Q, Rat};

verus! {

/// The spec-level value of a [`Case`].
pub struct QCase {
    pub name: Seq<char>,
    pub version: Seq<char>,
    pub base_mva: Q,
    pub f: Option<Q>,
}

/// Power flow case.
#[derive(Clone, Debug)]
pub struct Case {
    /// Case name.
    pub name: String,
    /// Case format version.
    pub version: String,
    /// System MVA base.
    pub base_mva: Rat,
    /// Total system cost (US dollars).
    pub f: Option<Rat>,
}

impl View for Case {
    type V = QCase;

    open spec fn view(&self) -> QCase {
        QCase {
            name: self.name@,
            version: self.version@,
            base_mva: self.base_mva@,
            f: opt_view(self.f),
        }
    }
}

impl Case {
    pub open spec fn wf(self) -> bool {
        &&& self.base_mva.wf()
        &&& opt_wf(self.f)
    }

    /// Build new [Case].
    pub fn new(name: String) -> (r: CaseBuilder)
        ensures
            r.name@ == name@,
            r.version@ == seq!['2'],
            r.base_mva@ == (Q { n: 100, d: 1 }),
            r.base_mva.wf(),
            r.f is None,
    {
        let version = String::from_str("2");
        proof {
            reveal_strlit("2");
        }
        CaseBuilder { name, version, base_mva: Rat { n: 100, d: 1 }, f: None }
    }
}

/// Why a [`CaseBuilder`] could not build. Every field has a default, so
/// nothing can go wrong; the type is kept for interface stability.
#[derive(Clone, Copy, Debug, PartialEq, Eq, Structural)]
pub enum CaseBuilderError {
    Unbuildable,
}

/// Step-by-step construction of a [`Case`], with the documented defaults.
#[derive(Clone, Debug)]
pub struct CaseBuilder {
    pub name: String,
    pub version: String,
    pub base_mva: Rat,
    pub f: Option<Rat>,
}

impl CaseBuilder {
    pub open spec fn wf(self) -> bool {
        &&& self.base_mva.wf()
        &&& opt_wf(self.f)
    }

    pub fn version(self, v: String) -> (r: Self)
        ensures
            r == (CaseBuilder { version: v, ..self }),
    {
        CaseBuilder { version: v, ..self }
    }

    pub fn base_mva(self, v: Rat) -> (r: Self)
        ensures
            r == (CaseBuilder { base_mva: v, ..self }),
    {
        CaseBuilder { base_mva: v, ..self }
    }

    pub fn f(self, v: Rat) -> (r: Self)
        ensures
            r == (CaseBuilder { f: Some(v), ..self }),
    {
        CaseBuilder { f: Some(v), ..self }
    }

    /// Finish the case; never fails.
    pub fn build(self) -> (r: Result<Case, CaseBuilderError>)
        requires
            self.wf(),
        ensures
            r matches Ok(c) && c.wf() && c == (Case {
                name: self.name,
                version: self.version,
                base_mva: self.base_mva,
                f: self.f,
            }),
    {
        Ok(Case { name: self.name, version: self.version, base_mva: self.base_mva, f: self.f })
    }
}

} // verus!
