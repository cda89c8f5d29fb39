//! Power flow case data: a normalized, system-base model of a transmission
//! network (buses, generators, branches, DC lines) and the conversion engine
//! between that model and raw-format record collections.
//!
//! All electrical quantities are held as exact rational numbers, so that the
//! base-conversion and topology-assembly algebra can be stated and proved
//! exactly.

pub mod branch;
pub mod bus;
pub mod case;
pub mod convert;
pub mod dcline;
pub mod errors;
pub mod gen;
pub mod rat;
pub mod rawnet;
pub mod validate;

pub use branch::Branch;
pub use bus::Bus;
pub use case::Case;
pub use dcline::DCLine;
pub use bus::{NONE, PQ, PV, REF};
pub use gen::Gen;
pub use errors::CaseError;
pub use rat::Q;
pub use convert::{case_to_raw, raw_to_case};
pub use rawnet::RawNetwork;
pub use validate::validate_bus_numbers;

pub mod builder;

pub use rat::Rat;

use vstd::prelude::*;

verus! {

/// Out-of-service status.
pub const OUT_OF_SERVICE: usize = 0;

/// In-service status.
pub const IN_SERVICE: usize = 1;

} // verus!
