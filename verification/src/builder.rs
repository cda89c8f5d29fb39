//! The record builders, gathered under one roof.

pub use crate::branch::{BranchBuilder, BranchBuilderError};
pub use crate::bus::{BusBuilder, BusBuilderError};
pub use crate::case::{CaseBuilder, CaseBuilderError};
pub use crate::dcline::{DCLineBuilder, DCLineBuilderError};
pub use crate::gen::{GenBuilder, GenBuilderError};
