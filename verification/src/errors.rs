//! The conversion's typed failures.

use vstd::prelude::*;

verus! {

/// Which kind of raw record made a dangling bus reference.
#[derive(Clone, Copy, Debug, PartialEq, Eq, Structural)]
pub enum RecordKind {
    Load,
    FixedShunt,
    SwitchedShunt,
    Generator,
    Branch,
    Transformer,
    DCLine,
}

/// A three-winding field that a record needed but did not carry.
#[derive(Clone, Copy, Debug, PartialEq, Eq, Structural)]
pub enum FieldName {
    R23,
    X23,
    Sbase23,
    R31,
    X31,
    Sbase31,
    Windv3,
    Nomv3,
    Ang2,
    Rata2,
    Ratb2,
    Ratc2,
    Ang3,
    Rata3,
    Ratb3,
    Ratc3,
}

/// Why a conversion failed. The whole conversion fails atomically: no
/// partial case is handed out.
#[derive(Clone, Copy, Debug, PartialEq, Eq, Structural)]
pub enum CaseError {
    /// A record referenced a bus number absent from the bus set.
    DanglingReference { kind: RecordKind, bus: usize },
    /// A winding code outside {1, 2} on the transformer joining the named
    /// buses (zero for an absent third bus).
    UnsupportedWindingCode { code: i64, bus1: usize, bus2: usize, bus3: usize },
    /// An impedance base code outside {1, 2, 3} on the transformer joining
    /// the named buses.
    UnsupportedImpedanceCode { code: i64, bus1: usize, bus2: usize, bus3: usize },
    /// A magnitude-only impedance whose magnitude was below its resistance:
    /// the reactance would be the square root of a negative number.
    NumericDomain { bus1: usize, bus2: usize, bus3: usize },
    /// A base quantity that would be divided by was zero.
    DivisionByZero { bus1: usize, bus2: usize, bus3: usize },
    /// A three-winding field was needed and absent.
    MissingField { field: FieldName, bus1: usize, bus2: usize, bus3: usize },
    /// An exact rational left the 64-bit representable range.
    Overflow,
}

} // verus!
