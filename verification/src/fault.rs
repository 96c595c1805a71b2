//! The reasons for which a run ends abnormally.

use vstd::prelude::*;

verus! {

/// Why a machine stopped without reaching a halt instruction.
///
/// Every fault is final: a faulted machine takes no further step.
#[derive(Clone, Copy, Debug, PartialEq, Eq, Structural)]
pub enum Fault {
    /// The top four bits of the fetched word name none of the fourteen operations.
    UnknownOpcode,
    /// A division whose divisor register holds zero.
    DivisionByZero,
    /// A handle that names no live segment, or handle 0 given to abandonment.
    InvalidHandle,
    /// An offset at or past the end of the segment it indexes; also an
    /// execution pointer at or past the end of the program.
    OutOfBoundsIndex,
    /// An output value above 255.
    InvalidOutputByte,
    /// An allocation when every 32-bit handle is live.
    HandlesExhausted,
}

impl Fault {
    /// The number that stands for this fault where a run reports how it ended.
    pub open spec fn code_of(self) -> u8 {
        match self {
            Fault::UnknownOpcode => 1,
            Fault::DivisionByZero => 2,
            Fault::InvalidHandle => 3,
            Fault::OutOfBoundsIndex => 4,
            Fault::InvalidOutputByte => 5,
            Fault::HandlesExhausted => 6,
        }
    }

    /// The exit code of a run that ended on this fault: never 0, which
    /// stands for a halt, and different for different faults.
    pub fn code(self) -> (code: u8)
        ensures
            code == self.code_of(),
            code != 0,
            forall|other: Fault| other.code_of() == code ==> other == self,
    {
        match self {
            Fault::UnknownOpcode => 1,
            Fault::DivisionByZero => 2,
            Fault::InvalidHandle => 3,
            Fault::OutOfBoundsIndex => 4,
            Fault::InvalidOutputByte => 5,
            Fault::HandlesExhausted => 6,
        }
    }
}

} // verus!
