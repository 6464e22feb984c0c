//! The failure kinds shared by every routine of the engine.

use vstd::prelude::*;

verus! {

/// Why a computation was refused.
#[derive(Debug, Clone, Copy, PartialEq, Eq, Structural)]
pub enum EngineError {
    /// An argument lies outside the numeric domain of the operation.
    InvalidInput,
    /// A result is too large for the integer or decimal width that must hold it.
    Overflow,
    /// A non-zero quantity would be truncated to zero.
    Underflow,
    /// A value that must be a whole number has a fractional part.
    HasDecimals,
    /// Cumulative samples are not ordered, or do not add up to the funded amount.
    ConsistencyViolation,
}

impl EngineError {
    /// A short lower-case description of the failure.
    pub fn message(&self) -> (text: &'static str)
        ensures
            text@ == error_text(*self),
    {
        match self {
            EngineError::InvalidInput => "invalid input",
            EngineError::Overflow => "overflow",
            EngineError::Underflow => "underflow",
            EngineError::HasDecimals => "have decimals",
            EngineError::ConsistencyViolation => "consistency violation",
        }
    }
}

/// The text that [`EngineError::message`] yields for each kind.
pub open spec fn error_text(e: EngineError) -> Seq<char> {
    match e {
        EngineError::InvalidInput => "invalid input"@,
        EngineError::Overflow => "overflow"@,
        EngineError::Underflow => "underflow"@,
        EngineError::HasDecimals => "have decimals"@,
        EngineError::ConsistencyViolation => "consistency violation"@,
    }
}

} // verus!
