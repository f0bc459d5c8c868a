//! The failures of a reward computation.

use vstd::prelude::*;

verus! {

/// Why a reward computation was aborted. Every failure is fatal for the whole
/// computation: no partial reward is ever handed out.
#[derive(Clone, Copy, Debug, PartialEq, Eq, Structural)]
pub enum ContractError {
    /// A checked addition left the range of its integer type.
    Overflow,
    /// A ratio was asked for with a zero denominator.
    DivideByZero,
    /// A high-precision intermediate value does not fit the token amount type.
    ConversionOverflow,
    /// A reward exceeds what its epoch emitted, or what is left of the flow.
    InvalidReward,
}

} // verus!
