//! The data of the epoch manager.

use vstd::prelude::*;

verus! {

/// An epoch as the epoch manager announces it.
#[derive(Clone, Copy, Debug, PartialEq, Eq, Structural)]
pub struct Epoch {
    /// The number of the epoch.
    pub id: u64,
    /// When the epoch began, in nanoseconds since the Unix epoch.
    pub start_time: u64,
}

} // verus!
