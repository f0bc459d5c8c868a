//! Weights: sparse histories, read with a cursor on the last change seen.

use std::collections::HashMap;
use vstd::prelude::*;

use crate::flow::EpochId;

verus! {

broadcast use vstd::std_specs::hash::group_hash_axioms;

/// The last weight change seen while walking the epochs in increasing order. An
/// epoch of zero stands for "no change seen yet".
#[derive(Clone, Copy, Debug, PartialEq, Eq, Structural)]
pub struct WeightCursor {
    /// The epoch of the change.
    pub epoch: EpochId,
    /// The weight recorded at that epoch.
    pub weight: u128,
}

/// The cursor a walk starts with: the address's earliest recorded weight change,
/// or epoch zero and weight zero where it has none.
pub open spec fn cursor_from(earliest: Option<(EpochId, u128)>) -> WeightCursor {
    match earliest {
        Some((epoch, weight)) => WeightCursor { epoch, weight },
        None => WeightCursor { epoch: 0, weight: 0 },
    }
}

/// The weight of the address in `epoch`: the change recorded for that very epoch,
/// else the weight the cursor carries if it points at or before `epoch`, else none.
pub open spec fn weight_seen(
    cursor: WeightCursor,
    history: Map<EpochId, u128>,
    epoch: EpochId,
) -> Option<u128> {
    if history.contains_key(epoch) {
        Some(history[epoch])
    } else if cursor.epoch != 0 && cursor.epoch <= epoch {
        Some(cursor.weight)
    } else {
        None
    }
}

/// The cursor once `epoch` has been visited: a change recorded for `epoch` replaces it.
pub open spec fn cursor_after(
    cursor: WeightCursor,
    history: Map<EpochId, u128>,
    epoch: EpochId,
) -> WeightCursor {
    if history.contains_key(epoch) {
        WeightCursor { epoch, weight: history[epoch] }
    } else {
        cursor
    }
}

/// The cursor once the epochs from `lo` up to, not including, `hi` have been visited.
pub open spec fn cursor_through(
    cursor: WeightCursor,
    history: Map<EpochId, u128>,
    lo: EpochId,
    hi: EpochId,
) -> WeightCursor
    decreases hi - lo,
{
    if hi <= lo {
        cursor
    } else {
        cursor_after(
            cursor_through(cursor, history, lo, (hi - 1) as u64),
            history,
            (hi - 1) as u64,
        )
    }
}

/// The global weight of `epoch`; an epoch without a record weighs zero.
pub open spec fn global_weight_at(globals: Map<EpochId, u128>, epoch: EpochId) -> u128 {
    if globals.contains_key(epoch) {
        globals[epoch]
    } else {
        0
    }
}

impl WeightCursor {
    /// The cursor for an address with the given earliest recorded weight change.
    pub fn new(earliest: Option<(EpochId, u128)>) -> (cursor: WeightCursor)
        ensures
            cursor == cursor_from(earliest),
    {
        match earliest {
            Some((epoch, weight)) => WeightCursor { epoch, weight },
            None => WeightCursor { epoch: 0, weight: 0 },
        }
    }

    /// Resolves the address's weight in `epoch_id` and moves the cursor onto a change
    /// recorded for that epoch.
    pub fn resolve(
        &mut self,
        history: &HashMap<EpochId, u128>,
        epoch_id: EpochId,
    ) -> (weight: Option<u128>)
        ensures
            weight == weight_seen(*old(self), history@, epoch_id),
            *final(self) == cursor_after(*old(self), history@, epoch_id),
    {
        match history.get(&epoch_id) {
            Some(recorded) => {
                self.epoch = epoch_id;
                self.weight = *recorded;
                Some(*recorded)
            },
            None => {
                if self.epoch != 0 && self.epoch <= epoch_id {
                    Some(self.weight)
                } else {
                    None
                }
            },
        }
    }
}

/// The global weight recorded for `epoch_id`, zero where there is no record.
pub fn global_weight(globals: &HashMap<EpochId, u128>, epoch_id: EpochId) -> (weight: u128)
    ensures
        weight == global_weight_at(globals@, epoch_id),
{
    match globals.get(&epoch_id) {
        Some(weight) => *weight,
        None => 0,
    }
}

} // verus!
