//! The epochs of the fee distributor, and their change of layout.

use vstd::prelude::*;

use crate::asset::Asset;

verus! {

/// The total bonded in the bonding contract and its weight, at one point in time.
#[derive(Debug, PartialEq, Eq)]
pub struct GlobalIndex {
    /// The total amount of tokens bonded in the contract.
    pub bonded_amount: u128,
    /// Assets that are bonded in the contract.
    pub bonded_assets: Vec<Asset>,
    /// When the index was taken, in nanoseconds since the Unix epoch.
    pub timestamp: u64,
    /// The total weight of the bond at that time.
    pub weight: u128,
}

/// A bucket of fees as the first version of the fee distributor stored it.
#[derive(Debug, PartialEq, Eq)]
pub struct EpochV08 {
    /// Epoch identifier
    pub id: u64,
    /// Epoch start time, in nanoseconds since the Unix epoch
    pub start_time: u64,
    /// Initial fees to be distributed in this epoch.
    pub total: Vec<Asset>,
    /// Fees left to be claimed on this epoch.
    pub available: Vec<Asset>,
    /// Fees that were claimed on this epoch.
    pub claimed: Vec<Asset>,
}

/// A bucket of fees with the global index taken when the epoch was created.
#[derive(Debug, PartialEq, Eq)]
pub struct Epoch {
    /// Epoch identifier
    pub id: u64,
    /// Epoch start time, in nanoseconds since the Unix epoch
    pub start_time: u64,
    /// Initial fees to be distributed in this epoch.
    pub total: Vec<Asset>,
    /// Fees left to be claimed on this epoch.
    pub available: Vec<Asset>,
    /// Fees that were claimed on this epoch.
    pub claimed: Vec<Asset>,
    /// Global index taken at the time of epoch creation
    pub global_index: GlobalIndex,
}

/// A copy of a list of assets.
pub fn clone_assets(assets: &Vec<Asset>) -> (copy: Vec<Asset>)
    ensures
        copy@ == assets@,
{
    let mut copy: Vec<Asset> = Vec::new();
    let mut i: usize = 0;
    while i < assets.len()
        invariant
            i <= assets.len(),
            copy@ == assets@.take(i as int),
        decreases assets.len() - i,
    {
        copy.push(assets[i].clone());
        assert(copy@ == assets@.take(i + 1));
        i = i + 1;
    }
    assert(assets@.take(i as int) == assets@);
    copy
}

impl Clone for GlobalIndex {
    fn clone(&self) -> (copy: Self)
        ensures
            copy.bonded_amount == self.bonded_amount,
            copy.bonded_assets@ == self.bonded_assets@,
            copy.timestamp == self.timestamp,
            copy.weight == self.weight,
    {
        GlobalIndex {
            bonded_amount: self.bonded_amount,
            bonded_assets: clone_assets(&self.bonded_assets),
            timestamp: self.timestamp,
            weight: self.weight,
        }
    }
}

impl EpochV08 {
    /// The epoch in the layout of the later version, with the given global index.
    pub fn upgrade(self, global_index: GlobalIndex) -> (epoch: Epoch)
        ensures
            epoch.id == self.id,
            epoch.start_time == self.start_time,
            epoch.total == self.total,
            epoch.available == self.available,
            epoch.claimed == self.claimed,
            epoch.global_index == global_index,
    {
        Epoch {
            id: self.id,
            start_time: self.start_time,
            total: self.total,
            available: self.available,
            claimed: self.claimed,
            global_index,
        }
    }
}

/// Whether `epoch` is `old` in the later layout, with a copy of `global_index`.
pub open spec fn upgraded(epoch: Epoch, old: EpochV08, global_index: GlobalIndex) -> bool {
    &&& epoch.id == old.id
    &&& epoch.start_time == old.start_time
    &&& epoch.total == old.total
    &&& epoch.available == old.available
    &&& epoch.claimed == old.claimed
    &&& epoch.global_index.bonded_amount == global_index.bonded_amount
    &&& epoch.global_index.bonded_assets@ == global_index.bonded_assets@
    &&& epoch.global_index.timestamp == global_index.timestamp
    &&& epoch.global_index.weight == global_index.weight
}

/// Brings the epochs of the first version into the layout of the later one, in their
/// order: every epoch keeps what it held and is given the current global index.
pub fn migrate_to_v090(epochs_v08: Vec<EpochV08>, global_index: &GlobalIndex) -> (epochs: Vec<
    Epoch,
>)
    ensures
        epochs.len() == epochs_v08.len(),
        forall|i: int|
            0 <= i < epochs.len() ==> upgraded(#[trigger] epochs[i], epochs_v08[i], *global_index),
{
    let ghost before = epochs_v08@;
    let mut remaining = epochs_v08;
    let mut reversed: Vec<Epoch> = Vec::new();
    while remaining.len() > 0
        invariant
            remaining@ == before.take(remaining.len() as int),
            reversed.len() + remaining.len() == before.len(),
            forall|j: int|
                0 <= j < reversed.len() ==> upgraded(
                    #[trigger] reversed[j],
                    before[before.len() - 1 - j],
                    *global_index,
                ),
        decreases remaining.len(),
    {
        let old_epoch = remaining.pop().unwrap();
        reversed.push(old_epoch.upgrade(global_index.clone()));
    }
    let mut epochs: Vec<Epoch> = Vec::new();
    while reversed.len() > 0
        invariant
            epochs.len() + reversed.len() == before.len(),
            forall|j: int|
                0 <= j < reversed.len() ==> upgraded(
                    #[trigger] reversed[j],
                    before[before.len() - 1 - j],
                    *global_index,
                ),
            forall|i: int|
                0 <= i < epochs.len() ==> upgraded(#[trigger] epochs[i], before[i], *global_index),
        decreases reversed.len(),
    {
        let epoch = reversed.pop().unwrap();
        epochs.push(epoch);
    }
    epochs
}

} // verus!
