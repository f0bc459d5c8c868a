//! The data of the bonding manager: its settings, its records and its messages.

use vstd::prelude::*;

use crate::epoch_manager::Epoch as EpochV2;
use crate::share::Decimal;

verus! {

/// An amount of a native coin.
#[derive(Debug, PartialEq, Eq)]
pub struct Coin {
    /// The denomination of the coin.
    pub denom: String,
    /// The number of coins.
    pub amount: u128,
}

impl Clone for Coin {
    fn clone(&self) -> (copy: Self)
        ensures
            copy == *self,
    {
        Coin { denom: self.denom.clone(), amount: self.amount }
    }
}

/// The settings of the bonding manager.
#[derive(Debug, PartialEq, Eq)]
pub struct Config {
    /// Pool Manager contract address for swapping
    pub pool_manager_addr: String,
    /// Epoch Manager contract address
    pub epoch_manager_addr: String,
    /// Distribution denom for the rewards
    pub distribution_denom: String,
    /// Unbonding period in nanoseconds. The time that needs to pass before an unbonded
    /// position can be withdrawn
    pub unbonding_period: u64,
    /// A fraction that controls the effect of time on the weight of a bond. If the growth
    /// rate is set to zero, time will have no impact on the weight.
    pub growth_rate: Decimal,
    /// Denoms of the assets that can be bonded. Can only be set at instantiation.
    pub bonding_assets: Vec<String>,
    /// Grace period: the maximum age of an epoch bucket before it's considered expired and
    /// fees are forwarded from it
    pub grace_period: u64,
}

/// The total bonded in the contract and its weight.
#[derive(Debug, PartialEq, Eq)]
pub struct GlobalIndex {
    /// The total amount of tokens bonded in the contract.
    pub bonded_amount: u128,
    /// Assets that are bonded in the contract.
    pub bonded_assets: Vec<Coin>,
    /// The epoch id at which the total bond was updated.
    pub last_updated: u64,
    /// The total weight of the bond at the given block height.
    pub weight: u128,
}

impl Default for GlobalIndex {
    fn default() -> (index: Self)
        ensures
            index.bonded_amount == 0,
            index.bonded_assets@ == Seq::<Coin>::empty(),
            index.last_updated == 0,
            index.weight == 0,
    {
        GlobalIndex { bonded_amount: 0, bonded_assets: Vec::new(), last_updated: 0, weight: 0 }
    }
}

/// A bucket of fees that are distributed in one epoch.
#[derive(Debug, PartialEq, Eq)]
pub struct Epoch {
    /// Epoch identifier
    pub id: u64,
    /// Epoch start time, in nanoseconds since the Unix epoch
    pub start_time: u64,
    /// Initial fees to be distributed in this epoch.
    pub total: Vec<Coin>,
    /// Fees left to be claimed on this epoch. These available fees are forwarded when the
    /// epoch expires.
    pub available: Vec<Coin>,
    /// Fees that were claimed on this epoch. For keeping record on the total fees claimed.
    pub claimed: Vec<Coin>,
    /// Global index taken at the time of Epoch Creation
    pub global_index: GlobalIndex,
}

impl Default for Epoch {
    fn default() -> (epoch: Self)
        ensures
            epoch.id == 0,
            epoch.start_time == 0,
            epoch.total@ == Seq::<Coin>::empty(),
            epoch.available@ == Seq::<Coin>::empty(),
            epoch.claimed@ == Seq::<Coin>::empty(),
            epoch.global_index.bonded_amount == 0,
            epoch.global_index.bonded_assets@ == Seq::<Coin>::empty(),
            epoch.global_index.last_updated == 0,
            epoch.global_index.weight == 0,
    {
        Epoch {
            id: 0,
            start_time: 0,
            total: Vec::new(),
            available: Vec::new(),
            claimed: Vec::new(),
            global_index: GlobalIndex::default(),
        }
    }
}

/// A bonded position.
#[derive(Debug, PartialEq, Eq)]
pub struct Bond {
    /// The amount of bonded tokens.
    pub asset: Coin,
    /// The epoch id at which the Bond was created.
    pub created_at_epoch: u64,
    /// The epoch id at which the bond was last time updated.
    pub updated_last: u64,
    /// The weight of the bond at the given block height.
    pub weight: u128,
}

impl Default for Bond {
    fn default() -> (bond: Self)
        ensures
            bond.asset.denom@ == Seq::<char>::empty(),
            bond.asset.amount == 0,
            bond.created_at_epoch == 0,
            bond.updated_last == 0,
            bond.weight == 0,
    {
        Bond {
            asset: Coin { denom: String::new(), amount: 0 },
            created_at_epoch: 0,
            updated_last: 0,
            weight: 0,
        }
    }
}

/// What the bonding manager is set up with.
#[derive(Debug, PartialEq, Eq)]
pub struct InstantiateMsg {
    /// Denom to be swapped to and rewarded
    pub distribution_denom: String,
    /// Unbonding period in epochs. The time (in epochs) that needs to pass before an
    /// unbonded position can be withdrawn
    pub unbonding_period: u64,
    /// Weight grow rate. Needs to be between 0 and 1.
    pub growth_rate: Decimal,
    /// Denoms of the assets that can be bonded.
    pub bonding_assets: Vec<String>,
    /// Grace period: the maximum age of an epoch bucket before it's considered expired and
    /// fees are forwarded from it
    pub grace_period: u64,
    /// The epoch manager contract
    pub epoch_manager_addr: String,
}

/// Tells the bonding manager that a new epoch has begun.
#[derive(Clone, Copy, Debug, PartialEq, Eq, Structural)]
pub struct EpochChangedHookMsg {
    /// The epoch that has just begun.
    pub current_epoch: EpochV2,
}

/// The message of a migration; it carries nothing.
#[derive(Clone, Copy, Debug, PartialEq, Eq, Structural)]
pub struct MigrateMsg {}

/// Response for the Bonded query
#[derive(Debug, PartialEq, Eq)]
pub struct BondedResponse {
    /// The total amount of bonded tokens by the address. Bear in mind the bonded assets are
    /// considered to be equal for this purpose.
    pub total_bonded: u128,
    /// The total amount of bonded assets by the address.
    pub bonded_assets: Vec<Coin>,
    /// If Some, the epoch id at which the user/address bonded first time. None is used when this
    /// Response is used to check the bonded assets in the contract.
    pub first_bonded_epoch_id: Option<u64>,
}

/// Response for the Unbonding query
#[derive(Debug, PartialEq, Eq)]
pub struct UnbondingResponse {
    /// The total amount of unbonded tokens by the address.
    pub total_amount: u128,
    /// The total amount of unbonded assets by the address.
    pub unbonding_requests: Vec<Bond>,
}

/// Response for the Withdrawable query
#[derive(Clone, Copy, Debug, PartialEq, Eq, Structural)]
pub struct WithdrawableResponse {
    /// The total amount of withdrawable assets by the address.
    pub withdrawable_amount: u128,
}

/// Response for the Weight query.
#[derive(Debug, PartialEq, Eq)]
pub struct BondingWeightResponse {
    /// The weight of the address.
    pub address: String,
    /// The weight of the address at the given timestamp.
    pub weight: u128,
    /// The global weight of the contract.
    pub global_weight: u128,
    /// The share the address has of the rewards at the particular timestamp.
    pub share: Decimal,
    /// The epoch id at which the weight was calculated.
    pub epoch_id: u64,
}

/// Response for the Claimable query
#[derive(Debug, PartialEq, Eq)]
pub struct ClaimableEpochsResponse {
    /// The epochs that can be claimed by the address.
    pub epochs: Vec<Epoch>,
}

} // verus!
