//! Flows and their emission: the decaying-remainder rule and its memo.

use std::collections::HashMap;
use vstd::prelude::*;

use crate::asset::Asset;

verus! {

broadcast use vstd::std_specs::hash::group_hash_axioms;

/// The number of an epoch, the unit of time in which rewards accrue.
pub type EpochId = u64;

/// A funded, time-bounded emission schedule for one reward asset.
#[derive(Debug, PartialEq, Eq)]
pub struct Flow {
    /// Identifies the flow.
    pub flow_id: u64,
    /// The rewarded asset and the total amount the flow was funded with.
    pub flow_asset: Asset,
    /// How much of the funded amount has been claimed so far.
    pub claimed_amount: u128,
    /// The first epoch in which the flow emits.
    pub start_epoch: EpochId,
    /// The first epoch in which the flow no longer emits.
    pub end_epoch: EpochId,
    /// For each epoch visited so far, the tokens emitted up to and including it.
    pub emitted_tokens: HashMap<EpochId, u128>,
}

/// A flow as contracts see it: the emission memo is a mathematical map.
pub struct FlowView {
    pub flow_id: u64,
    pub flow_asset: Asset,
    pub claimed_amount: u128,
    pub start_epoch: EpochId,
    pub end_epoch: EpochId,
    pub emitted_tokens: Map<EpochId, u128>,
}

impl View for Flow {
    type V = FlowView;

    open spec fn view(&self) -> FlowView {
        FlowView {
            flow_id: self.flow_id,
            flow_asset: self.flow_asset,
            claimed_amount: self.claimed_amount,
            start_epoch: self.start_epoch,
            end_epoch: self.end_epoch,
            emitted_tokens: self.emitted_tokens@,
        }
    }
}

impl FlowView {
    /// Whether the flow emits during `epoch`.
    pub open spec fn is_active(self, epoch: EpochId) -> bool {
        self.start_epoch <= epoch < self.end_epoch
    }

    /// The flow's invariant. No more has been claimed than the flow was funded with,
    /// and the memo is what walks from the start of the flow leave behind: it holds
    /// entries for active epochs only, with every entry after the first its
    /// predecessor is there too, and every entry is the one that the rule derives.
    /// The entries of such a memo never decrease from one epoch to the next.
    pub open spec fn well_formed(self) -> bool {
        &&& self.claimed_amount <= self.flow_asset.amount
        &&& well_formed_memo(
            self.flow_asset.amount,
            self.start_epoch,
            self.end_epoch,
            self.emitted_tokens,
        )
    }

    /// The same flow with another emission memo.
    pub open spec fn with_memo(self, memo: Map<EpochId, u128>) -> FlowView {
        FlowView { emitted_tokens: memo, ..self }
    }
}

/// The cumulative emission recorded for the epoch before `epoch`; zero where the memo
/// holds none, and for the very first epoch.
pub open spec fn emitted_before(memo: Map<EpochId, u128>, epoch: EpochId) -> u128 {
    if epoch > 0 && memo.contains_key((epoch - 1) as u64) {
        memo[(epoch - 1) as u64]
    } else {
        0
    }
}

/// What is left of `amount` once `emitted` tokens are out; never negative.
pub open spec fn remaining(amount: u128, emitted: u128) -> u128 {
    if amount >= emitted {
        (amount - emitted) as u128
    } else {
        0
    }
}

/// The decaying-remainder rule: an epoch emits an equal part of what is left, for
/// each of the epochs that remain, rounded down.
pub open spec fn emission_of(
    amount: u128,
    end_epoch: EpochId,
    emitted: u128,
    epoch: EpochId,
) -> u128
    recommends
        epoch < end_epoch,
{
    (remaining(amount, emitted) / ((end_epoch - epoch) as u128)) as u128
}

/// The tokens that a flow emits during `epoch`, as the memo stands.
pub open spec fn emission_at(
    amount: u128,
    end_epoch: EpochId,
    memo: Map<EpochId, u128>,
    epoch: EpochId,
) -> u128
    recommends
        epoch < end_epoch,
{
    emission_of(amount, end_epoch, emitted_before(memo, epoch), epoch)
}

/// The memo once `epoch` has been visited: a missing entry is filled with the new
/// cumulative emission, an entry that is there stays as it is.
pub open spec fn recorded(
    amount: u128,
    end_epoch: EpochId,
    memo: Map<EpochId, u128>,
    epoch: EpochId,
) -> Map<EpochId, u128>
    recommends
        epoch < end_epoch,
{
    if memo.contains_key(epoch) {
        memo
    } else {
        memo.insert(
            epoch,
            (emitted_before(memo, epoch) + emission_at(amount, end_epoch, memo, epoch)) as u128,
        )
    }
}

/// A memo as walks from the start of a flow leave it behind.
pub open spec fn well_formed_memo(
    amount: u128,
    start_epoch: EpochId,
    end_epoch: EpochId,
    memo: Map<EpochId, u128>,
) -> bool {
    forall|epoch: EpochId| #[trigger]
        memo.contains_key(epoch) ==> {
            &&& start_epoch <= epoch < end_epoch
            &&& epoch > start_epoch ==> memo.contains_key((epoch - 1) as u64)
            &&& memo[epoch] == emitted_before(memo, epoch) + emission_at(
                amount,
                end_epoch,
                memo,
                epoch,
            )
        }
}

/// The memo once the epochs from `lo` up to, not including, `hi` have been visited
/// in increasing order.
pub open spec fn replayed(
    amount: u128,
    end_epoch: EpochId,
    memo: Map<EpochId, u128>,
    lo: EpochId,
    hi: EpochId,
) -> Map<EpochId, u128>
    recommends
        hi <= end_epoch,
    decreases hi - lo,
{
    if hi <= lo {
        memo
    } else {
        recorded(
            amount,
            end_epoch,
            replayed(amount, end_epoch, memo, lo, (hi - 1) as u64),
            (hi - 1) as u64,
        )
    }
}

/// The tokens emitted during `epoch` by a replay that began at `lo` on `memo`.
pub open spec fn emission_in_replay(
    amount: u128,
    end_epoch: EpochId,
    memo: Map<EpochId, u128>,
    lo: EpochId,
    epoch: EpochId,
) -> u128
    recommends
        lo <= epoch < end_epoch,
{
    emission_at(amount, end_epoch, replayed(amount, end_epoch, memo, lo, epoch), epoch)
}

/// An epoch never emits more than what is left of the flow, and the new cumulative
/// emission fits the amount type.
pub proof fn lemma_emission_within_remaining(
    amount: u128,
    end_epoch: EpochId,
    emitted: u128,
    epoch: EpochId,
)
    requires
        epoch < end_epoch,
    ensures
        emission_of(amount, end_epoch, emitted, epoch) <= remaining(amount, emitted),
        emission_of(amount, end_epoch, emitted, epoch) <= amount,
        emitted + emission_of(amount, end_epoch, emitted, epoch) <= u128::MAX,
        emitted <= amount ==> emitted + emission_of(amount, end_epoch, emitted, epoch) <= amount,
{
    let left = remaining(amount, emitted) as int;
    let epochs = (end_epoch - epoch) as int;
    assert(left / epochs <= left) by (nonlinear_arith)
        requires
            left >= 0,
            epochs >= 1,
    ;
}

/// The tokens a flow emits during `epoch_id`, given what it had emitted before.
pub fn emission_for_epoch(
    amount: u128,
    end_epoch: EpochId,
    emitted: u128,
    epoch_id: EpochId,
) -> (emission: u128)
    requires
        epoch_id < end_epoch,
    ensures
        emission == emission_of(amount, end_epoch, emitted, epoch_id),
{
    let left: u128 = amount.saturating_sub(emitted);
    let epochs: u64 = end_epoch - epoch_id;
    left / (epochs as u128)
}

/// The cumulative emission that the memo holds for the epoch before `epoch_id`.
pub fn previously_emitted(memo: &HashMap<EpochId, u128>, epoch_id: EpochId) -> (emitted: u128)
    ensures
        emitted == emitted_before(memo@, epoch_id),
{
    if epoch_id == 0 {
        return 0;
    }
    let previous: u64 = epoch_id - 1;
    match memo.get(&previous) {
        Some(emitted) => *emitted,
        None => 0,
    }
}

/// Derives the emission of `epoch_id` and fills the memo's entry for that epoch if
/// it has none.
pub fn derive_emission(
    amount: u128,
    end_epoch: EpochId,
    memo: &mut HashMap<EpochId, u128>,
    epoch_id: EpochId,
) -> (emission: u128)
    requires
        epoch_id < end_epoch,
    ensures
        emission == emission_at(amount, end_epoch, old(memo)@, epoch_id),
        final(memo)@ == recorded(amount, end_epoch, old(memo)@, epoch_id),
{
    let emitted: u128 = previously_emitted(memo, epoch_id);
    let emission: u128 = emission_for_epoch(amount, end_epoch, emitted, epoch_id);
    if !memo.contains_key(&epoch_id) {
        proof {
            lemma_emission_within_remaining(amount, end_epoch, emitted, epoch_id);
        }
        memo.insert(epoch_id, emitted + emission);
    }
    emission
}

impl Flow {
    /// A flow from which nothing has been emitted or claimed yet.
    pub fn new(flow_id: u64, flow_asset: Asset, start_epoch: EpochId, end_epoch: EpochId) -> (flow:
        Flow)
        ensures
            flow@.well_formed(),
            flow.flow_id == flow_id,
            flow.flow_asset == flow_asset,
            flow.claimed_amount == 0,
            flow.start_epoch == start_epoch,
            flow.end_epoch == end_epoch,
            flow@.emitted_tokens == Map::<EpochId, u128>::empty(),
    {
        Flow {
            flow_id,
            flow_asset,
            claimed_amount: 0,
            start_epoch,
            end_epoch,
            emitted_tokens: HashMap::new(),
        }
    }

    /// Whether the flow emits during `epoch_id`.
    pub fn is_active(&self, epoch_id: EpochId) -> (active: bool)
        ensures
            active == self@.is_active(epoch_id),
    {
        self.start_epoch <= epoch_id && epoch_id < self.end_epoch
    }

    /// The tokens emitted during `epoch_id`, or nothing where the flow is not active
    /// in that epoch. The memo's entry for an active epoch is filled if it was missing.
    pub fn derive_emission(&mut self, epoch_id: EpochId) -> (emission: Option<u128>)
        ensures
            old(self)@.is_active(epoch_id) ==> emission == Some(
                emission_at(
                    old(self).flow_asset.amount,
                    old(self).end_epoch,
                    old(self)@.emitted_tokens,
                    epoch_id,
                ),
            ) && final(self)@ == old(self)@.with_memo(
                recorded(
                    old(self).flow_asset.amount,
                    old(self).end_epoch,
                    old(self)@.emitted_tokens,
                    epoch_id,
                ),
            ),
            !old(self)@.is_active(epoch_id) ==> emission.is_none() && *final(self) == *old(self),
    {
        if self.is_active(epoch_id) {
            let emission: u128 = derive_emission(
                self.flow_asset.amount,
                self.end_epoch,
                &mut self.emitted_tokens,
                epoch_id,
            );
            Some(emission)
        } else {
            None
        }
    }
}

} // verus!
