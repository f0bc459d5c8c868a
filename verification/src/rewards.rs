//! What an address may claim: the walk over the epochs of each flow.

use std::collections::HashMap;
use vstd::prelude::*;

use crate::asset::Asset;
use crate::error::ContractError;
use crate::flow::{derive_emission, emission_at, recorded, replayed, EpochId, Flow, FlowView};
use crate::schedule::lemma_walk_keeps_well_formed;
use crate::share::{reward_share, share_of_emission};
use crate::weights::{
    cursor_after, cursor_from, cursor_through, global_weight, global_weight_at, weight_seen,
    WeightCursor,
};

verus! {

broadcast use vstd::std_specs::hash::group_hash_axioms;

/// What is read for one address before its rewards are computed; nothing in it
/// changes while the computation runs.
#[derive(Debug, PartialEq, Eq)]
pub struct Snapshot {
    /// The epoch the computation takes place in.
    pub current_epoch: EpochId,
    /// The last epoch for which the address claimed, if it ever did.
    pub last_claimed_epoch: Option<EpochId>,
    /// The address's earliest recorded weight change: its epoch and its weight.
    pub earliest_weight: Option<(EpochId, u128)>,
    /// The address's weight, recorded only for the epochs in which it changed.
    pub address_weights: HashMap<EpochId, u128>,
    /// The weight of all addresses together, per epoch.
    pub global_weights: HashMap<EpochId, u128>,
}

/// A snapshot as contracts see it: the two histories are mathematical maps.
pub struct SnapshotView {
    pub current_epoch: EpochId,
    pub last_claimed_epoch: Option<EpochId>,
    pub earliest_weight: Option<(EpochId, u128)>,
    pub address_weights: Map<EpochId, u128>,
    pub global_weights: Map<EpochId, u128>,
}

impl View for Snapshot {
    type V = SnapshotView;

    open spec fn view(&self) -> SnapshotView {
        SnapshotView {
            current_epoch: self.current_epoch,
            last_claimed_epoch: self.last_claimed_epoch,
            earliest_weight: self.earliest_weight,
            address_weights: self.address_weights@,
            global_weights: self.global_weights@,
        }
    }
}

/// What an address may claim: one entry per flow that owes it anything.
#[derive(Debug, PartialEq, Eq)]
pub struct RewardsResponse {
    pub rewards: Vec<Asset>,
}

/// The reward of one epoch after the two consistency checks: it may not exceed what
/// the epoch emitted, and together with what was claimed before it may not exceed
/// what the flow was funded with.
pub open spec fn checked_reward(
    emission: u128,
    claimed: u128,
    amount: u128,
    user_weight: u128,
    global_weight: u128,
) -> Result<u128, ContractError> {
    let reward = reward_share(emission as nat, user_weight as nat, global_weight as nat);
    if global_weight == 0 {
        Err(ContractError::DivideByZero)
    } else if reward > u128::MAX {
        Err(ContractError::ConversionOverflow)
    } else if reward > emission {
        Err(ContractError::InvalidReward)
    } else if reward + claimed > u128::MAX {
        Err(ContractError::Overflow)
    } else if reward + claimed > amount {
        Err(ContractError::InvalidReward)
    } else {
        Ok(reward as u128)
    }
}

/// What `epoch` adds to the address's reward from `flow`, as the memo and the cursor
/// stand: nothing where the address has no weight yet or the epoch has no global
/// weight, else the checked share of the epoch's emission.
pub open spec fn reward_at(
    flow: FlowView,
    memo: Map<EpochId, u128>,
    cursor: WeightCursor,
    snapshot: SnapshotView,
    epoch: EpochId,
) -> Result<u128, ContractError> {
    let emission = emission_at(flow.flow_asset.amount, flow.end_epoch, memo, epoch);
    let global = global_weight_at(snapshot.global_weights, epoch);
    match weight_seen(cursor, snapshot.address_weights, epoch) {
        None => Ok(0),
        Some(user_weight) => if global == 0 {
            Ok(0)
        } else {
            checked_reward(
                emission,
                flow.claimed_amount,
                flow.flow_asset.amount,
                user_weight,
                global,
            )
        },
    }
}

/// What `epoch` adds to the reward in a walk that began at `lo`.
pub open spec fn contribution(
    flow: FlowView,
    snapshot: SnapshotView,
    lo: EpochId,
    epoch: EpochId,
) -> Result<u128, ContractError> {
    reward_at(
        flow,
        replayed(flow.flow_asset.amount, flow.end_epoch, flow.emitted_tokens, lo, epoch),
        cursor_through(cursor_from(snapshot.earliest_weight), snapshot.address_weights, lo, epoch),
        snapshot,
        epoch,
    )
}

/// The reward accumulated over the epochs from `lo` up to, not including, `hi`: the
/// sum of their contributions, or the first failure met on the way.
pub open spec fn accrued(
    flow: FlowView,
    snapshot: SnapshotView,
    lo: EpochId,
    hi: EpochId,
) -> Result<u128, ContractError>
    decreases hi - lo,
{
    if hi <= lo {
        Ok(0)
    } else {
        match accrued(flow, snapshot, lo, (hi - 1) as u64) {
            Err(e) => Err(e),
            Ok(total) => match contribution(flow, snapshot, lo, (hi - 1) as u64) {
                Err(e) => Err(e),
                Ok(reward) => if total + reward > u128::MAX {
                    Err(ContractError::Overflow)
                } else {
                    Ok((total + reward) as u128)
                },
            },
        }
    }
}

/// The first epoch an address has not claimed yet: the one after its last claim; for
/// an address that never claimed, the flow's start or, where that is earlier, the
/// epoch of the address's earliest weight change.
pub open spec fn first_claimable(
    last_claimed_epoch: Option<EpochId>,
    earliest_change: EpochId,
    start_epoch: EpochId,
) -> int {
    match last_claimed_epoch {
        Some(last) => last + 1,
        None => if start_epoch > earliest_change {
            earliest_change as int
        } else {
            start_epoch as int
        },
    }
}

/// The first epoch of `flow` that a walk for the address visits.
pub open spec fn range_start(flow: FlowView, snapshot: SnapshotView) -> int {
    let first = first_claimable(
        snapshot.last_claimed_epoch,
        cursor_from(snapshot.earliest_weight).epoch,
        flow.start_epoch,
    );
    if first < flow.start_epoch {
        flow.start_epoch as int
    } else {
        first
    }
}

/// The epoch before which a walk stops: the one after the current epoch, or the
/// flow's end where that comes first.
pub open spec fn range_end(flow: FlowView, snapshot: SnapshotView) -> int {
    if snapshot.current_epoch < flow.end_epoch {
        snapshot.current_epoch + 1
    } else {
        flow.end_epoch as int
    }
}

/// A flow that has ended and has been claimed in full owes nothing and is not walked.
pub open spec fn is_exhausted(flow: FlowView, current_epoch: EpochId) -> bool {
    current_epoch > flow.end_epoch && flow.claimed_amount == flow.flow_asset.amount
}

/// The reward that `flow` owes the address, or the failure that aborts the computation.
pub open spec fn flow_reward(flow: FlowView, snapshot: SnapshotView) -> Result<
    u128,
    ContractError,
> {
    if range_start(flow, snapshot) > u64::MAX {
        Err(ContractError::Overflow)
    } else {
        accrued(
            flow,
            snapshot,
            range_start(flow, snapshot) as u64,
            range_end(flow, snapshot) as u64,
        )
    }
}

/// The emission memo of `flow` once the address's epochs have been walked.
pub open spec fn settled_memo(flow: FlowView, snapshot: SnapshotView) -> Map<EpochId, u128> {
    replayed(
        flow.flow_asset.amount,
        flow.end_epoch,
        flow.emitted_tokens,
        range_start(flow, snapshot) as u64,
        range_end(flow, snapshot) as u64,
    )
}

/// The flow after a computation that succeeded: an exhausted flow is as it was, any
/// other has its memo filled for the epochs walked.
pub open spec fn flow_after(flow: FlowView, snapshot: SnapshotView) -> FlowView {
    if is_exhausted(flow, snapshot.current_epoch) {
        flow
    } else {
        flow.with_memo(settled_memo(flow, snapshot))
    }
}

/// The rewards owed by the first `n` flows, in the order of the flows: exhausted
/// flows and flows that owe nothing have no entry. The first failure aborts.
pub open spec fn rewards_of(flows: Seq<Flow>, snapshot: SnapshotView, n: int) -> Result<
    Seq<Asset>,
    ContractError,
>
    decreases n,
{
    if n <= 0 {
        Ok(Seq::empty())
    } else {
        let flow = flows[n - 1]@;
        match rewards_of(flows, snapshot, n - 1) {
            Err(e) => Err(e),
            Ok(rewards) => if is_exhausted(flow, snapshot.current_epoch) {
                Ok(rewards)
            } else {
                match flow_reward(flow, snapshot) {
                    Err(e) => Err(e),
                    Ok(total) => if total == 0 {
                        Ok(rewards)
                    } else {
                        Ok(rewards.push(Asset { info: flow.flow_asset.info, amount: total }))
                    },
                }
            },
        }
    }
}

/// Everything the address may claim in the current epoch: nothing where it has
/// claimed in this epoch already, else what the flows owe it.
pub open spec fn claimable(flows: Seq<Flow>, snapshot: SnapshotView) -> Result<
    Seq<Asset>,
    ContractError,
> {
    if snapshot.last_claimed_epoch == Some(snapshot.current_epoch) {
        Ok(Seq::empty())
    } else {
        rewards_of(flows, snapshot, flows.len() as int)
    }
}

/// No flow is listed with a reward of zero.
pub proof fn lemma_no_zero_rewards(flows: Seq<Flow>, snapshot: SnapshotView, n: int)
    requires
        rewards_of(flows, snapshot, n) is Ok,
    ensures
        forall|i: int|
            0 <= i < rewards_of(flows, snapshot, n)->Ok_0.len() ==> (#[trigger] rewards_of(
                flows,
                snapshot,
                n,
            )->Ok_0[i]).amount > 0,
    decreases n,
{
    if n > 0 {
        lemma_no_zero_rewards(flows, snapshot, n - 1);
    }
}

/// Once a walk has failed, walking further does not change the failure.
pub proof fn lemma_failure_is_final(
    flow: FlowView,
    snapshot: SnapshotView,
    lo: EpochId,
    mid: EpochId,
    hi: EpochId,
)
    requires
        mid <= hi,
        accrued(flow, snapshot, lo, mid) is Err,
    ensures
        accrued(flow, snapshot, lo, hi) == accrued(flow, snapshot, lo, mid),
    decreases hi - mid,
{
    if mid < hi {
        lemma_failure_is_final(flow, snapshot, lo, mid, (hi - 1) as u64);
    }
}

/// Once a flow has failed, the flows after it do not change the failure.
pub proof fn lemma_first_failure_wins(flows: Seq<Flow>, snapshot: SnapshotView, n: int, m: int)
    requires
        0 <= n <= m,
        rewards_of(flows, snapshot, n) is Err,
    ensures
        rewards_of(flows, snapshot, m) == rewards_of(flows, snapshot, n),
    decreases m - n,
{
    if n < m {
        lemma_first_failure_wins(flows, snapshot, n, m - 1);
    }
}

/// An epoch whose global weight is zero, or not recorded, adds nothing to the reward
/// and cannot make the computation fail.
pub proof fn lemma_zero_global_weight_adds_nothing(
    flow: FlowView,
    snapshot: SnapshotView,
    lo: EpochId,
    epoch: EpochId,
)
    requires
        lo <= epoch < u64::MAX,
        global_weight_at(snapshot.global_weights, epoch) == 0,
    ensures
        contribution(flow, snapshot, lo, epoch) == Ok::<u128, ContractError>(0),
        accrued(flow, snapshot, lo, (epoch + 1) as u64) == accrued(flow, snapshot, lo, epoch),
{
}

/// An address with no weight recorded at or before an epoch receives nothing for that
/// epoch, and the epoch cannot make the computation fail.
pub proof fn lemma_no_weight_adds_nothing(
    flow: FlowView,
    snapshot: SnapshotView,
    lo: EpochId,
    epoch: EpochId,
)
    requires
        lo <= epoch < u64::MAX,
        forall|e: EpochId| e <= epoch ==> !snapshot.address_weights.contains_key(e),
        snapshot.earliest_weight matches Some((first, _)) ==> first > epoch,
    ensures
        contribution(flow, snapshot, lo, epoch) == Ok::<u128, ContractError>(0),
        accrued(flow, snapshot, lo, (epoch + 1) as u64) == accrued(flow, snapshot, lo, epoch),
{
    lemma_cursor_rests(snapshot, lo, epoch);
}

proof fn lemma_cursor_rests(snapshot: SnapshotView, lo: EpochId, hi: EpochId)
    requires
        forall|e: EpochId| e < hi ==> !snapshot.address_weights.contains_key(e),
    ensures
        cursor_through(cursor_from(snapshot.earliest_weight), snapshot.address_weights, lo, hi)
            == cursor_from(snapshot.earliest_weight),
    decreases hi - lo,
{
    if hi > lo {
        lemma_cursor_rests(snapshot, lo, (hi - 1) as u64);
    }
}

/// A computation keeps a flow well formed, provided that the walk leaves no gap in
/// the memo: it visits no epoch, or begins at the start of the flow, or the memo
/// holds the entry before the first epoch of the walk.
pub proof fn lemma_settling_keeps_well_formed(flow: FlowView, snapshot: SnapshotView)
    requires
        flow.well_formed(),
        range_start(flow, snapshot) <= u64::MAX,
        range_start(flow, snapshot) >= range_end(flow, snapshot) || range_start(flow, snapshot)
            == flow.start_epoch || flow.emitted_tokens.contains_key(
            (range_start(flow, snapshot) - 1) as u64,
        ),
    ensures
        flow_after(flow, snapshot).well_formed(),
{
    let lo = range_start(flow, snapshot) as u64;
    let hi = range_end(flow, snapshot) as u64;
    if lo < hi {
        lemma_walk_keeps_well_formed(
            flow.flow_asset.amount,
            flow.start_epoch,
            flow.end_epoch,
            flow.emitted_tokens,
            lo,
            hi,
        );
    }
}

/// Whether the address has claimed in the current epoch already, so that nothing is
/// left to claim and nothing needs to be read.
pub fn already_claimed(current_epoch: EpochId, last_claimed_epoch: Option<EpochId>) -> (claimed:
    bool)
    ensures
        claimed == (last_claimed_epoch == Some(current_epoch)),
{
    match last_claimed_epoch {
        Some(last) => current_epoch == last,
        None => false,
    }
}

/// The first epoch to evaluate for an address: see [`first_claimable`]. Fails where
/// the epoch after the last claim cannot be numbered.
pub fn first_claimable_epoch(
    last_claimed_epoch: Option<EpochId>,
    earliest_change: EpochId,
    start_epoch: EpochId,
) -> (first: Result<EpochId, ContractError>)
    ensures
        first_claimable(last_claimed_epoch, earliest_change, start_epoch) <= u64::MAX ==> first
            == Ok::<EpochId, ContractError>(
            first_claimable(last_claimed_epoch, earliest_change, start_epoch) as u64,
        ),
        first_claimable(last_claimed_epoch, earliest_change, start_epoch) > u64::MAX ==> first
            == Err::<EpochId, ContractError>(ContractError::Overflow),
{
    match last_claimed_epoch {
        Some(last) => match last.checked_add(1) {
            Some(first) => Ok(first),
            None => Err(ContractError::Overflow),
        },
        None => if start_epoch > earliest_change {
            Ok(earliest_change)
        } else {
            Ok(start_epoch)
        },
    }
}

/// The reward of one epoch: the address's share of the emission, checked against the
/// emission and against what is left of the flow.
pub fn epoch_reward(
    emission: u128,
    claimed: u128,
    amount: u128,
    user_weight: u128,
    global_weight: u128,
) -> (reward: Result<u128, ContractError>)
    ensures
        reward == checked_reward(emission, claimed, amount, user_weight, global_weight),
{
    let reward: u128 = match share_of_emission(emission, user_weight, global_weight) {
        Ok(reward) => reward,
        Err(e) => {
            return Err(e);
        },
    };
    if reward > emission {
        return Err(ContractError::InvalidReward);
    }
    match reward.checked_add(claimed) {
        None => Err(ContractError::Overflow),
        Some(awarded) => if awarded > amount {
            Err(ContractError::InvalidReward)
        } else {
            Ok(reward)
        },
    }
}

impl Flow {
    /// Whether the flow has ended and has been claimed in full.
    pub fn is_exhausted(&self, current_epoch: EpochId) -> (exhausted: bool)
        ensures
            exhausted == is_exhausted(self@, current_epoch),
    {
        current_epoch > self.end_epoch && self.claimed_amount == self.flow_asset.amount
    }

    /// The epochs of the flow that a walk for the address visits: from the first
    /// epoch up to, not including, the second. Where the second is not after the
    /// first there is nothing to visit. Fails where the epoch after the last claim
    /// cannot be numbered.
    pub fn walk_range(&self, snapshot: &Snapshot) -> (range: Result<
        (EpochId, EpochId),
        ContractError,
    >)
        ensures
            range_start(self@, snapshot@) <= u64::MAX ==> range == Ok::<
                (EpochId, EpochId),
                ContractError,
            >((range_start(self@, snapshot@) as u64, range_end(self@, snapshot@) as u64)),
            range_start(self@, snapshot@) > u64::MAX ==> range == Err::<
                (EpochId, EpochId),
                ContractError,
            >(ContractError::Overflow),
            self.start_epoch <= range_start(self@, snapshot@),
            range_end(self@, snapshot@) <= self.end_epoch,
    {
        let earliest_change: EpochId = match snapshot.earliest_weight {
            Some((epoch, _)) => epoch,
            None => 0,
        };
        let first: EpochId = match first_claimable_epoch(
            snapshot.last_claimed_epoch,
            earliest_change,
            self.start_epoch,
        ) {
            Ok(first) => first,
            Err(e) => {
                return Err(e);
            },
        };
        let lo: EpochId = if first < self.start_epoch {
            self.start_epoch
        } else {
            first
        };
        let hi: EpochId = if snapshot.current_epoch < self.end_epoch {
            snapshot.current_epoch + 1
        } else {
            self.end_epoch
        };
        Ok((lo, hi))
    }

    /// Visits one epoch in which the flow is active: derives its emission on `memo`,
    /// resolves the two weights and returns what the epoch adds to the reward.
    pub fn accrue_epoch(
        &self,
        memo: &mut HashMap<EpochId, u128>,
        cursor: &mut WeightCursor,
        snapshot: &Snapshot,
        epoch_id: EpochId,
    ) -> (reward: Result<u128, ContractError>)
        requires
            self@.is_active(epoch_id),
        ensures
            reward == reward_at(self@, old(memo)@, *old(cursor), snapshot@, epoch_id),
            final(memo)@ == recorded(
                self.flow_asset.amount,
                self.end_epoch,
                old(memo)@,
                epoch_id,
            ),
            *final(cursor) == cursor_after(*old(cursor), snapshot@.address_weights, epoch_id),
    {
        let emission: u128 = derive_emission(
            self.flow_asset.amount,
            self.end_epoch,
            memo,
            epoch_id,
        );
        let user_weight: u128 = match cursor.resolve(&snapshot.address_weights, epoch_id) {
            Some(weight) => weight,
            None => {
                return Ok(0);
            },
        };
        let global: u128 = global_weight(&snapshot.global_weights, epoch_id);
        if global == 0 {
            return Ok(0);
        }
        epoch_reward(
            emission,
            self.claimed_amount,
            self.flow_asset.amount,
            user_weight,
            global,
        )
    }

    /// Walks the epochs that the address has not claimed yet and returns the reward
    /// the flow owes it, together with the flow's memo as the walk leaves it. The
    /// flow itself is not touched.
    pub fn accrue(&self, snapshot: &Snapshot) -> (outcome: Result<
        (u128, HashMap<EpochId, u128>),
        ContractError,
    >)
        ensures
            match outcome {
                Ok((total, memo)) => flow_reward(self@, snapshot@) == Ok::<u128, ContractError>(
                    total,
                ) && memo@ == settled_memo(self@, snapshot@),
                Err(e) => flow_reward(self@, snapshot@) == Err::<u128, ContractError>(e),
            },
    {
        let (lo, hi) = match self.walk_range(snapshot) {
            Ok(range) => range,
            Err(e) => {
                return Err(e);
            },
        };
        let mut cursor = WeightCursor::new(snapshot.earliest_weight);
        let mut memo = self.emitted_tokens.clone();
        let mut total: u128 = 0;
        if hi <= lo {
            return Ok((total, memo));
        }
        let mut epoch_id: EpochId = lo;
        while epoch_id < hi
            invariant
                self.start_epoch <= lo <= epoch_id <= hi,
                hi <= self.end_epoch,
                lo == range_start(self@, snapshot@),
                hi == range_end(self@, snapshot@),
                memo@ == replayed(
                    self.flow_asset.amount,
                    self.end_epoch,
                    self@.emitted_tokens,
                    lo,
                    epoch_id,
                ),
                cursor == cursor_through(
                    cursor_from(snapshot@.earliest_weight),
                    snapshot@.address_weights,
                    lo,
                    epoch_id,
                ),
                accrued(self@, snapshot@, lo, epoch_id) == Ok::<u128, ContractError>(total),
            decreases hi - epoch_id,
        {
            let reward: u128 = match self.accrue_epoch(&mut memo, &mut cursor, snapshot, epoch_id) {
                Ok(reward) => reward,
                Err(e) => {
                    proof {
                        lemma_failure_is_final(self@, snapshot@, lo, (epoch_id + 1) as u64, hi);
                    }
                    return Err(e);
                },
            };
            total = match total.checked_add(reward) {
                Some(sum) => sum,
                None => {
                    proof {
                        lemma_failure_is_final(self@, snapshot@, lo, (epoch_id + 1) as u64, hi);
                    }
                    return Err(ContractError::Overflow);
                },
            };
            epoch_id = epoch_id + 1;
        }
        Ok((total, memo))
    }
}

/// Computes what the address may claim in the current epoch, one entry per flow
/// that owes it anything, and fills the flows' emission memos for the epochs walked.
/// A failure leaves the flows as they were.
pub fn get_rewards(snapshot: &Snapshot, flows: &mut Vec<Flow>) -> (response: Result<
    RewardsResponse,
    ContractError,
>)
    ensures
        match response {
            Ok(granted) => claimable(old(flows)@, snapshot@) == Ok::<Seq<Asset>, ContractError>(
                granted.rewards@,
            ),
            Err(e) => claimable(old(flows)@, snapshot@) == Err::<Seq<Asset>, ContractError>(e),
        },
        response matches Ok(granted) ==> forall|i: int|
            0 <= i < granted.rewards.len() ==> (#[trigger] granted.rewards[i]).amount > 0,
        final(flows).len() == old(flows).len(),
        response is Ok && snapshot.last_claimed_epoch != Some(snapshot.current_epoch)
            ==> forall|i: int|
            0 <= i < old(flows).len() ==> (#[trigger] final(flows)[i])@ == flow_after(
                old(flows)[i]@,
                snapshot@,
            ),
        response is Err || snapshot.last_claimed_epoch == Some(snapshot.current_epoch)
            ==> final(flows)@ == old(flows)@,
{
    if already_claimed(snapshot.current_epoch, snapshot.last_claimed_epoch) {
        return Ok(RewardsResponse { rewards: Vec::new() });
    }
    let mut rewards: Vec<Asset> = Vec::new();
    let mut pending: Vec<Option<HashMap<EpochId, u128>>> = Vec::new();
    let mut i: usize = 0;
    while i < flows.len()
        invariant
            i <= flows.len(),
            *flows == *old(flows),
            snapshot.last_claimed_epoch != Some(snapshot.current_epoch),
            pending.len() == i,
            rewards_of(flows@, snapshot@, i as int) == Ok::<Seq<Asset>, ContractError>(rewards@),
            forall|j: int|
                0 <= j < i ==> match #[trigger] pending[j] {
                    None => is_exhausted(flows[j]@, snapshot.current_epoch),
                    Some(memo) => !is_exhausted(flows[j]@, snapshot.current_epoch) && memo@
                        == settled_memo(flows[j]@, snapshot@),
                },
        decreases flows.len() - i,
    {
        let flow = &flows[i];
        if flow.is_exhausted(snapshot.current_epoch) {
            pending.push(None);
        } else {
            match flow.accrue(snapshot) {
                Err(e) => {
                    proof {
                        assert(rewards_of(flows@, snapshot@, i as int + 1) == Err::<
                            Seq<Asset>,
                            ContractError,
                        >(e));
                        lemma_first_failure_wins(
                            flows@,
                            snapshot@,
                            i as int + 1,
                            flows.len() as int,
                        );
                    }
                    return Err(e);
                },
                Ok((total, memo)) => {
                    if total > 0 {
                        rewards.push(Asset { info: flow.flow_asset.info.clone(), amount: total });
                    }
                    pending.push(Some(memo));
                },
            }
        }
        i = i + 1;
    }
    let mut k: usize = flows.len();
    while k > 0
        invariant
            k <= flows.len(),
            flows.len() == old(flows).len(),
            pending.len() == k,
            forall|j: int| 0 <= j < k ==> #[trigger] flows[j] == old(flows)[j],
            forall|j: int|
                k <= j < flows.len() ==> (#[trigger] flows[j])@ == flow_after(
                    old(flows)[j]@,
                    snapshot@,
                ),
            forall|j: int|
                0 <= j < k ==> match #[trigger] pending[j] {
                    None => is_exhausted(old(flows)[j]@, snapshot.current_epoch),
                    Some(memo) => !is_exhausted(old(flows)[j]@, snapshot.current_epoch) && memo@
                        == settled_memo(old(flows)[j]@, snapshot@),
                },
        decreases k,
    {
        k = k - 1;
        match pending.pop() {
            Some(Some(memo)) => {
                flows[k].emitted_tokens = memo;
            },
            _ => {},
        }
    }
    proof {
        lemma_no_zero_rewards(old(flows)@, snapshot@, old(flows).len() as int);
    }
    Ok(RewardsResponse { rewards })
}

} // verus!
