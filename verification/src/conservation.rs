//! Conservation: what is paid never exceeds what is emitted, and what is emitted
//! never exceeds what a flow was funded with.

use vstd::prelude::*;

use crate::flow::{emission_in_replay, emitted_before, remaining, EpochId, FlowView};
use crate::rewards::{accrued, contribution, SnapshotView};
use crate::schedule::{
    coherent_walk, emitted_over, lemma_emitted_within_remaining,
    lemma_well_formed_memo_is_monotone, lemma_well_formed_walk_is_coherent,
};
use crate::share::{lemma_reward_share_bound, reward_share};
use crate::weights::{cursor_from, cursor_through, global_weight_at, weight_seen};

verus! {

/// The sum of the weights of a group of addresses.
pub open spec fn sum_of(weights: Seq<nat>) -> nat
    decreases weights.len(),
{
    if weights.len() == 0 {
        0
    } else {
        sum_of(weights.drop_last()) + weights.last()
    }
}

/// What a group of addresses receives of one epoch's emission, each address by its
/// own weight. An epoch without global weight pays nothing.
pub open spec fn paid_in_epoch(emission: nat, weights: Seq<nat>, global_weight: nat) -> nat
    decreases weights.len(),
{
    if weights.len() == 0 || global_weight == 0 {
        0
    } else {
        paid_in_epoch(emission, weights.drop_last(), global_weight) + reward_share(
            emission,
            weights.last(),
            global_weight,
        )
    }
}

/// What a group of addresses receives over the epochs from `lo` up to, not
/// including, `hi`; `weights` gives the weights of the addresses in each epoch and
/// `globals` the global weight of each epoch.
pub open spec fn paid_over(
    amount: u128,
    end_epoch: EpochId,
    memo: Map<EpochId, u128>,
    lo: EpochId,
    hi: EpochId,
    weights: spec_fn(EpochId) -> Seq<nat>,
    globals: spec_fn(EpochId) -> nat,
) -> nat
    decreases hi - lo,
{
    if hi <= lo {
        0
    } else {
        let epoch = (hi - 1) as u64;
        paid_over(amount, end_epoch, memo, lo, epoch, weights, globals) + paid_in_epoch(
            emission_in_replay(amount, end_epoch, memo, lo, epoch) as nat,
            weights(epoch),
            globals(epoch),
        )
    }
}

proof fn lemma_paid_in_epoch_scaled(emission: nat, weights: Seq<nat>, global_weight: nat)
    requires
        global_weight > 0,
    ensures
        paid_in_epoch(emission, weights, global_weight) * global_weight <= emission * sum_of(
            weights,
        ),
    decreases weights.len(),
{
    if weights.len() > 0 {
        let others = weights.drop_last();
        let paid_others = paid_in_epoch(emission, others, global_weight);
        let reward = reward_share(emission, weights.last(), global_weight);
        lemma_paid_in_epoch_scaled(emission, others, global_weight);
        lemma_reward_share_bound(emission, weights.last(), global_weight);
        assert((paid_others + reward) * global_weight <= emission * (sum_of(others)
            + weights.last())) by (nonlinear_arith)
            requires
                paid_others * global_weight <= emission * sum_of(others),
                reward * global_weight <= emission * weights.last(),
        ;
    } else {
        assert(0 * global_weight <= emission * sum_of(weights)) by (nonlinear_arith);
    }
}

/// Within one epoch, addresses whose weights together do not exceed the global
/// weight never receive more than the epoch emitted.
pub proof fn lemma_epoch_pays_within_emission(
    emission: nat,
    weights: Seq<nat>,
    global_weight: nat,
)
    requires
        sum_of(weights) <= global_weight,
    ensures
        paid_in_epoch(emission, weights, global_weight) <= emission,
{
    if global_weight > 0 {
        let paid = paid_in_epoch(emission, weights, global_weight);
        let sum = sum_of(weights);
        lemma_paid_in_epoch_scaled(emission, weights, global_weight);
        assert(paid <= emission) by (nonlinear_arith)
            requires
                paid * global_weight <= emission * sum,
                sum <= global_weight,
                global_weight > 0,
        ;
    }
}

/// Over all epochs of a coherent walk and all addresses together, no more is paid
/// than the walk emits, provided that in each epoch the weights of the addresses
/// together do not exceed the global weight.
pub proof fn lemma_payout_within_emission(
    amount: u128,
    end_epoch: EpochId,
    memo: Map<EpochId, u128>,
    lo: EpochId,
    hi: EpochId,
    weights: spec_fn(EpochId) -> Seq<nat>,
    globals: spec_fn(EpochId) -> nat,
)
    requires
        lo <= hi <= end_epoch,
        coherent_walk(amount, end_epoch, memo, lo, hi),
        forall|epoch: EpochId|
            lo <= epoch < hi ==> sum_of(#[trigger] weights(epoch)) <= globals(epoch),
    ensures
        paid_over(amount, end_epoch, memo, lo, hi, weights, globals) <= emitted_over(
            amount,
            end_epoch,
            memo,
            lo,
            hi,
        ),
        paid_over(amount, end_epoch, memo, lo, hi, weights, globals) <= remaining(
            amount,
            emitted_before(memo, lo),
        ),
{
    lemma_paid_within_emitted(amount, end_epoch, memo, lo, hi, weights, globals);
    lemma_emitted_within_remaining(amount, end_epoch, memo, lo, hi);
}

/// Conservation: whatever epochs of a well-formed flow are walked, all addresses
/// together are never paid more than the flow was funded with, nor more than was
/// left of it when the walk began, provided that in each epoch the weights of the
/// addresses together do not exceed the global weight.
pub proof fn lemma_payout_within_funding(
    flow: FlowView,
    lo: EpochId,
    hi: EpochId,
    weights: spec_fn(EpochId) -> Seq<nat>,
    globals: spec_fn(EpochId) -> nat,
)
    requires
        flow.well_formed(),
        flow.start_epoch <= lo <= hi <= flow.end_epoch,
        forall|epoch: EpochId|
            lo <= epoch < hi ==> sum_of(#[trigger] weights(epoch)) <= globals(epoch),
    ensures
        emitted_before(flow.emitted_tokens, lo) + paid_over(
            flow.flow_asset.amount,
            flow.end_epoch,
            flow.emitted_tokens,
            lo,
            hi,
            weights,
            globals,
        ) <= flow.flow_asset.amount,
{
    let amount = flow.flow_asset.amount;
    lemma_well_formed_walk_is_coherent(
        amount,
        flow.start_epoch,
        flow.end_epoch,
        flow.emitted_tokens,
        lo,
        hi,
    );
    lemma_payout_within_emission(
        amount,
        flow.end_epoch,
        flow.emitted_tokens,
        lo,
        hi,
        weights,
        globals,
    );
    lemma_well_formed_emitted_before(flow, lo);
}

/// What a well-formed memo holds before an epoch never exceeds the funding.
proof fn lemma_well_formed_emitted_before(flow: FlowView, epoch: EpochId)
    requires
        flow.well_formed(),
    ensures
        emitted_before(flow.emitted_tokens, epoch) <= flow.flow_asset.amount,
{
    if epoch > 0 && flow.emitted_tokens.contains_key((epoch - 1) as u64) {
        lemma_well_formed_memo_is_monotone(
            flow.flow_asset.amount,
            flow.start_epoch,
            flow.end_epoch,
            flow.emitted_tokens,
            (epoch - 1) as u64,
            (epoch - 1) as u64,
        );
    }
}

proof fn lemma_paid_within_emitted(
    amount: u128,
    end_epoch: EpochId,
    memo: Map<EpochId, u128>,
    lo: EpochId,
    hi: EpochId,
    weights: spec_fn(EpochId) -> Seq<nat>,
    globals: spec_fn(EpochId) -> nat,
)
    requires
        forall|epoch: EpochId|
            lo <= epoch < hi ==> sum_of(#[trigger] weights(epoch)) <= globals(epoch),
    ensures
        paid_over(amount, end_epoch, memo, lo, hi, weights, globals) <= emitted_over(
            amount,
            end_epoch,
            memo,
            lo,
            hi,
        ),
    decreases hi - lo,
{
    if hi > lo {
        let epoch = (hi - 1) as u64;
        lemma_paid_within_emitted(amount, end_epoch, memo, lo, epoch, weights, globals);
        lemma_epoch_pays_within_emission(
            emission_in_replay(amount, end_epoch, memo, lo, epoch) as nat,
            weights(epoch),
            globals(epoch),
        );
    }
}

/// What one address accrues in a walk never exceeds what the walk emits.
pub proof fn lemma_accrued_within_emitted(
    flow: FlowView,
    snapshot: SnapshotView,
    lo: EpochId,
    hi: EpochId,
)
    requires
        accrued(flow, snapshot, lo, hi) is Ok,
    ensures
        accrued(flow, snapshot, lo, hi)->Ok_0 <= emitted_over(
            flow.flow_asset.amount,
            flow.end_epoch,
            flow.emitted_tokens,
            lo,
            hi,
        ),
    decreases hi - lo,
{
    if hi > lo {
        let epoch = (hi - 1) as u64;
        lemma_accrued_within_emitted(flow, snapshot, lo, epoch);
        assert(contribution(flow, snapshot, lo, epoch) is Ok);
    }
}

/// What one address accrues from a well-formed flow never exceeds what the flow was
/// funded with, nor what was left of it when the walk began.
pub proof fn lemma_accrued_within_funding(
    flow: FlowView,
    snapshot: SnapshotView,
    lo: EpochId,
    hi: EpochId,
)
    requires
        flow.well_formed(),
        flow.start_epoch <= lo <= hi <= flow.end_epoch,
        accrued(flow, snapshot, lo, hi) is Ok,
    ensures
        emitted_before(flow.emitted_tokens, lo) + accrued(flow, snapshot, lo, hi)->Ok_0
            <= flow.flow_asset.amount,
{
    let amount = flow.flow_asset.amount;
    lemma_well_formed_walk_is_coherent(
        amount,
        flow.start_epoch,
        flow.end_epoch,
        flow.emitted_tokens,
        lo,
        hi,
    );
    lemma_accrued_within_emitted(flow, snapshot, lo, hi);
    lemma_emitted_within_remaining(amount, flow.end_epoch, flow.emitted_tokens, lo, hi);
    lemma_well_formed_emitted_before(flow, lo);
}

/// The weight with which an address takes part in `epoch` in a walk that began at
/// `lo`; zero where it has none yet.
pub open spec fn effective_weight(snapshot: SnapshotView, lo: EpochId, epoch: EpochId) -> nat {
    match weight_seen(
        cursor_through(cursor_from(snapshot.earliest_weight), snapshot.address_weights, lo, epoch),
        snapshot.address_weights,
        epoch,
    ) {
        Some(weight) => weight as nat,
        None => 0,
    }
}

/// The weights with which a group of addresses takes part in `epoch`.
pub open spec fn effective_weights(
    snapshots: Seq<SnapshotView>,
    lo: EpochId,
    epoch: EpochId,
) -> Seq<nat> {
    Seq::new(snapshots.len(), |i: int| effective_weight(snapshots[i], lo, epoch))
}

/// What one address accrues in a walk; nothing where its computation fails.
pub open spec fn awarded(flow: FlowView, snapshot: SnapshotView, lo: EpochId, hi: EpochId) -> nat {
    match accrued(flow, snapshot, lo, hi) {
        Ok(total) => total as nat,
        Err(_) => 0,
    }
}

/// What a group of addresses accrues in all when each walks the same epochs.
pub open spec fn awarded_together(
    flow: FlowView,
    snapshots: Seq<SnapshotView>,
    lo: EpochId,
    hi: EpochId,
) -> nat
    decreases snapshots.len(),
{
    if snapshots.len() == 0 {
        0
    } else {
        awarded_together(flow, snapshots.drop_last(), lo, hi) + awarded(
            flow,
            snapshots.last(),
            lo,
            hi,
        )
    }
}

proof fn lemma_awarded_step(flow: FlowView, snapshot: SnapshotView, lo: EpochId, hi: EpochId)
    requires
        lo < hi,
    ensures
        awarded(flow, snapshot, lo, hi) <= awarded(flow, snapshot, lo, (hi - 1) as u64)
            + paid_in_epoch(
            emission_in_replay(
                flow.flow_asset.amount,
                flow.end_epoch,
                flow.emitted_tokens,
                lo,
                (hi - 1) as u64,
            ) as nat,
            seq![effective_weight(snapshot, lo, (hi - 1) as u64)],
            global_weight_at(snapshot.global_weights, (hi - 1) as u64) as nat,
        ),
{
    let epoch = (hi - 1) as u64;
    let emission = emission_in_replay(
        flow.flow_asset.amount,
        flow.end_epoch,
        flow.emitted_tokens,
        lo,
        epoch,
    ) as nat;
    let weight = effective_weight(snapshot, lo, epoch);
    let global = global_weight_at(snapshot.global_weights, epoch) as nat;
    let alone = seq![weight];
    assert(alone.drop_last().len() == 0);
    assert(alone.last() == weight);
    if global > 0 {
        assert(paid_in_epoch(emission, alone, global) == paid_in_epoch(
            emission,
            alone.drop_last(),
            global,
        ) + reward_share(emission, weight, global));
    }
    if accrued(flow, snapshot, lo, hi) is Ok {
        assert(contribution(flow, snapshot, lo, epoch) is Ok);
    }
}

proof fn lemma_paid_in_epoch_grows(emission: nat, weights: Seq<nat>, weight: nat, global: nat)
    ensures
        paid_in_epoch(emission, weights.push(weight), global) == paid_in_epoch(
            emission,
            weights,
            global,
        ) + paid_in_epoch(emission, seq![weight], global),
        sum_of(weights.push(weight)) == sum_of(weights) + weight,
{
    let all = weights.push(weight);
    let alone = seq![weight];
    assert(all.drop_last() == weights);
    assert(all.last() == weight);
    assert(alone.drop_last().len() == 0);
    assert(alone.last() == weight);
    if global > 0 {
        assert(paid_in_epoch(emission, alone, global) == paid_in_epoch(
            emission,
            alone.drop_last(),
            global,
        ) + reward_share(emission, weight, global));
    }
}

proof fn lemma_awarded_together_step(
    flow: FlowView,
    snapshots: Seq<SnapshotView>,
    globals: Map<EpochId, u128>,
    lo: EpochId,
    hi: EpochId,
)
    requires
        lo < hi,
        forall|i: int|
            0 <= i < snapshots.len() ==> (#[trigger] snapshots[i]).global_weights == globals,
    ensures
        awarded_together(flow, snapshots, lo, hi) <= awarded_together(
            flow,
            snapshots,
            lo,
            (hi - 1) as u64,
        ) + paid_in_epoch(
            emission_in_replay(
                flow.flow_asset.amount,
                flow.end_epoch,
                flow.emitted_tokens,
                lo,
                (hi - 1) as u64,
            ) as nat,
            effective_weights(snapshots, lo, (hi - 1) as u64),
            global_weight_at(globals, (hi - 1) as u64) as nat,
        ),
    decreases snapshots.len(),
{
    let epoch = (hi - 1) as u64;
    let emission = emission_in_replay(
        flow.flow_asset.amount,
        flow.end_epoch,
        flow.emitted_tokens,
        lo,
        epoch,
    ) as nat;
    let global = global_weight_at(globals, epoch) as nat;
    if snapshots.len() > 0 {
        let others = snapshots.drop_last();
        let last = snapshots.last();
        lemma_awarded_together_step(flow, others, globals, lo, hi);
        lemma_awarded_step(flow, last, lo, hi);
        assert(effective_weights(snapshots, lo, epoch) == effective_weights(
            others,
            lo,
            epoch,
        ).push(effective_weight(last, lo, epoch)));
        lemma_paid_in_epoch_grows(
            emission,
            effective_weights(others, lo, epoch),
            effective_weight(last, lo, epoch),
            global,
        );
    }
}

/// Conservation for the walks themselves: addresses that walk the same epochs of a
/// well-formed flow accrue together no more than was left of the flow when the walk
/// began, provided that in each epoch their weights together do not exceed the
/// global weight.
pub proof fn lemma_awards_within_funding(
    flow: FlowView,
    snapshots: Seq<SnapshotView>,
    globals: Map<EpochId, u128>,
    lo: EpochId,
    hi: EpochId,
)
    requires
        flow.well_formed(),
        flow.start_epoch <= lo <= hi <= flow.end_epoch,
        forall|i: int|
            0 <= i < snapshots.len() ==> (#[trigger] snapshots[i]).global_weights == globals,
        forall|epoch: EpochId|
            lo <= epoch < hi ==> sum_of(#[trigger] effective_weights(snapshots, lo, epoch))
                <= global_weight_at(globals, epoch),
    ensures
        emitted_before(flow.emitted_tokens, lo) + awarded_together(flow, snapshots, lo, hi)
            <= flow.flow_asset.amount,
{
    let amount = flow.flow_asset.amount;
    lemma_awards_within_emitted(flow, snapshots, globals, lo, hi);
    lemma_well_formed_walk_is_coherent(
        amount,
        flow.start_epoch,
        flow.end_epoch,
        flow.emitted_tokens,
        lo,
        hi,
    );
    lemma_emitted_within_remaining(amount, flow.end_epoch, flow.emitted_tokens, lo, hi);
    lemma_well_formed_emitted_before(flow, lo);
}

proof fn lemma_nothing_awarded_without_epochs(
    flow: FlowView,
    snapshots: Seq<SnapshotView>,
    lo: EpochId,
    hi: EpochId,
)
    requires
        hi <= lo,
    ensures
        awarded_together(flow, snapshots, lo, hi) == 0,
    decreases snapshots.len(),
{
    if snapshots.len() > 0 {
        lemma_nothing_awarded_without_epochs(flow, snapshots.drop_last(), lo, hi);
    }
}

proof fn lemma_awards_within_emitted(
    flow: FlowView,
    snapshots: Seq<SnapshotView>,
    globals: Map<EpochId, u128>,
    lo: EpochId,
    hi: EpochId,
)
    requires
        forall|i: int|
            0 <= i < snapshots.len() ==> (#[trigger] snapshots[i]).global_weights == globals,
        forall|epoch: EpochId|
            lo <= epoch < hi ==> sum_of(#[trigger] effective_weights(snapshots, lo, epoch))
                <= global_weight_at(globals, epoch),
    ensures
        awarded_together(flow, snapshots, lo, hi) <= emitted_over(
            flow.flow_asset.amount,
            flow.end_epoch,
            flow.emitted_tokens,
            lo,
            hi,
        ),
    decreases hi - lo,
{
    if hi > lo {
        let epoch = (hi - 1) as u64;
        lemma_awards_within_emitted(flow, snapshots, globals, lo, epoch);
        lemma_awarded_together_step(flow, snapshots, globals, lo, hi);
        lemma_epoch_pays_within_emission(
            emission_in_replay(
                flow.flow_asset.amount,
                flow.end_epoch,
                flow.emitted_tokens,
                lo,
                epoch,
            ) as nat,
            effective_weights(snapshots, lo, epoch),
            global_weight_at(globals, epoch) as nat,
        );
    } else {
        lemma_nothing_awarded_without_epochs(flow, snapshots, lo, hi);
    }
}

} // verus!
