use std::collections::HashMap;

use liquidity_hub::asset::{Asset, AssetInfo};
use liquidity_hub::error::ContractError;
use liquidity_hub::flow::Flow;
use liquidity_hub::rewards::{
    already_claimed, epoch_reward, first_claimable_epoch, get_rewards, RewardsResponse, Snapshot,
};
use liquidity_hub::weights::{global_weight, WeightCursor};

fn native(denom: &str, amount: u128) -> Asset {
    Asset { info: AssetInfo::NativeToken { denom: denom.to_string() }, amount }
}

fn token(contract_addr: &str, amount: u128) -> Asset {
    Asset { info: AssetInfo::Token { contract_addr: contract_addr.to_string() }, amount }
}

fn flow(amount: u128, start_epoch: u64, end_epoch: u64) -> Flow {
    Flow::new(1, native("uwhale", amount), start_epoch, end_epoch)
}

fn constant(epochs: std::ops::RangeInclusive<u64>, weight: u128) -> HashMap<u64, u128> {
    epochs.map(|epoch| (epoch, weight)).collect()
}

fn newcomer(current_epoch: u64, weight: u128, global: u128) -> Snapshot {
    Snapshot {
        current_epoch,
        last_claimed_epoch: None,
        earliest_weight: Some((0, weight)),
        address_weights: constant(0..=current_epoch, weight),
        global_weights: constant(0..=current_epoch, global),
    }
}

fn memo(entries: &[(u64, u128)]) -> HashMap<u64, u128> {
    entries.iter().copied().collect()
}

#[test]
fn four_epoch_flow_pays_out_in_full() {
    let snapshot = newcomer(3, 100, 100);
    let mut flows = vec![flow(1000, 0, 4)];
    let response = get_rewards(&snapshot, &mut flows);
    assert_eq!(response, Ok(RewardsResponse { rewards: vec![native("uwhale", 1000)] }));
    assert_eq!(flows[0].emitted_tokens, memo(&[(0, 250), (1, 500), (2, 750), (3, 1000)]));
}

#[test]
fn claiming_before_the_last_epoch_leaves_the_rest() {
    let snapshot = newcomer(2, 100, 100);
    let mut flows = vec![flow(1000, 0, 4)];
    let response = get_rewards(&snapshot, &mut flows);
    assert_eq!(response, Ok(RewardsResponse { rewards: vec![native("uwhale", 750)] }));
    assert_eq!(flows[0].emitted_tokens, memo(&[(0, 250), (1, 500), (2, 750)]));
}

#[test]
fn end_epoch_is_exclusive() {
    let snapshot = newcomer(9, 100, 100);
    let mut flows = vec![flow(1000, 0, 4)];
    let response = get_rewards(&snapshot, &mut flows);
    assert_eq!(response, Ok(RewardsResponse { rewards: vec![native("uwhale", 1000)] }));
    assert_eq!(flows[0].emitted_tokens.len(), 4);
    assert_eq!(flows[0].emitted_tokens.get(&4), None);
}

#[test]
fn weight_recorded_in_epoch_zero_is_not_carried() {
    let mut snapshot = newcomer(3, 100, 100);
    snapshot.address_weights = memo(&[(0, 100)]);
    let mut flows = vec![flow(1000, 0, 4)];
    let response = get_rewards(&snapshot, &mut flows);
    assert_eq!(response, Ok(RewardsResponse { rewards: vec![native("uwhale", 250)] }));
    assert_eq!(flows[0].emitted_tokens, memo(&[(0, 250), (1, 500), (2, 750), (3, 1000)]));
}

#[test]
fn weight_is_carried_from_the_last_change() {
    let snapshot = Snapshot {
        current_epoch: 4,
        last_claimed_epoch: None,
        earliest_weight: Some((1, 100)),
        address_weights: memo(&[(1, 100)]),
        global_weights: constant(1..=4, 200),
    };
    let mut flows = vec![flow(1000, 1, 5)];
    let response = get_rewards(&snapshot, &mut flows);
    assert_eq!(response, Ok(RewardsResponse { rewards: vec![native("uwhale", 500)] }));
}

#[test]
fn weight_change_in_the_middle_takes_over() {
    let snapshot = Snapshot {
        current_epoch: 4,
        last_claimed_epoch: None,
        earliest_weight: Some((1, 100)),
        address_weights: memo(&[(1, 100), (3, 50)]),
        global_weights: constant(1..=4, 200),
    };
    let mut flows = vec![flow(1000, 1, 5)];
    let response = get_rewards(&snapshot, &mut flows);
    // 125 + 125 with weight 100, then 62 + 62 with weight 50: 250 / 4 rounds down
    assert_eq!(response, Ok(RewardsResponse { rewards: vec![native("uwhale", 374)] }));
}

#[test]
fn weight_recorded_before_the_flow_began_counts() {
    let snapshot = Snapshot {
        current_epoch: 6,
        last_claimed_epoch: None,
        earliest_weight: Some((2, 50)),
        address_weights: memo(&[(2, 50)]),
        global_weights: memo(&[(5, 100), (6, 100)]),
    };
    let mut flows = vec![flow(100, 5, 7)];
    let response = get_rewards(&snapshot, &mut flows);
    assert_eq!(response, Ok(RewardsResponse { rewards: vec![native("uwhale", 50)] }));
    assert_eq!(flows[0].emitted_tokens, memo(&[(5, 50), (6, 100)]));
}

#[test]
fn nothing_to_claim_twice_in_one_epoch() {
    let mut snapshot = newcomer(3, 100, 100);
    snapshot.last_claimed_epoch = Some(3);
    let mut flows = vec![flow(1000, 0, 4)];
    let response = get_rewards(&snapshot, &mut flows);
    assert_eq!(response, Ok(RewardsResponse { rewards: vec![] }));
    assert_eq!(flows, vec![flow(1000, 0, 4)]);
}

#[test]
fn claiming_resumes_after_the_last_claim() {
    let mut snapshot = newcomer(3, 100, 100);
    snapshot.last_claimed_epoch = Some(1);
    let mut claimed = flow(1000, 0, 4);
    claimed.claimed_amount = 500;
    claimed.emitted_tokens = memo(&[(0, 250), (1, 500)]);
    let mut flows = vec![claimed];
    let response = get_rewards(&snapshot, &mut flows);
    assert_eq!(response, Ok(RewardsResponse { rewards: vec![native("uwhale", 500)] }));
    assert_eq!(flows[0].emitted_tokens, memo(&[(0, 250), (1, 500), (2, 750), (3, 1000)]));
    assert_eq!(flows[0].claimed_amount, 500);
}

#[test]
fn last_claim_ahead_of_the_current_epoch_leaves_nothing() {
    let mut snapshot = newcomer(3, 100, 100);
    snapshot.last_claimed_epoch = Some(7);
    let mut flows = vec![flow(1000, 0, 4)];
    let response = get_rewards(&snapshot, &mut flows);
    assert_eq!(response, Ok(RewardsResponse { rewards: vec![] }));
    assert_eq!(flows[0].emitted_tokens, HashMap::new());
}

#[test]
fn address_without_weight_receives_nothing() {
    let snapshot = Snapshot {
        current_epoch: 3,
        last_claimed_epoch: None,
        earliest_weight: None,
        address_weights: HashMap::new(),
        global_weights: constant(0..=3, 100),
    };
    let mut flows = vec![flow(1000, 0, 4)];
    let response = get_rewards(&snapshot, &mut flows);
    assert_eq!(response, Ok(RewardsResponse { rewards: vec![] }));
    // the epochs were visited all the same
    assert_eq!(flows[0].emitted_tokens, memo(&[(0, 250), (1, 500), (2, 750), (3, 1000)]));
}

#[test]
fn weight_recorded_later_does_not_count_earlier() {
    let snapshot = Snapshot {
        current_epoch: 3,
        last_claimed_epoch: None,
        earliest_weight: Some((2, 100)),
        address_weights: memo(&[(2, 100)]),
        global_weights: constant(0..=3, 100),
    };
    let mut flows = vec![flow(1000, 0, 4)];
    let response = get_rewards(&snapshot, &mut flows);
    assert_eq!(response, Ok(RewardsResponse { rewards: vec![native("uwhale", 500)] }));
}

#[test]
fn epoch_without_global_weight_pays_nothing() {
    let mut snapshot = newcomer(3, 100, 100);
    snapshot.global_weights = memo(&[(0, 100), (1, 0), (3, 100)]);
    let mut flows = vec![flow(1000, 0, 4)];
    let response = get_rewards(&snapshot, &mut flows);
    assert_eq!(response, Ok(RewardsResponse { rewards: vec![native("uwhale", 500)] }));
}

#[test]
fn flows_that_owe_nothing_are_dropped() {
    let snapshot = Snapshot {
        current_epoch: 3,
        last_claimed_epoch: None,
        earliest_weight: Some((0, 100)),
        address_weights: constant(0..=3, 100),
        global_weights: memo(&[(2, 100), (3, 100)]),
    };
    let silent = Flow::new(1, native("uatom", 1000), 0, 2);
    let paying = Flow::new(2, token("contract1", 600), 2, 5);
    let mut flows = vec![silent, paying];
    let response = get_rewards(&snapshot, &mut flows);
    assert_eq!(response, Ok(RewardsResponse { rewards: vec![token("contract1", 400)] }));
    assert_eq!(flows[0].emitted_tokens, memo(&[(0, 500), (1, 1000)]));
    assert_eq!(flows[1].emitted_tokens, memo(&[(2, 200), (3, 400)]));
}

#[test]
fn flows_of_one_asset_keep_their_own_entries() {
    let snapshot = newcomer(1, 100, 100);
    let first = Flow::new(1, native("uwhale", 100), 0, 2);
    let second = Flow::new(2, native("uwhale", 40), 0, 2);
    let mut flows = vec![first, second];
    let response = get_rewards(&snapshot, &mut flows);
    assert_eq!(
        response,
        Ok(RewardsResponse { rewards: vec![native("uwhale", 100), native("uwhale", 40)] })
    );
}

#[test]
fn exhausted_flow_is_not_walked() {
    let snapshot = newcomer(5, 100, 100);
    let mut done = flow(1000, 0, 2);
    done.claimed_amount = 1000;
    let mut flows = vec![done];
    let response = get_rewards(&snapshot, &mut flows);
    assert_eq!(response, Ok(RewardsResponse { rewards: vec![] }));
    assert_eq!(flows[0].emitted_tokens, HashMap::new());
    assert!(flows[0].is_exhausted(5));
    // in the epoch of its end a flow is not exhausted yet
    assert!(!flows[0].is_exhausted(2));
}

#[test]
fn ended_flow_with_unclaimed_rest_is_walked() {
    let snapshot = newcomer(5, 100, 100);
    let mut flows = vec![flow(1000, 0, 2)];
    let response = get_rewards(&snapshot, &mut flows);
    assert_eq!(response, Ok(RewardsResponse { rewards: vec![native("uwhale", 1000)] }));
    assert!(!flows[0].is_exhausted(5));
}

#[test]
fn reward_above_the_emission_is_refused() {
    let snapshot = newcomer(3, 200, 100);
    let mut flows = vec![flow(1000, 0, 4)];
    let response = get_rewards(&snapshot, &mut flows);
    assert_eq!(response, Err(ContractError::InvalidReward));
}

#[test]
fn reward_above_what_is_left_of_the_flow_is_refused() {
    let snapshot = newcomer(3, 100, 100);
    let mut nearly_claimed = flow(1000, 0, 4);
    nearly_claimed.claimed_amount = 900;
    let mut flows = vec![nearly_claimed];
    let response = get_rewards(&snapshot, &mut flows);
    assert_eq!(response, Err(ContractError::InvalidReward));
}

#[test]
fn claimed_amount_that_overflows_is_reported() {
    let snapshot = newcomer(3, 100, 100);
    let mut broken = flow(1000, 0, 4);
    broken.claimed_amount = u128::MAX;
    let mut flows = vec![broken];
    let response = get_rewards(&snapshot, &mut flows);
    assert_eq!(response, Err(ContractError::Overflow));
}

#[test]
fn reward_beyond_the_amount_type_is_reported() {
    let snapshot = newcomer(0, u128::MAX, 1);
    let mut flows = vec![flow(u128::MAX, 0, 1)];
    let response = get_rewards(&snapshot, &mut flows);
    assert_eq!(response, Err(ContractError::ConversionOverflow));
}

#[test]
fn last_claim_in_the_last_epoch_there_is_overflows() {
    let mut snapshot = newcomer(3, 100, 100);
    snapshot.last_claimed_epoch = Some(u64::MAX);
    let mut flows = vec![flow(1000, 0, 4)];
    assert_eq!(get_rewards(&snapshot, &mut flows), Err(ContractError::Overflow));
    let mut none: Vec<Flow> = vec![];
    assert_eq!(get_rewards(&snapshot, &mut none), Ok(RewardsResponse { rewards: vec![] }));
}

#[test]
fn total_beyond_the_amount_type_is_reported() {
    let snapshot = newcomer(1, 100, 100);
    let mut stale = flow(u128::MAX, 0, 2);
    stale.emitted_tokens = memo(&[(0, 0)]);
    let mut flows = vec![stale];
    let response = get_rewards(&snapshot, &mut flows);
    assert_eq!(response, Err(ContractError::Overflow));
}

#[test]
fn failure_leaves_every_flow_as_it_was() {
    let snapshot = newcomer(3, 100, 100);
    let good = Flow::new(1, native("uwhale", 1000), 0, 4);
    let mut bad = Flow::new(2, native("uatom", 1000), 0, 4);
    bad.claimed_amount = 900;
    let mut flows = vec![good, bad];
    let response = get_rewards(&snapshot, &mut flows);
    assert_eq!(response, Err(ContractError::InvalidReward));
    assert_eq!(flows[0].emitted_tokens, HashMap::new());
    assert_eq!(flows[1].emitted_tokens, HashMap::new());
}

#[test]
fn first_failure_is_the_one_reported() {
    let snapshot = newcomer(3, 100, 100);
    let mut overflowing = Flow::new(1, native("uwhale", 1000), 0, 4);
    overflowing.claimed_amount = u128::MAX;
    let mut invalid = Flow::new(2, native("uatom", 1000), 0, 4);
    invalid.claimed_amount = 900;
    let mut flows = vec![overflowing, invalid];
    assert_eq!(get_rewards(&snapshot, &mut flows), Err(ContractError::Overflow));
    flows.reverse();
    assert_eq!(get_rewards(&snapshot, &mut flows), Err(ContractError::InvalidReward));
}

#[test]
fn second_claimer_sees_the_same_emissions() {
    let first = newcomer(3, 25, 100);
    let second = newcomer(3, 75, 100);

    let mut flows = vec![flow(1000, 0, 4)];
    let first_then = get_rewards(&first, &mut flows).unwrap();
    let after_first = flows[0].emitted_tokens.clone();
    let second_then = get_rewards(&second, &mut flows).unwrap();
    assert_eq!(flows[0].emitted_tokens, after_first);

    let mut other_order = vec![flow(1000, 0, 4)];
    let second_first = get_rewards(&second, &mut other_order).unwrap();
    let first_second = get_rewards(&first, &mut other_order).unwrap();
    assert_eq!(other_order[0].emitted_tokens, after_first);

    assert_eq!(first_then, first_second);
    assert_eq!(second_then, second_first);
    assert_eq!(first_then.rewards, vec![native("uwhale", 248)]);
    assert_eq!(second_then.rewards, vec![native("uwhale", 748)]);
}

#[test]
fn later_claimer_reads_the_memo_of_the_earlier_one() {
    let early = newcomer(3, 100, 100);
    let mut late = newcomer(3, 100, 100);
    late.last_claimed_epoch = Some(1);
    let mut flows = vec![flow(1000, 0, 4)];
    get_rewards(&early, &mut flows).unwrap();
    let response = get_rewards(&late, &mut flows);
    assert_eq!(response, Ok(RewardsResponse { rewards: vec![native("uwhale", 500)] }));
    assert_eq!(flows[0].emitted_tokens, memo(&[(0, 250), (1, 500), (2, 750), (3, 1000)]));
}

#[test]
fn walk_beginning_mid_flow_counts_from_zero() {
    let mut late = newcomer(3, 100, 100);
    late.last_claimed_epoch = Some(1);
    let mut flows = vec![flow(1000, 0, 4)];
    let response = get_rewards(&late, &mut flows);
    assert_eq!(response, Ok(RewardsResponse { rewards: vec![native("uwhale", 1000)] }));
    assert_eq!(flows[0].emitted_tokens, memo(&[(2, 500), (3, 1000)]));
}

#[test]
fn all_addresses_together_stay_within_the_funding() {
    let one_third = newcomer(3, 1, 3);
    let two_thirds = newcomer(3, 2, 3);
    let mut flows = vec![flow(1000, 0, 4)];
    let small = get_rewards(&one_third, &mut flows).unwrap();
    let large = get_rewards(&two_thirds, &mut flows).unwrap();
    // per epoch 83 and 166 of the 250 emitted
    assert_eq!(small.rewards, vec![native("uwhale", 332)]);
    assert_eq!(large.rewards, vec![native("uwhale", 664)]);
    assert!(small.rewards[0].amount + large.rewards[0].amount <= 1000);
}

#[test]
fn first_claimable_epoch_follows_the_last_claim() {
    assert_eq!(first_claimable_epoch(Some(4), 0, 2), Ok(5));
    assert_eq!(first_claimable_epoch(Some(4), 9, 7), Ok(5));
    assert_eq!(first_claimable_epoch(Some(u64::MAX), 0, 0), Err(ContractError::Overflow));
}

#[test]
fn first_claimable_epoch_of_a_newcomer() {
    // the flow began after the earliest weight change
    assert_eq!(first_claimable_epoch(None, 3, 7), Ok(3));
    // the flow began before it, or with it
    assert_eq!(first_claimable_epoch(None, 9, 7), Ok(7));
    assert_eq!(first_claimable_epoch(None, 7, 7), Ok(7));
    assert_eq!(first_claimable_epoch(None, 0, 0), Ok(0));
}

#[test]
fn epoch_reward_checks_in_order() {
    assert_eq!(epoch_reward(250, 0, 1000, 100, 100), Ok(250));
    assert_eq!(epoch_reward(250, 750, 1000, 100, 100), Ok(250));
    assert_eq!(epoch_reward(250, 751, 1000, 100, 100), Err(ContractError::InvalidReward));
    assert_eq!(epoch_reward(250, 0, 1000, 101, 100), Err(ContractError::InvalidReward));
    assert_eq!(epoch_reward(250, u128::MAX, 1000, 100, 100), Err(ContractError::Overflow));
    // above the emission comes before the overflow of the claimed amount
    assert_eq!(epoch_reward(250, u128::MAX, 1000, 200, 100), Err(ContractError::InvalidReward));
    assert_eq!(epoch_reward(250, 0, 1000, 100, 0), Err(ContractError::DivideByZero));
    assert_eq!(
        epoch_reward(u128::MAX, 0, u128::MAX, u128::MAX, 1),
        Err(ContractError::ConversionOverflow)
    );
    assert_eq!(epoch_reward(0, 0, 1000, 100, 100), Ok(0));
}

#[test]
fn cursor_resolves_and_moves() {
    let history = memo(&[(3, 70), (5, 0)]);
    let mut cursor = WeightCursor::new(None);
    assert_eq!(cursor, WeightCursor { epoch: 0, weight: 0 });
    assert_eq!(cursor.resolve(&history, 2), None);
    assert_eq!(cursor.resolve(&history, 3), Some(70));
    assert_eq!(cursor, WeightCursor { epoch: 3, weight: 70 });
    assert_eq!(cursor.resolve(&history, 4), Some(70));
    assert_eq!(cursor.resolve(&history, 5), Some(0));
    assert_eq!(cursor, WeightCursor { epoch: 5, weight: 0 });
    // a cursor ahead of the epoch does not count
    assert_eq!(cursor.resolve(&history, 4), Some(0).filter(|_| false));
    let mut ahead = WeightCursor::new(Some((9, 40)));
    assert_eq!(ahead.resolve(&history, 8), None);
    assert_eq!(ahead.resolve(&history, 9), Some(40));
    assert_eq!(ahead.resolve(&history, 3), Some(70));
    assert_eq!(ahead, WeightCursor { epoch: 3, weight: 70 });
}

#[test]
fn global_weight_defaults_to_zero() {
    let globals = memo(&[(1, 10)]);
    assert_eq!(global_weight(&globals, 1), 10);
    assert_eq!(global_weight(&globals, 2), 0);
}

#[test]
fn accrue_leaves_the_flow_alone() {
    let snapshot = newcomer(3, 100, 100);
    let walked = flow(1000, 0, 4);
    let (total, filled) = walked.accrue(&snapshot).unwrap();
    assert_eq!(total, 1000);
    assert_eq!(filled, memo(&[(0, 250), (1, 500), (2, 750), (3, 1000)]));
    assert_eq!(walked, flow(1000, 0, 4));
}

#[test]
fn accrue_epoch_visits_one_epoch() {
    let snapshot = newcomer(3, 50, 100);
    let walked = flow(1000, 0, 4);
    let mut filled = memo(&[(0, 250)]);
    let mut cursor = WeightCursor::new(snapshot.earliest_weight);
    let reward = walked.accrue_epoch(&mut filled, &mut cursor, &snapshot, 1);
    assert_eq!(reward, Ok(125));
    assert_eq!(filled, memo(&[(0, 250), (1, 500)]));
    assert_eq!(cursor, WeightCursor { epoch: 1, weight: 50 });
}

#[test]
fn walk_range_of_a_newcomer_is_the_whole_flow() {
    let snapshot = newcomer(9, 100, 100);
    assert_eq!(flow(1000, 2, 6).walk_range(&snapshot), Ok((2, 6)));
    // the current epoch is visited too
    let early = newcomer(3, 100, 100);
    assert_eq!(flow(1000, 2, 6).walk_range(&early), Ok((2, 4)));
    // a flow that has not begun yet has nothing to visit
    assert_eq!(flow(1000, 5, 6).walk_range(&early), Ok((5, 4)));
}

#[test]
fn walk_range_resumes_after_the_last_claim() {
    let mut snapshot = newcomer(9, 100, 100);
    snapshot.last_claimed_epoch = Some(3);
    assert_eq!(flow(1000, 2, 6).walk_range(&snapshot), Ok((4, 6)));
    assert_eq!(flow(1000, 5, 8).walk_range(&snapshot), Ok((5, 8)));
    assert_eq!(flow(1000, 0, 4).walk_range(&snapshot), Ok((4, 4)));
    snapshot.last_claimed_epoch = Some(u64::MAX);
    assert_eq!(flow(1000, 2, 6).walk_range(&snapshot), Err(ContractError::Overflow));
}

#[test]
fn walk_range_begins_no_earlier_than_the_flow() {
    let mut snapshot = newcomer(9, 100, 100);
    snapshot.earliest_weight = Some((1, 100));
    assert_eq!(flow(1000, 2, 6).walk_range(&snapshot), Ok((2, 6)));
    snapshot.earliest_weight = Some((4, 100));
    assert_eq!(flow(1000, 2, 6).walk_range(&snapshot), Ok((2, 6)));
    snapshot.earliest_weight = None;
    assert_eq!(flow(1000, 2, 6).walk_range(&snapshot), Ok((2, 6)));
}

#[test]
fn already_claimed_only_in_the_current_epoch() {
    assert!(already_claimed(3, Some(3)));
    assert!(!already_claimed(3, Some(2)));
    assert!(!already_claimed(3, Some(4)));
    assert!(!already_claimed(3, None));
    assert!(!already_claimed(0, None));
}
