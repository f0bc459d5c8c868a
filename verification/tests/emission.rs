use std::collections::HashMap;

use liquidity_hub::asset::{Asset, AssetInfo};
use liquidity_hub::error::ContractError;
use liquidity_hub::flow::{derive_emission, emission_for_epoch, previously_emitted, Flow};
use liquidity_hub::share::{multiply_by_decimal, share_of_emission, Wide, DECIMAL_FRACTIONAL};

fn whale(amount: u128) -> Asset {
    Asset { info: AssetInfo::NativeToken { denom: "uwhale".to_string() }, amount }
}

#[test]
fn emission_is_an_equal_part_of_what_is_left() {
    assert_eq!(emission_for_epoch(1000, 4, 0, 0), 250);
    assert_eq!(emission_for_epoch(1000, 4, 250, 1), 250);
    assert_eq!(emission_for_epoch(1000, 4, 500, 2), 250);
    assert_eq!(emission_for_epoch(1000, 4, 750, 3), 250);
    assert_eq!(emission_for_epoch(1000, 14, 0, 4), 100);
}

#[test]
fn emission_rounds_down() {
    assert_eq!(emission_for_epoch(10, 4, 0, 0), 2);
    assert_eq!(emission_for_epoch(10, 4, 2, 1), 2);
    assert_eq!(emission_for_epoch(10, 4, 4, 2), 3);
    assert_eq!(emission_for_epoch(10, 4, 7, 3), 3);
    assert_eq!(emission_for_epoch(3, 4, 0, 0), 0);
}

#[test]
fn emission_saturates_when_more_is_out_than_was_funded() {
    assert_eq!(emission_for_epoch(1000, 4, 1000, 3), 0);
    assert_eq!(emission_for_epoch(1000, 4, 1001, 3), 0);
    assert_eq!(emission_for_epoch(1000, 4, u128::MAX, 0), 0);
}

#[test]
fn emission_of_the_largest_flow() {
    assert_eq!(emission_for_epoch(u128::MAX, u64::MAX, 0, u64::MAX - 1), u128::MAX);
    assert_eq!(emission_for_epoch(u128::MAX, u64::MAX, 0, 0), u128::MAX / (u64::MAX as u128));
}

#[test]
fn previously_emitted_reads_the_epoch_before() {
    let memo: HashMap<u64, u128> = HashMap::from([(0, 7), (4, 40)]);
    assert_eq!(previously_emitted(&memo, 0), 0);
    assert_eq!(previously_emitted(&memo, 1), 7);
    assert_eq!(previously_emitted(&memo, 2), 0);
    assert_eq!(previously_emitted(&memo, 5), 40);
    assert_eq!(previously_emitted(&HashMap::new(), 5), 0);
}

#[test]
fn derive_emission_fills_a_missing_entry() {
    let mut memo: HashMap<u64, u128> = HashMap::new();
    assert_eq!(derive_emission(10, 4, &mut memo, 0), 2);
    assert_eq!(derive_emission(10, 4, &mut memo, 1), 2);
    assert_eq!(derive_emission(10, 4, &mut memo, 2), 3);
    assert_eq!(derive_emission(10, 4, &mut memo, 3), 3);
    assert_eq!(memo, HashMap::from([(0, 2), (1, 4), (2, 7), (3, 10)]));
}

#[test]
fn derive_emission_keeps_an_entry_that_is_there() {
    let mut memo: HashMap<u64, u128> = HashMap::from([(0, 250), (1, 400)]);
    assert_eq!(derive_emission(1000, 4, &mut memo, 1), 250);
    assert_eq!(memo, HashMap::from([(0, 250), (1, 400)]));
    // the next epoch goes by the entry as it stands
    assert_eq!(derive_emission(1000, 4, &mut memo, 2), 300);
    assert_eq!(memo, HashMap::from([(0, 250), (1, 400), (2, 700)]));
}

#[test]
fn derive_emission_is_idempotent() {
    let mut memo: HashMap<u64, u128> = HashMap::from([(0, 250)]);
    let once = derive_emission(1000, 4, &mut memo, 1);
    let filled = memo.clone();
    let twice = derive_emission(1000, 4, &mut memo, 1);
    assert_eq!(once, twice);
    assert_eq!(memo, filled);
}

#[test]
fn emission_does_not_grow_where_the_division_is_exact() {
    let mut memo: HashMap<u64, u128> = HashMap::new();
    let mut last = u128::MAX;
    for epoch in 0..4 {
        let emission = derive_emission(1000, 4, &mut memo, epoch);
        assert!(emission <= last);
        last = emission;
    }
    assert_eq!(last, 250);
}

#[test]
fn flow_derives_only_while_active() {
    let mut flow = Flow::new(7, whale(1000), 2, 6);
    assert!(!flow.is_active(1));
    assert!(flow.is_active(2));
    assert!(flow.is_active(5));
    assert!(!flow.is_active(6));
    assert_eq!(flow.derive_emission(1), None);
    assert_eq!(flow.derive_emission(6), None);
    assert_eq!(flow.emitted_tokens, HashMap::new());
    assert_eq!(flow.derive_emission(2), Some(250));
    assert_eq!(flow.derive_emission(3), Some(250));
    assert_eq!(flow.emitted_tokens, HashMap::from([(2, 250), (3, 500)]));
}

#[test]
fn new_flow_is_untouched() {
    let flow = Flow::new(7, whale(1000), 2, 6);
    assert_eq!(flow.flow_id, 7);
    assert_eq!(flow.flow_asset, whale(1000));
    assert_eq!(flow.claimed_amount, 0);
    assert_eq!(flow.start_epoch, 2);
    assert_eq!(flow.end_epoch, 6);
    assert!(flow.emitted_tokens.is_empty());
}

#[test]
fn share_rounds_down_twice() {
    // a third is 0.333333333333333333, and three of those are less than one
    assert_eq!(share_of_emission(3, 1, 3), Ok(0));
    assert_eq!(share_of_emission(10, 1, 3), Ok(3));
    assert_eq!(share_of_emission(250, 1, 3), Ok(83));
    assert_eq!(share_of_emission(250, 2, 3), Ok(166));
    assert_eq!(share_of_emission(250, 100, 100), Ok(250));
    assert_eq!(share_of_emission(250, 100, 200), Ok(125));
    assert_eq!(share_of_emission(250, 0, 200), Ok(0));
    assert_eq!(share_of_emission(0, 100, 200), Ok(0));
}

#[test]
fn share_above_one_is_computed_as_it_is() {
    assert_eq!(share_of_emission(250, 200, 100), Ok(500));
    assert_eq!(share_of_emission(1, u128::MAX, 1), Ok(u128::MAX));
    assert_eq!(share_of_emission(u128::MAX, 1, 1), Ok(u128::MAX));
}

#[test]
fn share_fails_without_global_weight_or_room() {
    assert_eq!(share_of_emission(1, 1, 0), Err(ContractError::DivideByZero));
    assert_eq!(share_of_emission(0, 0, 0), Err(ContractError::DivideByZero));
    assert_eq!(share_of_emission(2, u128::MAX, 1), Err(ContractError::ConversionOverflow));
    assert_eq!(
        share_of_emission(u128::MAX, u128::MAX, 1),
        Err(ContractError::ConversionOverflow)
    );
}

#[test]
fn share_of_large_operands() {
    // the share is 0.5 exactly
    assert_eq!(share_of_emission(u128::MAX, 1 << 126, 1 << 127), Ok(u128::MAX / 2));
    // the share is 0.999999999999999999, one atomic short of one
    let emission = 4 * DECIMAL_FRACTIONAL;
    assert_eq!(share_of_emission(emission, u128::MAX - 1, u128::MAX), Ok(emission - 4));
}

#[test]
fn multiply_by_decimal_rounds_down() {
    assert_eq!(multiply_by_decimal(1000, DECIMAL_FRACTIONAL / 100), Some(10));
    assert_eq!(multiply_by_decimal(99, DECIMAL_FRACTIONAL / 100), Some(0));
    assert_eq!(multiply_by_decimal(199, DECIMAL_FRACTIONAL / 100), Some(1));
    assert_eq!(multiply_by_decimal(7, 0), Some(0));
    assert_eq!(multiply_by_decimal(0, DECIMAL_FRACTIONAL), Some(0));
    assert_eq!(multiply_by_decimal(u128::MAX, DECIMAL_FRACTIONAL), Some(u128::MAX));
    assert_eq!(multiply_by_decimal(u128::MAX, DECIMAL_FRACTIONAL + 1), None);
    assert_eq!(multiply_by_decimal(u128::MAX, u128::MAX), None);
    assert_eq!(multiply_by_decimal(3, u128::MAX), Some(1020847100762815390390));
}

#[test]
fn wide_narrows_what_fits() {
    assert_eq!(Wide::from_u128(5), Wide { hi: 0, lo: 5 });
    assert_eq!(Wide::from_u128(u128::MAX).narrow(), Some(u128::MAX));
    assert_eq!(Wide { hi: 0, lo: 0 }.narrow(), Some(0));
    assert_eq!(Wide { hi: 1, lo: 0 }.narrow(), None);
    assert_eq!(Wide { hi: u128::MAX, lo: 9 }.narrow(), None);
}
