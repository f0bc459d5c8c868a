//! Shares: fixed-point ratios with 18 decimal places, and what they yield of an amount.

use cosmwasm_std::{Decimal256, Uint128, Uint256};
use vstd::prelude::*;

use crate::error::ContractError;

verus! {

/// Atomic units in one whole: a share is a fixed-point number with 18 decimal places.
pub const DECIMAL_FRACTIONAL: u128 = 1_000_000_000_000_000_000;

/// A fixed-point number with 18 decimal places, held as its atomics: ten to the
/// eighteenth stands for one.
#[derive(Clone, Copy, Debug, PartialEq, Eq, Structural)]
pub struct Decimal {
    /// The number, times ten to the eighteenth.
    pub atomics: u128,
}

/// Two to the power of 128.
pub open spec fn pow2_128() -> nat {
    0x1_0000_0000_0000_0000_0000_0000_0000_0000nat
}

/// Two to the power of 256.
pub open spec fn pow2_256() -> nat {
    pow2_128() * pow2_128()
}

/// An unsigned 256-bit integer, held as its two 128-bit halves.
#[derive(Clone, Copy, Debug, PartialEq, Eq, Structural)]
pub struct Wide {
    /// The upper 128 bits.
    pub hi: u128,
    /// The lower 128 bits.
    pub lo: u128,
}

impl View for Wide {
    type V = nat;

    open spec fn view(&self) -> nat {
        self.hi as nat * pow2_128() + self.lo as nat
    }
}

/// The atomics of `numerator / denominator`, rounded down.
pub open spec fn ratio_atomics(numerator: nat, denominator: nat) -> nat {
    numerator * (DECIMAL_FRACTIONAL as nat) / denominator
}

/// `amount` times the fixed-point number with the given atomics, rounded down.
pub open spec fn scale_by_atomics(amount: nat, atomics: nat) -> nat {
    amount * atomics / (DECIMAL_FRACTIONAL as nat)
}

/// What an address with `user_weight` out of `global_weight` receives of `emission`:
/// the share is taken with 18 decimal places and rounded down, and so is its
/// product with the emission.
pub open spec fn reward_share(emission: nat, user_weight: nat, global_weight: nat) -> nat {
    scale_by_atomics(emission, ratio_atomics(user_weight, global_weight))
}

/// `cosmwasm_std::Decimal256::from_ratio`, on 128-bit operands. The atomics of the
/// decimal it returns are the numerator times ten to the eighteenth, divided by the
/// denominator and rounded down. It panics on a zero denominator, which the
/// precondition rules out; with 128-bit operands the quotient always fits 256 bits.
#[verifier::external_body]
fn decimal_from_ratio(numerator: u128, denominator: u128) -> (atomics: Wide)
    requires
        denominator > 0,
    ensures
        atomics@ == ratio_atomics(numerator as nat, denominator as nat),
{
    let ratio = Decimal256::from_ratio(Uint128::new(numerator), Uint128::new(denominator));
    let bytes = ratio.atomics().to_be_bytes();
    Wide {
        hi: u128::from_be_bytes(bytes[..16].try_into().unwrap()),
        lo: u128::from_be_bytes(bytes[16..].try_into().unwrap()),
    }
}

/// The product `Uint256 * Decimal256` of `cosmwasm_std`, the decimal given by its
/// atomics. The result is the amount times the atomics, divided by ten to the
/// eighteenth and rounded down. The multiplication panics when that does not fit
/// 256 bits, which the precondition rules out.
#[verifier::external_body]
fn uint256_mul_decimal(amount: u128, atomics: Wide) -> (product: Wide)
    requires
        scale_by_atomics(amount as nat, atomics@) < pow2_256(),
    ensures
        product@ == scale_by_atomics(amount as nat, atomics@),
{
    let raw: [u8; 32] =
        [atomics.hi.to_be_bytes(), atomics.lo.to_be_bytes()].concat().try_into().unwrap();
    let factor = Decimal256::new(Uint256::from_be_bytes(raw));
    let product = Uint256::from_uint128(Uint128::new(amount)) * factor;
    let bytes = product.to_be_bytes();
    Wide {
        hi: u128::from_be_bytes(bytes[..16].try_into().unwrap()),
        lo: u128::from_be_bytes(bytes[16..].try_into().unwrap()),
    }
}

impl Wide {
    /// Widens a 128-bit value.
    pub fn from_u128(value: u128) -> (wide: Wide)
        ensures
            wide@ == value,
    {
        assert(0nat * pow2_128() == 0) by (nonlinear_arith);
        Wide { hi: 0, lo: value }
    }

    /// Narrows to 128 bits; nothing where the value does not fit.
    pub fn narrow(self) -> (narrowed: Option<u128>)
        ensures
            self@ <= u128::MAX ==> narrowed == Some(self@ as u128),
            self@ > u128::MAX ==> narrowed.is_none(),
    {
        if self.hi == 0 {
            assert(0nat * pow2_128() == 0) by (nonlinear_arith);
            Some(self.lo)
        } else {
            assert(self.hi as nat * pow2_128() >= pow2_128()) by (nonlinear_arith)
                requires
                    self.hi >= 1,
            ;
            None
        }
    }
}

/// Rounding never favours the address: its reward is at most the emission times its
/// weight, divided by the global weight.
pub proof fn lemma_reward_share_bound(emission: nat, user_weight: nat, global_weight: nat)
    requires
        global_weight > 0,
    ensures
        reward_share(emission, user_weight, global_weight) * global_weight <= emission
            * user_weight,
{
    let d = DECIMAL_FRACTIONAL as nat;
    let a = ratio_atomics(user_weight, global_weight);
    let r = reward_share(emission, user_weight, global_weight);
    assert(a * global_weight <= user_weight * d) by (nonlinear_arith)
        requires
            a == (user_weight * d) / global_weight,
            global_weight > 0,
    ;
    assert(r * d <= emission * a) by (nonlinear_arith)
        requires
            r == (emission * a) / d,
            d > 0,
    ;
    assert(r * global_weight <= emission * user_weight) by (nonlinear_arith)
        requires
            a * global_weight <= user_weight * d,
            r * d <= emission * a,
            d > 0,
    ;
}

/// The product of an amount and a fixed-point number, the number given by its
/// atomics, is less than two to the power of 256 where both have 128 bits.
proof fn lemma_scaled_fits(amount: nat, atomics: nat, bound: nat)
    requires
        amount < pow2_128(),
        atomics <= bound * (DECIMAL_FRACTIONAL as nat),
        bound < pow2_128(),
    ensures
        scale_by_atomics(amount, atomics) < pow2_256(),
{
    let d = DECIMAL_FRACTIONAL as nat;
    let scaled = scale_by_atomics(amount, atomics);
    assert(scaled * d <= amount * atomics) by (nonlinear_arith)
        requires
            scaled == (amount * atomics) / d,
            d > 0,
    ;
    assert(scaled <= amount * bound) by (nonlinear_arith)
        requires
            scaled * d <= amount * atomics,
            atomics <= bound * d,
            d > 0,
    ;
    assert(amount * bound < pow2_128() * pow2_128()) by (nonlinear_arith)
        requires
            amount < pow2_128(),
            bound < pow2_128(),
    ;
}

/// `amount` times the fixed-point number with the given atomics, rounded down;
/// nothing where the product does not fit 128 bits.
pub fn multiply_by_decimal(amount: u128, atomics: u128) -> (product: Option<u128>)
    ensures
        scale_by_atomics(amount as nat, atomics as nat) <= u128::MAX ==> product == Some(
            scale_by_atomics(amount as nat, atomics as nat) as u128,
        ),
        scale_by_atomics(amount as nat, atomics as nat) > u128::MAX ==> product.is_none(),
{
    proof {
        assert(atomics as nat <= atomics as nat * (DECIMAL_FRACTIONAL as nat))
            by (nonlinear_arith);
        lemma_scaled_fits(amount as nat, atomics as nat, atomics as nat);
    }
    uint256_mul_decimal(amount, Wide::from_u128(atomics)).narrow()
}

/// The part of `emission` that falls to `user_weight` out of `global_weight`.
pub fn share_of_emission(emission: u128, user_weight: u128, global_weight: u128) -> (r: Result<
    u128,
    ContractError,
>)
    ensures
        global_weight == 0 ==> r == Err::<u128, ContractError>(ContractError::DivideByZero),
        global_weight > 0 && reward_share(
            emission as nat,
            user_weight as nat,
            global_weight as nat,
        ) > u128::MAX ==> r == Err::<u128, ContractError>(ContractError::ConversionOverflow),
        global_weight > 0 && reward_share(
            emission as nat,
            user_weight as nat,
            global_weight as nat,
        ) <= u128::MAX ==> r == Ok::<u128, ContractError>(
            reward_share(emission as nat, user_weight as nat, global_weight as nat) as u128,
        ),
{
    if global_weight == 0 {
        return Err(ContractError::DivideByZero);
    }
    let atomics = decimal_from_ratio(user_weight, global_weight);
    proof {
        let d = DECIMAL_FRACTIONAL as nat;
        assert(atomics@ <= user_weight as nat * d) by (nonlinear_arith)
            requires
                atomics@ == (user_weight as nat * d) / (global_weight as nat),
                global_weight > 0,
        ;
        lemma_scaled_fits(emission as nat, atomics@, user_weight as nat);
    }
    match uint256_mul_decimal(emission, atomics).narrow() {
        Some(reward) => Ok(reward),
        None => Err(ContractError::ConversionOverflow),
    }
}

} // verus!
