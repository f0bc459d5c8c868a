//! The rules of the vault manager: paging through vaults and settling flash loans.

use vstd::prelude::*;

use crate::share::{multiply_by_decimal, scale_by_atomics, Decimal};

verus! {

/// The most vaults that one page of a listing holds.
pub const MAX_LIMIT: u32 = 30;

/// The number of vaults on a page where the caller names none.
pub const DEFAULT_LIMIT: u32 = 10;

/// Why the vault manager turned a request down.
#[derive(Clone, Copy, Debug, PartialEq, Eq, Structural)]
pub enum VaultError {
    /// The caller may not do this, or not now.
    Unauthorized,
    /// No vault holds the asset.
    NonExistentVault,
    /// A balance is lower after the flash loan than it was before.
    FlashLoanLoss,
    /// The balance after the flash loan does not cover the loan and its fees.
    NegativeProfit { old_balance: u128, current_balance: u128, required_amount: u128 },
    /// A checked addition left the range of the amount type.
    Overflow,
    /// A fee does not fit the amount type.
    ConversionOverflow,
}

/// A fee, as a share of the amount it is taken of.
#[derive(Clone, Copy, Debug, PartialEq, Eq, Structural)]
pub struct Fee {
    /// The share; one stands for the whole amount.
    pub share: Decimal,
}

/// The fees of a vault.
#[derive(Clone, Copy, Debug, PartialEq, Eq, Structural)]
pub struct VaultFee {
    /// What goes to the protocol.
    pub protocol_fee: Fee,
    /// What stays in the vault.
    pub flash_loan_fee: Fee,
}

/// A vault, as far as a flash loan is concerned with it.
#[derive(Debug, PartialEq, Eq)]
pub struct Vault {
    /// The reference of the asset that the vault holds.
    pub asset_reference: Vec<u8>,
    /// The fees taken of a flash loan of that asset.
    pub fees: VaultFee,
}

/// The balance that the contract holds of one asset.
#[derive(Debug, PartialEq, Eq)]
pub struct Balance {
    /// The reference of the asset.
    pub asset_reference: Vec<u8>,
    /// How much of it the contract holds.
    pub amount: u128,
}

/// How a flash loan ends once it has been paid back.
#[derive(Clone, Copy, Debug, PartialEq, Eq, Structural)]
pub struct Settlement {
    /// What is left for the borrower.
    pub profit: u128,
    /// What goes to the protocol.
    pub protocol_fee: u128,
    /// What stays in the vault.
    pub flash_loan_fee: u128,
}

/// The fee on `amount`, rounded down.
pub open spec fn fee_on(fee: Fee, amount: u128) -> nat {
    scale_by_atomics(amount as nat, fee.share.atomics as nat)
}

/// The balance recorded for the asset with the given reference: that of the first
/// entry for it, if there is one.
pub open spec fn balance_in(balances: Seq<Balance>, reference: Seq<u8>) -> Option<u128>
    decreases balances.len(),
{
    if balances.len() == 0 {
        None
    } else {
        match balance_in(balances.drop_last(), reference) {
            Some(amount) => Some(amount),
            None => if balances.last().asset_reference@ == reference {
                Some(balances.last().amount)
            } else {
                None
            },
        }
    }
}

/// The fees of the first vault that holds the asset with the given reference.
pub open spec fn fees_in(vaults: Seq<Vault>, reference: Seq<u8>) -> Option<VaultFee>
    decreases vaults.len(),
{
    if vaults.len() == 0 {
        None
    } else {
        match fees_in(vaults.drop_last(), reference) {
            Some(fees) => Some(fees),
            None => if vaults.last().asset_reference@ == reference {
                Some(vaults.last().fees)
            } else {
                None
            },
        }
    }
}

/// The balance held of an asset before the loan; an asset without a record counts
/// as not held.
pub open spec fn held_before(previous: Seq<Balance>, reference: Seq<u8>) -> u128 {
    match balance_in(previous, reference) {
        Some(amount) => amount,
        None => 0,
    }
}

/// Whether some asset is held in a smaller amount now than before the loan.
pub open spec fn some_balance_lower(current: Seq<Balance>, previous: Seq<Balance>) -> bool {
    exists|i: int|
        0 <= i < current.len() && (#[trigger] current[i]).amount < held_before(
            previous,
            current[i].asset_reference@,
        )
}

/// What is left of `current_balance` once the balance before the loan and the two
/// fees are covered, or why the loan cannot be settled.
pub open spec fn settled(
    old_balance: u128,
    current_balance: u128,
    protocol_fee: u128,
    flash_loan_fee: u128,
) -> Result<Settlement, VaultError> {
    let required = old_balance + protocol_fee + flash_loan_fee;
    if required > u128::MAX {
        Err(VaultError::Overflow)
    } else if required > current_balance {
        Err(
            VaultError::NegativeProfit {
                old_balance,
                current_balance,
                required_amount: required as u128,
            },
        )
    } else {
        Ok(
            Settlement {
                profit: (current_balance - required) as u128,
                protocol_fee,
                flash_loan_fee,
            },
        )
    }
}

/// How a flash loan of `loan_amount` of the asset with `reference` ends: every asset
/// must be held in at least the amount it was held in before, the asset must have a
/// balance and a vault, and the balance must cover the balance before the loan and
/// the two fees of the vault.
pub open spec fn flash_loan_outcome(
    old_balance: u128,
    reference: Seq<u8>,
    loan_amount: u128,
    previous: Seq<Balance>,
    current: Seq<Balance>,
    vaults: Seq<Vault>,
) -> Result<Settlement, VaultError> {
    if some_balance_lower(current, previous) {
        Err(VaultError::FlashLoanLoss)
    } else {
        match (balance_in(current, reference), fees_in(vaults, reference)) {
            (Some(current_balance), Some(fees)) => if fee_on(fees.protocol_fee, loan_amount)
                > u128::MAX || fee_on(fees.flash_loan_fee, loan_amount) > u128::MAX {
                Err(VaultError::ConversionOverflow)
            } else {
                settled(
                    old_balance,
                    current_balance,
                    fee_on(fees.protocol_fee, loan_amount) as u128,
                    fee_on(fees.flash_loan_fee, loan_amount) as u128,
                )
            },
            _ => Err(VaultError::NonExistentVault),
        }
    }
}

/// A balance found among the first entries is the balance found among all.
proof fn lemma_first_balance_counts(balances: Seq<Balance>, reference: Seq<u8>, n: int)
    requires
        0 <= n <= balances.len(),
        balance_in(balances.take(n), reference) is Some,
    ensures
        balance_in(balances, reference) == balance_in(balances.take(n), reference),
    decreases balances.len() - n,
{
    if n < balances.len() {
        assert(balances.take(n + 1).drop_last() == balances.take(n));
        lemma_first_balance_counts(balances, reference, n + 1);
    } else {
        assert(balances.take(n) == balances);
    }
}

/// The fees found among the first vaults are the fees found among all.
proof fn lemma_first_vault_counts(vaults: Seq<Vault>, reference: Seq<u8>, n: int)
    requires
        0 <= n <= vaults.len(),
        fees_in(vaults.take(n), reference) is Some,
    ensures
        fees_in(vaults, reference) == fees_in(vaults.take(n), reference),
    decreases vaults.len() - n,
{
    if n < vaults.len() {
        assert(vaults.take(n + 1).drop_last() == vaults.take(n));
        lemma_first_vault_counts(vaults, reference, n + 1);
    } else {
        assert(vaults.take(n) == vaults);
    }
}

/// The key at which a listing resumes: the smallest key after `start_after`, which
/// is `start_after` with a byte of one appended. Without a key to resume after, the
/// listing starts at the beginning.
pub fn calc_range_start(start_after: Option<Vec<u8>>) -> (start: Option<Vec<u8>>)
    ensures
        match start_after {
            Some(key) => start matches Some(first) && first@ == key@.push(1u8),
            None => start.is_none(),
        },
{
    match start_after {
        Some(asset_info) => {
            let mut v = asset_info;
            v.push(1);
            Some(v)
        },
        None => None,
    }
}

/// The number of vaults on a page: what the caller asks for, the default where it
/// asks for nothing, and never more than the maximum.
pub fn page_limit(limit: Option<u32>) -> (size: usize)
    ensures
        size == match limit {
            Some(wanted) => if wanted <= MAX_LIMIT {
                wanted
            } else {
                MAX_LIMIT
            },
            None => DEFAULT_LIMIT,
        },
{
    let wanted: u32 = match limit {
        Some(wanted) => wanted,
        None => DEFAULT_LIMIT,
    };
    if wanted <= MAX_LIMIT {
        wanted as usize
    } else {
        MAX_LIMIT as usize
    }
}

/// Whether two asset references are the same bytes.
pub fn same_reference(a: &Vec<u8>, b: &Vec<u8>) -> (same: bool)
    ensures
        same == (a@ == b@),
{
    if a.len() != b.len() {
        return false;
    }
    let mut i: usize = 0;
    while i < a.len()
        invariant
            i <= a.len(),
            a.len() == b.len(),
            forall|j: int| 0 <= j < i ==> a[j] == b[j],
        decreases a.len() - i,
    {
        if a[i] != b[i] {
            return false;
        }
        i = i + 1;
    }
    assert(a@ =~= b@);
    true
}

/// The balance recorded for the asset with the given reference.
pub fn balance_of(balances: &Vec<Balance>, reference: &Vec<u8>) -> (found: Option<u128>)
    ensures
        found == balance_in(balances@, reference@),
{
    let mut i: usize = 0;
    while i < balances.len()
        invariant
            i <= balances.len(),
            balance_in(balances@.take(i as int), reference@).is_none(),
        decreases balances.len() - i,
    {
        proof {
            assert(balances@.take(i + 1).drop_last() == balances@.take(i as int));
        }
        if same_reference(&balances[i].asset_reference, reference) {
            proof {
                lemma_first_balance_counts(balances@, reference@, i + 1);
            }
            return Some(balances[i].amount);
        }
        i = i + 1;
    }
    assert(balances@.take(i as int) == balances@);
    None
}

/// The first vault that holds the asset with the given reference.
pub fn find_vault<'a>(vaults: &'a Vec<Vault>, reference: &Vec<u8>) -> (found: Result<
    &'a Vault,
    VaultError,
>)
    ensures
        match found {
            Ok(vault) => fees_in(vaults@, reference@) == Some(vault.fees)
                && vault.asset_reference@ == reference@,
            Err(e) => e == VaultError::NonExistentVault && fees_in(vaults@, reference@).is_none(),
        },
{
    let mut i: usize = 0;
    while i < vaults.len()
        invariant
            i <= vaults.len(),
            fees_in(vaults@.take(i as int), reference@).is_none(),
        decreases vaults.len() - i,
    {
        proof {
            assert(vaults@.take(i + 1).drop_last() == vaults@.take(i as int));
        }
        if same_reference(&vaults[i].asset_reference, reference) {
            proof {
                lemma_first_vault_counts(vaults@, reference@, i + 1);
            }
            return Ok(&vaults[i]);
        }
        i = i + 1;
    }
    assert(vaults@.take(i as int) == vaults@);
    Err(VaultError::NonExistentVault)
}

/// Whether some asset is held in a smaller amount now than before the loan.
pub fn any_balance_lower(current: &Vec<Balance>, previous: &Vec<Balance>) -> (lower: bool)
    ensures
        lower == some_balance_lower(current@, previous@),
{
    let mut i: usize = 0;
    while i < current.len()
        invariant
            i <= current.len(),
            forall|j: int|
                0 <= j < i ==> (#[trigger] current[j]).amount >= held_before(
                    previous@,
                    current[j].asset_reference@,
                ),
        decreases current.len() - i,
    {
        let held: u128 = match balance_of(previous, &current[i].asset_reference) {
            Some(amount) => amount,
            None => 0,
        };
        if current[i].amount < held {
            return true;
        }
        i = i + 1;
    }
    false
}

impl Fee {
    /// The fee on `amount`, rounded down.
    pub fn compute(&self, amount: u128) -> (fee: Result<u128, VaultError>)
        ensures
            fee_on(*self, amount) <= u128::MAX ==> fee == Ok::<u128, VaultError>(
                fee_on(*self, amount) as u128,
            ),
            fee_on(*self, amount) > u128::MAX ==> fee == Err::<u128, VaultError>(
                VaultError::ConversionOverflow,
            ),
    {
        match multiply_by_decimal(amount, self.share.atomics) {
            Some(fee) => Ok(fee),
            None => Err(VaultError::ConversionOverflow),
        }
    }
}

/// Settles a flash loan given the balance before it, the balance now and the two
/// fees: the balance must cover all three, and what is left is the borrower's.
pub fn settle(
    old_balance: u128,
    current_balance: u128,
    protocol_fee: u128,
    flash_loan_fee: u128,
) -> (settlement: Result<Settlement, VaultError>)
    ensures
        settlement == settled(old_balance, current_balance, protocol_fee, flash_loan_fee),
{
    let with_protocol_fee: u128 = match old_balance.checked_add(protocol_fee) {
        Some(sum) => sum,
        None => {
            return Err(VaultError::Overflow);
        },
    };
    let required: u128 = match with_protocol_fee.checked_add(flash_loan_fee) {
        Some(sum) => sum,
        None => {
            return Err(VaultError::Overflow);
        },
    };
    if required > current_balance {
        return Err(
            VaultError::NegativeProfit { old_balance, current_balance, required_amount: required },
        );
    }
    Ok(Settlement { profit: current_balance - required, protocol_fee, flash_loan_fee })
}

/// Decides whether a flash loan may begin, and with which balance of the loan asset
/// it begins: loans must be enabled, none may be under way, and the asset must have
/// a balance.
pub fn flash_loan(
    flash_loan_enabled: bool,
    ongoing_flashloan: bool,
    balances: &Vec<Balance>,
    reference: &Vec<u8>,
) -> (old_balance: Result<u128, VaultError>)
    ensures
        old_balance == if !flash_loan_enabled || ongoing_flashloan {
            Err::<u128, VaultError>(VaultError::Unauthorized)
        } else {
            match balance_in(balances@, reference@) {
                Some(amount) => Ok::<u128, VaultError>(amount),
                None => Err::<u128, VaultError>(VaultError::NonExistentVault),
            }
        },
{
    if !flash_loan_enabled || ongoing_flashloan {
        return Err(VaultError::Unauthorized);
    }
    match balance_of(balances, reference) {
        Some(amount) => Ok(amount),
        None => Err(VaultError::NonExistentVault),
    }
}

/// Only the contract itself may call back into it.
pub fn callback(sender: &String, contract_address: &String) -> (allowed: Result<(), VaultError>)
    ensures
        allowed == if sender@ == contract_address@ {
            Ok::<(), VaultError>(())
        } else {
            Err::<(), VaultError>(VaultError::Unauthorized)
        },
{
    if sender.eq(contract_address) {
        Ok(())
    } else {
        Err(VaultError::Unauthorized)
    }
}

/// Decides how a flash loan ends, from the balances recorded before it and the
/// balances now: see [`flash_loan_outcome`].
pub fn after_flashloan(
    old_balance: u128,
    reference: &Vec<u8>,
    loan_amount: u128,
    previous: &Vec<Balance>,
    current: &Vec<Balance>,
    vaults: &Vec<Vault>,
) -> (settlement: Result<Settlement, VaultError>)
    ensures
        settlement == flash_loan_outcome(
            old_balance,
            reference@,
            loan_amount,
            previous@,
            current@,
            vaults@,
        ),
{
    if any_balance_lower(current, previous) {
        return Err(VaultError::FlashLoanLoss);
    }
    let current_balance: u128 = match balance_of(current, reference) {
        Some(amount) => amount,
        None => {
            return Err(VaultError::NonExistentVault);
        },
    };
    let vault = match find_vault(vaults, reference) {
        Ok(vault) => vault,
        Err(e) => {
            return Err(e);
        },
    };
    let protocol_fee: u128 = match vault.fees.protocol_fee.compute(loan_amount) {
        Ok(fee) => fee,
        Err(e) => {
            return Err(e);
        },
    };
    let flash_loan_fee: u128 = match vault.fees.flash_loan_fee.compute(loan_amount) {
        Ok(fee) => fee,
        Err(e) => {
            return Err(e);
        },
    };
    settle(old_balance, current_balance, protocol_fee, flash_loan_fee)
}

} // verus!
