//! What a contract can learn of its rent.
use vstd::prelude::*;
use crate::config::BalanceWidth;
use crate::executable::Executable;
use crate::types::{AliveContractInfo, Balance};

verus! {

/// The `sp_runtime::Perbill` type: a part of one, counted in billionths.
#[verifier::external_type_specification]
#[verifier::external_body]
pub struct ExPerbill(sp_runtime::Perbill);

/// What the runtime demands for the storage of contracts.
#[derive(Debug)]
pub struct RentConfig {
    /// How large balances are.
    pub balance: BalanceWidth,
    /// What a contract needs to subsist.
    pub subsistence_threshold: Balance,
    /// The deposit for a contract.
    pub deposit_per_contract: Balance,
    /// The deposit for a byte of storage.
    pub deposit_per_storage_byte: Balance,
    /// The deposit for an item of storage.
    pub deposit_per_storage_item: Balance,
    /// The part of the missing deposit that is charged as rent.
    pub rent_fraction: sp_runtime::Perbill,
}

/// Information needed for rent calculations that can be requested by a contract.
#[derive(Debug)]
pub struct RentParams {
    /// The total balance of the contract. Includes the balance transferred from the caller.
    pub total_balance: Balance,
    /// The free balance of the contract. Includes the balance transferred from the caller.
    pub free_balance: Balance,
    /// What a contract needs to subsist.
    pub subsistence_threshold: Balance,
    /// The deposit for a contract.
    pub deposit_per_contract: Balance,
    /// The deposit for a byte of storage.
    pub deposit_per_storage_byte: Balance,
    /// The deposit for an item of storage.
    pub deposit_per_storage_item: Balance,
    /// The greatest amount that the contract is willing to pay as rent.
    pub rent_allowance: Balance,
    /// The part of the missing deposit that is charged as rent.
    pub rent_fraction: sp_runtime::Perbill,
    /// The number of bytes that the contract's storage takes.
    pub storage_size: u32,
    /// The sum of instrumented and pristine code length.
    pub code_size: u32,
    /// The number of contracts that use the code.
    pub code_refcount: u32,
    /// Reserved for backwards compatible changes to this data structure.
    pub reserved: Option<()>,
}

/// A balance after a value was added to it, at most the greatest balance there is.
pub open spec fn credited(width: BalanceWidth, balance: Balance, value: Balance) -> Balance {
    if balance + value > width.greatest() {
        width.greatest()
    } else {
        (balance + value) as u128
    }
}

/// Adds a value to a balance, up to the greatest balance there is.
fn credit(width: BalanceWidth, balance: Balance, value: Balance) -> (credited_balance: Balance)
    ensures
        credited_balance == credited(width, balance, value),
{
    let sum: u128 = balance.saturating_add(value);
    let greatest: u128 = width.max_value();
    if sum > greatest {
        greatest
    } else {
        sum
    }
}

/// What a contract can learn of its rent, with a value added to its balances.
pub open spec fn rent_params<E: Executable>(
    total_balance: Balance,
    free_balance: Balance,
    value: Balance,
    contract: AliveContractInfo,
    executable: E,
    config: RentConfig,
) -> RentParams {
    RentParams {
        total_balance: credited(config.balance, total_balance, value),
        free_balance: credited(config.balance, free_balance, value),
        subsistence_threshold: config.subsistence_threshold,
        deposit_per_contract: config.deposit_per_contract,
        deposit_per_storage_byte: config.deposit_per_storage_byte,
        deposit_per_storage_item: config.deposit_per_storage_item,
        rent_allowance: contract.rent_allowance,
        rent_fraction: config.rent_fraction,
        storage_size: contract.storage_size,
        code_size: executable.aggregate_len(),
        code_refcount: executable.users(),
        reserved: None,
    }
}

impl RentParams {
    /// Derives new `RentParams` from the passed in data.
    ///
    /// `value` is added to the current free and total balance of the contract's account.
    pub fn new<E: Executable>(
        total_balance: Balance,
        free_balance: Balance,
        value: Balance,
        contract: &AliveContractInfo,
        executable: &E,
        config: RentConfig,
    ) -> (params: RentParams)
        ensures
            params == rent_params(
                total_balance,
                free_balance,
                value,
                *contract,
                *executable,
                config,
            ),
    {
        RentParams {
            total_balance: credit(config.balance, total_balance, value),
            free_balance: credit(config.balance, free_balance, value),
            subsistence_threshold: config.subsistence_threshold,
            deposit_per_contract: config.deposit_per_contract,
            deposit_per_storage_byte: config.deposit_per_storage_byte,
            deposit_per_storage_item: config.deposit_per_storage_item,
            rent_allowance: contract.rent_allowance,
            rent_fraction: config.rent_fraction,
            storage_size: contract.storage_size,
            code_size: executable.aggregate_code_len(),
            code_refcount: executable.refcount(),
            reserved: None,
        }
    }
}

} // verus!
