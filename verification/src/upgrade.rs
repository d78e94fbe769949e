//! Replacing the code of a contract: what is deployed, and what is called afterwards.

use vstd::prelude::*;

use crate::types::{ContractError, TGAS};

verus! {

/// What an upgrade has to do on the chain: first the code is deployed to the account,
/// then the method is called on it.
#[derive(Debug)]
pub struct UpgradePlan {
    pub account_id: String,
    pub code: Vec<u8>,
    pub method_name: String,
    pub arguments: Vec<u8>,
    pub deposit: u128,
    pub gas: u64,
}

impl UpgradePlan {
    /// Whether the plan deploys exactly `code` to the account and then calls `migrate`
    /// on it, without arguments or deposit, with `gas` gas.
    pub open spec fn deploys_and_migrates(
        &self,
        account_id: Seq<char>,
        code: Seq<u8>,
        gas: u64,
    ) -> bool {
        &&& self.account_id@ == account_id
        &&& self.code@ == code
        &&& self.method_name@ == "migrate"@
        &&& self.arguments@ == Seq::<u8>::empty()
        &&& self.deposit == 0
        &&& self.gas == gas
    }

    /// A plan to deploy `code` and then to migrate.
    pub(crate) fn new(account_id: &String, code: Vec<u8>, gas: u64) -> (r: Self)
        ensures
            r.deploys_and_migrates(account_id@, code@, gas),
    {
        UpgradePlan {
            account_id: account_id.clone(),
            code,
            method_name: "migrate".to_owned(),
            arguments: Vec::new(),
            deposit: 0,
            gas,
        }
    }
}

/// The gas of a call has to be more than 150 TGas.
pub open spec fn enough_gas(prepaid_gas: u64) -> Result<(), ContractError> {
    if prepaid_gas > 150 * TGAS {
        Ok(())
    } else {
        Err(ContractError::NotEnoughGas)
    }
}

/// The gas that is left for a migration, with 10 TGas kept back.
pub open spec fn gas_for_migration(prepaid_gas: u64, used_gas: u64) -> Result<u64, ContractError> {
    let left = prepaid_gas - used_gas - 10 * TGAS;
    if left >= 0 {
        Ok(left as u64)
    } else {
        Err(ContractError::Overflow)
    }
}

/// Accepts a call with more than 150 TGas.
pub(crate) fn require_enough_gas(prepaid_gas: u64) -> (r: Result<(), ContractError>)
    ensures
        r == enough_gas(prepaid_gas),
{
    if prepaid_gas > 150 * TGAS {
        Ok(())
    } else {
        Err(ContractError::NotEnoughGas)
    }
}

/// The gas that is left for a migration, with 10 TGas kept back.
pub(crate) fn migration_gas(prepaid_gas: u64, used_gas: u64) -> (r: Result<u64, ContractError>)
    ensures
        r == gas_for_migration(prepaid_gas, used_gas),
{
    if prepaid_gas < used_gas || prepaid_gas - used_gas < 10 * TGAS {
        return Err(ContractError::Overflow);
    }
    Ok(prepaid_gas - used_gas - 10 * TGAS)
}

} // verus!
