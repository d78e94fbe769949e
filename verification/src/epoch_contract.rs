//! A contract for trying things out on the chain: it keeps a message and a number, tells
//! the epoch, and passes a large amount through a callback.

use vstd::prelude::*;

use crate::types::{ContractError, PromiseResult, ONE_NEAR, TGAS};
use crate::upgrade::{
    enough_gas, gas_for_migration, migration_gas, require_enough_gas, UpgradePlan,
};
use crate::utils::is_promise_success;

verus! {

/// The state of the contract.
#[derive(Debug)]
pub struct TestContract {
    pub saved_message: String,
    pub saved_i32: i32,
    /// The epoch in which the contract was started.
    pub last_epoch: u64,
    pub owner_id: String,
}

/// A query to another contract, followed by a callback that gets `big_amount`.
#[derive(Debug)]
pub struct BalanceQuery {
    /// The contract that is asked.
    pub contract_id: String,
    /// The account whose total balance is asked for.
    pub account_id: String,
    pub query_gas: u64,
    /// The contract that is called back.
    pub callback_id: String,
    pub callback_gas: u64,
    pub big_amount: u128,
}

/// What came back from a query.
#[derive(Clone, Copy, Debug, PartialEq, Eq, Structural)]
pub struct BalanceAnswer {
    pub is_promise_success: bool,
    /// The amount that was passed along.
    pub big_amount: u128,
    /// The same in whole NEAR.
    pub big_amount_nears: u128,
    /// The balance that was asked for.
    pub balance: u128,
}

impl TestContract {
    /// Starts the contract.
    pub fn new(state_exists: bool, epoch_height: u64) -> (r: Result<TestContract, ContractError>)
        ensures
            state_exists ==> r == Err::<TestContract, ContractError>(
                ContractError::AlreadyInitialized,
            ),
            !state_exists ==> {
                &&& r is Ok
                &&& r->Ok_0.saved_message@ == "init"@
                &&& r->Ok_0.saved_i32 == 0
                &&& r->Ok_0.last_epoch == epoch_height
                &&& r->Ok_0.owner_id@ == "dao2.pool.testnet"@
            },
    {
        if state_exists {
            return Err(ContractError::AlreadyInitialized);
        }
        Ok(
            TestContract {
                saved_message: "init".to_owned(),
                saved_i32: 0,
                last_epoch: epoch_height,
                owner_id: "dao2.pool.testnet".to_owned(),
            },
        )
    }

    /// The version of the contract.
    pub fn get_version(&self) -> (r: String)
        ensures
            r@ == "2.0.0 BLOCKCHAIN_INTERFACE"@,
    {
        "2.0.0 BLOCKCHAIN_INTERFACE".to_owned()
    }

    /// Keeps a message.
    pub fn set_message(&mut self, message: String)
        ensures
            *final(self) == (TestContract { saved_message: message, ..*old(self) }),
    {
        self.saved_message = message;
    }

    /// Keeps a number.
    pub fn set_i32(&mut self, num: i32)
        ensures
            *final(self) == (TestContract { saved_i32: num, ..*old(self) }),
    {
        self.saved_i32 = num;
    }

    /// The message.
    pub fn get_message(&self) -> (r: String)
        ensures
            r == self.saved_message,
    {
        self.saved_message.clone()
    }

    /// The epoch in which the call is made.
    pub fn get_epoch_height(&self, epoch_height: u64) -> (r: u64)
        ensures
            r == epoch_height,
    {
        epoch_height
    }

    /// The block in which the call is made.
    pub fn get_block_index(&self, block_height: u64) -> (r: u64)
        ensures
            r == block_height,
    {
        block_height
    }

    /// Asks another contract for a balance, and has the largest amount there is passed
    /// to the callback.
    pub fn test_callbacks(&self, current_account_id: &String) -> (r: BalanceQuery)
        ensures
            r.contract_id@ == "meta.pool.testnet"@,
            r.account_id@ == "lucio.testnet"@,
            r.query_gas == 10 * TGAS,
            r.callback_id == *current_account_id,
            r.callback_gas == 10 * TGAS,
            r.big_amount == u128::MAX,
            r.query_gas == 10_000_000_000_000 && r.callback_gas == 10_000_000_000_000,
    {
        BalanceQuery {
            contract_id: "meta.pool.testnet".to_owned(),
            account_id: "lucio.testnet".to_owned(),
            query_gas: 10 * TGAS,
            callback_id: current_account_id.clone(),
            callback_gas: 10 * TGAS,
            big_amount: u128::MAX,
        }
    }

    /// Takes the balance that another contract answered with, and the amount that was
    /// passed along. Only the contract itself may call this, with the one result that it
    /// waits for.
    pub fn on_get_sp_total_balance(
        &self,
        predecessor: &String,
        current_account_id: &String,
        results: &Vec<PromiseResult>,
        big_amount: u128,
        balance: u128,
    ) -> (r: Result<BalanceAnswer, ContractError>)
        ensures
            r == (if predecessor@ != current_account_id@ {
                Err(ContractError::NotACallback)
            } else if results@.len() != 1 {
                Err(ContractError::NotOneResult)
            } else {
                Ok(
                    BalanceAnswer {
                        is_promise_success: results@[0] is Successful,
                        big_amount,
                        big_amount_nears: (big_amount / ONE_NEAR) as u128,
                        balance,
                    },
                )
            }),
            r is Ok ==> r->Ok_0.big_amount_nears * 1_000_000_000_000_000_000_000_000 <= big_amount
                < r->Ok_0.big_amount_nears * 1_000_000_000_000_000_000_000_000
                + 1_000_000_000_000_000_000_000_000,
    {
        if !(*predecessor == *current_account_id) {
            return Err(ContractError::NotACallback);
        }
        let is_promise_success = is_promise_success(results)?;
        Ok(
            BalanceAnswer {
                is_promise_success,
                big_amount,
                big_amount_nears: big_amount / ONE_NEAR,
                balance,
            },
        )
    }

    /// What a call to replace the contract's code needs before anything is deployed: more
    /// than 150 TGas, of which no more is used than there is.
    pub open spec fn upgrade_start(&self, prepaid_gas: u64, used_gas: u64) -> Result<
        (),
        ContractError,
    > {
        if enough_gas(prepaid_gas) is Err {
            enough_gas(prepaid_gas)
        } else if used_gas > prepaid_gas {
            Err(ContractError::Overflow)
        } else {
            Ok(())
        }
    }

    /// Accepts a call to replace the contract's code, before anything is deployed.
    pub fn start_upgrade(&self, prepaid_gas: u64, used_gas: u64) -> (r: Result<(), ContractError>)
        ensures
            r == self.upgrade_start(prepaid_gas, used_gas),
    {
        require_enough_gas(prepaid_gas)?;
        if used_gas > prepaid_gas {
            return Err(ContractError::Overflow);
        }
        Ok(())
    }

    /// Accepts a call to replace the contract's code with the input of the call, and
    /// gives what has to be done for it. Preparing to deploy the code uses a good part of
    /// the gas, so the gas for the migration goes by what is used after that,
    /// `used_gas_with_deploy`.
    pub fn upgrade(
        &self,
        current_account_id: &String,
        prepaid_gas: u64,
        used_gas: u64,
        used_gas_with_deploy: u64,
        input: Option<Vec<u8>>,
    ) -> (r: Result<UpgradePlan, ContractError>)
        ensures
            match self.upgrade_start(prepaid_gas, used_gas) {
                Err(e) => r == Err::<UpgradePlan, ContractError>(e),
                Ok(()) => match input {
                    None => r == Err::<UpgradePlan, ContractError>(ContractError::MissingCode),
                    Some(code) => match gas_for_migration(prepaid_gas, used_gas_with_deploy) {
                        Err(e) => r == Err::<UpgradePlan, ContractError>(e),
                        Ok(gas) => {
                            &&& r is Ok
                            &&& r->Ok_0.deploys_and_migrates(current_account_id@, code@, gas)
                        },
                    },
                },
            },
    {
        self.start_upgrade(prepaid_gas, used_gas)?;
        match input {
            None => Err(ContractError::MissingCode),
            Some(code) => {
                let gas = migration_gas(prepaid_gas, used_gas_with_deploy)?;
                Ok(UpgradePlan::new(current_account_id, code, gas))
            },
        }
    }
}

} // verus!
