use metapool::stake::PoolCall;
use metapool::staking_contract::{StakingContract, STAKE_SHARE_PRICE_GUARANTEE_FUND};
use metapool::types::{ContractError, PromiseResult, RewardFeeFraction};

const NEAR: u128 = 1_000_000_000_000_000_000_000_000;
const FUND: u128 = STAKE_SHARE_PRICE_GUARANTEE_FUND;

fn tenth() -> RewardFeeFraction {
    RewardFeeFraction { numerator: 1, denominator: 10 }
}

fn start(
    owner: &str,
    fraction: RewardFeeFraction,
    exists: bool,
    balance: u128,
    locked: u128,
) -> Result<(StakingContract, Option<u128>), ContractError> {
    StakingContract::new(
        owner.to_string(),
        "ed25519:key".to_string(),
        fraction,
        exists,
        balance,
        locked,
        1,
    )
}

fn started(fraction: RewardFeeFraction, balance: u128) -> StakingContract {
    match start("owner.near", fraction, false, balance, 0) {
        Ok((contract, _)) => contract,
        Err(e) => panic!("{:?}", e),
    }
}

/// A call in an epoch for which the account holds what it should, and `reward` more.
fn call_with(
    contract: &StakingContract,
    who: &str,
    deposit: u128,
    epoch_height: u64,
    reward: u128,
) -> PoolCall {
    PoolCall {
        predecessor: who.to_string(),
        attached_deposit: deposit,
        epoch_height,
        account_balance: contract.last_total_balance + deposit + reward,
        account_locked_balance: 0,
    }
}

fn unstaked(contract: &StakingContract, who: &str) -> u128 {
    contract.get_account_unstaked_balance(&who.to_string()).unwrap()
}

fn staked(contract: &StakingContract, who: &str) -> u128 {
    contract.get_account_staked_balance(&who.to_string()).unwrap()
}

/// Forty NEAR of nobody and fifty of alice are staked, then a hundred come in as reward.
fn with_rewards() -> StakingContract {
    let mut contract = started(tenth(), 40 * NEAR + FUND);
    let call = call_with(&contract, "alice.near", 50 * NEAR, 1, 0);
    assert_eq!(contract.deposit_and_stake(&call), Ok(Some(90 * NEAR)));
    let call = call_with(&contract, "anybody.near", 0, 2, 100 * NEAR);
    assert_eq!(contract.ping(&call), Ok(Some(190 * NEAR)));
    contract
}

#[test]
fn starts_with_all_but_the_fund_staked() {
    let (contract, restake) = match start("owner.near", tenth(), false, 40 * NEAR + FUND, 0) {
        Ok(started) => started,
        Err(e) => panic!("{:?}", e),
    };
    assert_eq!(restake, Some(40 * NEAR));
    assert_eq!(contract.get_total_staked_balance(), 40 * NEAR);
    assert_eq!(contract.total_stake_shares, 40 * NEAR);
    assert_eq!(contract.last_total_balance, 40 * NEAR + FUND);
    assert_eq!(contract.last_epoch_height, 1);
    assert_eq!(contract.get_owner_id(), "owner.near");
    assert_eq!(contract.get_staking_key(), "ed25519:key");
    assert_eq!(contract.get_reward_fee_fraction(), tenth());
    assert!(!contract.is_staking_paused());
    assert_eq!(contract.get_number_of_accounts(), 0);
}

#[test]
fn refuses_to_start_for_a_reason() {
    let refused = |owner: &str, numerator: u32, denominator: u32, exists, balance, locked| {
        start(owner, RewardFeeFraction { numerator, denominator }, exists, balance, locked).err()
    };
    assert_eq!(refused("o.near", 1, 2, false, FUND, 0), None);
    assert_eq!(refused("o.near", 1, 2, true, FUND, 0), Some(ContractError::AlreadyInitialized));
    assert_eq!(refused("o.near", 1, 0, false, FUND, 0), Some(ContractError::ZeroDenominator));
    assert_eq!(refused("o.near", 3, 2, false, FUND, 0), Some(ContractError::FeeAboveOne));
    assert_eq!(refused("O.near", 1, 2, false, FUND, 0), Some(ContractError::InvalidAccountId));
    assert_eq!(refused("o.near", 1, 2, false, FUND - 1, 0), Some(ContractError::Overflow));
    assert_eq!(refused("o.near", 1, 2, false, FUND, 1), Some(ContractError::AlreadyStaking));
}

#[test]
fn deposits_wait_until_they_are_staked() {
    let mut contract = started(tenth(), 40 * NEAR + FUND);
    let call = call_with(&contract, "alice.near", 50 * NEAR, 1, 0);
    assert_eq!(contract.deposit(&call), Ok(None));
    assert_eq!(unstaked(&contract, "alice.near"), 50 * NEAR);
    let call = call_with(&contract, "alice.near", 0, 1, 0);
    assert_eq!(contract.stake(&call, 20 * NEAR), Ok(Some(60 * NEAR)));
    assert_eq!(unstaked(&contract, "alice.near"), 30 * NEAR);
    assert_eq!(
        contract.stake(&call, 31 * NEAR),
        Err(ContractError::NotEnoughUnstaked { unstaked: 30 * NEAR })
    );
    assert_eq!(contract.stake_all(&call), Ok(Some(90 * NEAR)));
    assert_eq!(unstaked(&contract, "alice.near"), 0);
    assert_eq!(contract.stake_all(&call), Err(ContractError::AmountNotPositive));
    assert_eq!(staked(&contract, "alice.near"), 50 * NEAR);
    assert_eq!(contract.get_account_total_balance(&"alice.near".to_string()), Ok(50 * NEAR));
}

#[test]
fn rewards_go_to_owner_and_delegators() {
    let contract = with_rewards();
    // the fee of ten NEAR buys five shares at the new price of two
    assert_eq!(contract.total_stake_shares, 95 * NEAR);
    assert_eq!(contract.total_staked_balance, 190 * NEAR);
    assert_eq!(staked(&contract, "owner.near"), 10 * NEAR);
    assert_eq!(staked(&contract, "alice.near"), 100 * NEAR);
}

#[test]
fn rewards_are_shared_once_per_epoch() {
    let mut contract = with_rewards();
    let call = call_with(&contract, "anybody.near", 0, 2, 100 * NEAR);
    assert_eq!(contract.ping(&call), Ok(None));
    assert_eq!(contract.total_staked_balance, 190 * NEAR);
    let call = call_with(&contract, "anybody.near", 0, 3, 0);
    assert_eq!(contract.ping(&call), Ok(Some(190 * NEAR)));
    assert_eq!(contract.last_epoch_height, 3);
}

#[test]
fn a_shrunken_balance_is_refused() {
    let mut contract = with_rewards();
    let call = PoolCall {
        account_balance: contract.last_total_balance - 1,
        ..call_with(&contract, "anybody.near", 0, 3, 0)
    };
    assert_eq!(contract.ping(&call), Err(ContractError::BalanceDecreased));
    assert_eq!(contract.last_epoch_height, 2);
}

#[test]
fn unstaked_balance_is_locked_for_four_epochs() {
    let mut contract = with_rewards();
    let call = call_with(&contract, "alice.near", 0, 2, 0);
    assert_eq!(contract.unstake(&call, 20 * NEAR), Ok(Some(170 * NEAR)));
    assert_eq!(unstaked(&contract, "alice.near"), 20 * NEAR);
    assert_eq!(staked(&contract, "alice.near"), 80 * NEAR);
    assert_eq!(contract.total_stake_shares, 85 * NEAR);
    let alice = "alice.near".to_string();
    assert_eq!(contract.is_account_unstaked_balance_available(&alice, 5), Ok(false));
    assert_eq!(contract.is_account_unstaked_balance_available(&alice, 6), Ok(true));
    let early = call_with(&contract, "alice.near", 0, 5, 0);
    assert_eq!(
        contract.withdraw(&early, 20 * NEAR).err(),
        Some(ContractError::UnstakedNotAvailable { unlock_epoch: 6 })
    );
    let late = call_with(&contract, "alice.near", 0, 6, 0);
    assert_eq!(
        contract.withdraw(&late, 21 * NEAR).err(),
        Some(ContractError::NotEnoughUnstaked { unstaked: 20 * NEAR })
    );
    assert_eq!(contract.withdraw(&late, 0).err(), Some(ContractError::AmountNotPositive));
    let paid = match contract.withdraw(&late, 5 * NEAR) {
        Ok(paid) => paid,
        Err(e) => panic!("{:?}", e),
    };
    assert_eq!(paid.transfer.receiver_id, "alice.near");
    assert_eq!(paid.transfer.amount, 5 * NEAR);
    assert_eq!(paid.restake, Some(170 * NEAR));
    let rest = match contract.withdraw_all(&late) {
        Ok(paid) => paid,
        Err(e) => panic!("{:?}", e),
    };
    assert_eq!((rest.transfer.amount, rest.restake), (15 * NEAR, None));
}

#[test]
fn unstaking_all_leaves_no_shares() {
    let mut contract = with_rewards();
    let call = call_with(&contract, "alice.near", 0, 2, 0);
    assert_eq!(contract.unstake_all(&call), Ok(Some(90 * NEAR)));
    assert_eq!(staked(&contract, "alice.near"), 0);
    assert_eq!(unstaked(&contract, "alice.near"), 100 * NEAR);
    assert_eq!(contract.unstake_all(&call), Err(ContractError::AmountNotPositive));
    assert_eq!(
        contract.unstake(&call, 1),
        Err(ContractError::NotEnoughStaked { staked: 0 })
    );
}

#[test]
fn rounding_is_paid_by_the_fund() {
    let nothing = RewardFeeFraction { numerator: 0, denominator: 1 };
    let mut contract = started(nothing, FUND + 2);
    let call = call_with(&contract, "anybody.near", 0, 2, 1);
    contract.ping(&call).unwrap();
    assert_eq!((contract.total_staked_balance, contract.total_stake_shares), (3, 2));
    let call = call_with(&contract, "bob.near", 2, 2, 0);
    assert_eq!(contract.deposit_and_stake(&call), Ok(Some(5)));
    assert_eq!((contract.total_staked_balance, contract.total_stake_shares), (5, 3));
    assert_eq!(unstaked(&contract, "bob.near"), 1);
    // what the pool holds beyond what it owes
    let left = contract.last_total_balance - contract.total_staked_balance - 1;
    assert_eq!(left, FUND - 1);
    let call = call_with(&contract, "bob.near", 0, 2, 0);
    assert_eq!(contract.unstake(&call, 1), Ok(Some(4)));
    assert_eq!((contract.total_staked_balance, contract.total_stake_shares), (4, 2));
    assert_eq!(unstaked(&contract, "bob.near"), 3);
    let left = contract.last_total_balance - contract.total_staked_balance - 3;
    assert_eq!(left, FUND - 2);
}

#[test]
fn a_tiny_stake_buys_nothing() {
    let mut contract = with_rewards();
    let call = call_with(&contract, "bob.near", 5, 2, 0);
    contract.deposit(&call).unwrap();
    let call = call_with(&contract, "bob.near", 0, 2, 0);
    assert_eq!(contract.stake(&call, 1), Err(ContractError::NoShares));
    assert_eq!(contract.stake(&call, 5), Ok(Some(190 * NEAR + 4)));
    assert_eq!(unstaked(&contract, "bob.near"), 1);
}

#[test]
fn without_shares_there_is_no_price() {
    let mut contract = started(tenth(), FUND);
    let call = call_with(&contract, "bob.near", 5, 1, 0);
    assert_eq!(contract.deposit_and_stake(&call), Err(ContractError::NoPrice));
    assert_eq!(
        contract.get_account_staked_balance(&"bob.near".to_string()),
        Err(ContractError::NoPrice)
    );
    assert_eq!(
        contract.get_account_unstaked_balance(&"bob.near".to_string()),
        Err(ContractError::NoPrice)
    );
}

#[test]
fn delegators_are_listed() {
    let contract = with_rewards();
    assert_eq!(contract.get_number_of_accounts(), 2);
    let list = contract.get_accounts(0, 9, 2).unwrap();
    assert_eq!(list.len(), 2);
    assert_eq!(list[0].account_id, "alice.near");
    assert_eq!((list[0].staked_balance, list[0].unstaked_balance), (100 * NEAR, 0));
    assert!(list[0].can_withdraw);
    assert_eq!(contract.get_accounts(1, 1, 2).unwrap()[0].account_id, "owner.near");
    assert_eq!(contract.get_accounts(1, u64::MAX, 2).unwrap_err(), ContractError::Overflow);
    let shown = contract.get_account("alice.near".to_string(), 2).unwrap();
    assert_eq!(shown.staked_balance, 100 * NEAR);
}

#[test]
fn a_failed_stake_action_unstakes() {
    let contract = with_rewards();
    let me = "pool.near".to_string();
    let call = PoolCall {
        account_locked_balance: 1,
        ..call_with(&contract, "pool.near", 0, 2, 0)
    };
    let failed = vec![PromiseResult::Failed];
    let done = vec![PromiseResult::Successful(vec![])];
    assert_eq!(contract.on_stake_action(&me, &call, &failed), Ok(Some(0)));
    assert_eq!(contract.on_stake_action(&me, &call, &done), Ok(None));
    assert_eq!(contract.on_stake_action(&me, &call, &vec![]), Err(ContractError::NotOneResult));
    let nothing_locked = call_with(&contract, "pool.near", 0, 2, 0);
    assert_eq!(contract.on_stake_action(&me, &nothing_locked, &failed), Ok(None));
    let stranger = call_with(&contract, "bob.near", 0, 2, 0);
    assert_eq!(
        contract.on_stake_action(&me, &stranger, &failed),
        Err(ContractError::NotACallback)
    );
}

#[test]
fn the_owner_sets_key_and_fee() {
    let mut contract = with_rewards();
    let owner = call_with(&contract, "owner.near", 0, 2, 0);
    let stranger = call_with(&contract, "bob.near", 0, 2, 0);
    assert_eq!(
        contract.update_staking_key(&stranger, "k2".to_string()),
        Err(ContractError::NotOwner)
    );
    assert_eq!(contract.update_staking_key(&owner, "k2".to_string()), Ok(Some(190 * NEAR)));
    assert_eq!(contract.get_staking_key(), "k2");
    let half = RewardFeeFraction { numerator: 1, denominator: 2 };
    assert_eq!(contract.update_reward_fee_fraction(&stranger, half), Err(ContractError::NotOwner));
    assert_eq!(
        contract.update_reward_fee_fraction(&owner, RewardFeeFraction { numerator: 1, denominator: 0 }),
        Err(ContractError::ZeroDenominator)
    );
    assert_eq!(
        contract.update_reward_fee_fraction(&owner, RewardFeeFraction { numerator: 2, denominator: 1 }),
        Err(ContractError::FeeAboveOne)
    );
    assert_eq!(contract.update_reward_fee_fraction(&owner, half), Ok(None));
    assert_eq!(contract.get_reward_fee_fraction(), half);
}

#[test]
fn the_old_fee_applies_to_rewards_that_came_before() {
    let mut contract = started(tenth(), 90 * NEAR + FUND);
    let owner = call_with(&contract, "owner.near", 0, 2, 100 * NEAR);
    let half = RewardFeeFraction { numerator: 1, denominator: 2 };
    assert_eq!(contract.update_reward_fee_fraction(&owner, half), Ok(Some(190 * NEAR)));
    assert_eq!(staked(&contract, "owner.near"), 10 * NEAR);
}

#[test]
fn a_staking_pool_is_paused_and_resumed() {
    let mut contract = with_rewards();
    let owner = call_with(&contract, "owner.near", 0, 2, 0);
    let stranger = call_with(&contract, "bob.near", 0, 2, 0);
    assert_eq!(contract.resume_staking(&owner), Err(ContractError::NotPaused));
    assert_eq!(contract.pause_staking(&stranger), Err(ContractError::NotOwner));
    assert_eq!(contract.pause_staking(&owner), Ok(0));
    assert!(contract.is_staking_paused());
    assert_eq!(contract.pause_staking(&owner), Err(ContractError::AlreadyPaused));
    // shares and rewards are not affected, but nothing is staked
    let call = call_with(&contract, "anybody.near", 0, 3, 95 * NEAR);
    assert_eq!(contract.ping(&call), Ok(None));
    assert_eq!(contract.get_total_staked_balance(), 285 * NEAR);
    let owner = call_with(&contract, "owner.near", 0, 3, 0);
    assert_eq!(contract.resume_staking(&stranger), Err(ContractError::NotOwner));
    assert_eq!(contract.resume_staking(&owner), Ok(Some(285 * NEAR)));
    assert!(!contract.is_staking_paused());
}
