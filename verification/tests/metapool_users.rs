use metapool::account::Account;
use metapool::metapool::{caller_kind, MetaPool};
use metapool::types::{Call, CallerKind, ContractError, ContractParamsJSON, TGAS};

const NEAR: u128 = 1_000_000_000_000_000_000_000_000;
const MILLI: u128 = NEAR / 1_000;
const MICRO: u128 = NEAR / 1_000_000;

fn new_pool() -> MetaPool {
    match MetaPool::new(
        "owner.near".to_string(),
        "treasury.near".to_string(),
        "operator.near".to_string(),
        "token.near".to_string(),
    ) {
        Ok(pool) => pool,
        Err(e) => panic!("{:?}", e),
    }
}

fn call_at(who: &str, deposit: u128, epoch_height: u64) -> Call {
    Call {
        predecessor: who.to_string(),
        caller: CallerKind::User,
        attached_deposit: deposit,
        epoch_height,
    }
}

fn call(who: &str, deposit: u128) -> Call {
    call_at(who, deposit, 10)
}

fn lockup_call(deposit: u128, epoch_height: u64) -> Call {
    Call {
        predecessor: "lockup-contract.near".to_string(),
        caller: CallerKind::LockupContract,
        attached_deposit: deposit,
        epoch_height,
    }
}

fn account(pool: &MetaPool, who: &str) -> Account {
    pool.internal_get_account(&who.to_string())
}

fn sums(pool: &MetaPool, accounts: &[&str]) -> (u128, u128, u128, u128) {
    let mut available: u128 = pool.internal_get_nslp_account().available;
    let mut shares: u128 = pool.internal_get_nslp_account().stake_shares;
    let mut unstaked: u128 = pool.internal_get_nslp_account().unstaked;
    let mut nslp_shares: u128 = 0;
    for who in accounts {
        let a = account(pool, who);
        available += a.available;
        shares += a.stake_shares;
        unstaked += a.unstaked;
        nslp_shares += a.nslp_shares;
    }
    (available, shares, unstaked, nslp_shares)
}

fn assert_sound(pool: &MetaPool, accounts: &[&str]) {
    assert_eq!(
        sums(pool, accounts),
        (
            pool.total_available,
            pool.total_stake_shares,
            pool.total_unstake_claims,
            pool.internal_get_nslp_account().nslp_shares
        )
    );
    assert!(
        pool.retrieved_for_unstake_claims
            + pool.total_unstaked_and_waiting
            + pool.epoch_unstake_orders
            >= pool.total_unstake_claims
    );
}

/// Ten NEAR of alice are staked at a price of one.
fn pool_with_stake() -> MetaPool {
    let mut pool = new_pool();
    assert_eq!(pool.deposit_and_stake(&call("alice.near", 10 * NEAR)), Ok(10 * NEAR));
    pool
}

/// As before, and carol has put a thousand NEAR into the liquidity pool.
fn pool_with_liquidity() -> MetaPool {
    let mut pool = pool_with_stake();
    assert_eq!(pool.nslp_add_liquidity(&call("carol.near", 1_000 * NEAR)), Ok(10_000));
    pool
}

#[test]
fn a_new_pool_has_its_defaults() {
    let pool = new_pool();
    assert!(!pool.contract_busy && !pool.staking_paused);
    assert_eq!(pool.nslp_liquidity_target, 10_000 * NEAR);
    assert_eq!(pool.nslp_max_discount_basis_points, 180);
    assert_eq!(pool.nslp_min_discount_basis_points, 25);
    assert_eq!(pool.min_deposit_amount, NEAR);
    assert_eq!(pool.operator_rewards_fee_basis_points, 20);
    assert_eq!(pool.operator_swap_cut_basis_points, 300);
    assert_eq!(pool.treasury_swap_cut_basis_points, 2_500);
    assert_eq!(pool.max_meta_rewards_stakers, 1_000_000 * NEAR);
    assert_eq!(pool.max_meta_rewards_lu, 50_000 * NEAR);
    assert_eq!(pool.max_meta_rewards_lp, 100_000 * NEAR);
    assert_eq!(pool.staker_meta_mult_pct, 5_000);
    assert_eq!(pool.stnear_sell_meta_mult_pct, 50);
    assert_eq!(pool.lp_provider_meta_mult_pct, 200);
    assert_eq!(pool.unstake_for_rebalance_cap_bp, 100);
    assert_eq!(pool.web_app_url.as_deref(), Some("https://metapool.app"));
    assert_eq!(pool.auditor_account_id.as_deref(), Some("auditors.near"));
    assert_eq!(pool.get_number_of_accounts(), 0);
}

#[test]
fn key_accounts_have_to_be_different() {
    let new = |owner: &str, treasury: &str, operator: &str| {
        MetaPool::new(
            owner.to_string(),
            treasury.to_string(),
            operator.to_string(),
            "token.near".to_string(),
        )
        .err()
    };
    let refused = Some(ContractError::KeyAccountsNotDifferent);
    assert_eq!(new("a.near", "b.near", "c.near"), None);
    assert_eq!(new("a.near", "a.near", "c.near"), refused);
    assert_eq!(new("a.near", "b.near", "a.near"), refused);
    assert_eq!(new("a.near", "b.near", "b.near"), refused);
    assert_eq!(new("developers.near", "b.near", "c.near"), refused);
    assert_eq!(new("a.near", "developers.near", "c.near"), refused);
    assert_eq!(new("a.near", "b.near", "developers.near"), refused);
    assert_eq!(new_pool().require_key_accounts_are_different(), Ok(()));
}

#[test]
fn the_first_stake_is_minted_one_to_one() {
    let pool = pool_with_stake();
    assert_eq!(account(&pool, "alice.near").stake_shares, 10 * NEAR);
    assert_eq!(account(&pool, "alice.near").available, 0);
    assert_eq!(pool.total_for_staking, 10 * NEAR);
    assert_eq!(pool.total_stake_shares, 10 * NEAR);
    assert_eq!(pool.epoch_stake_orders, 10 * NEAR);
    assert_eq!(pool.contract_account_balance, 10 * NEAR);
    assert_eq!(pool.get_st_near_price(), Ok(NEAR));
    assert_sound(&pool, &["alice.near"]);
}

#[test]
fn later_stakes_pay_the_price() {
    let mut pool = pool_with_stake();
    // two NEAR of rewards
    pool.total_for_staking = 12 * NEAR;
    assert_eq!(pool.get_st_near_price(), Ok(1_200 * MILLI));
    assert_eq!(pool.deposit_and_stake(&call("bob.near", 6 * NEAR)), Ok(5 * NEAR));
    assert_eq!(pool.total_for_staking, 18 * NEAR);
    assert_eq!(pool.total_stake_shares, 15 * NEAR);
    assert_eq!(pool.get_st_near_price(), Ok(1_200 * MILLI));
    assert_eq!(pool.get_account_staked_balance(&"bob.near".to_string()), Ok(6 * NEAR));
    assert_sound(&pool, &["alice.near", "bob.near"]);
}

#[test]
fn small_deposits_are_refused() {
    let mut pool = new_pool();
    let refused = ContractError::BelowMinDeposit { min_deposit_amount: NEAR };
    assert_eq!(pool.deposit_and_stake(&call("alice.near", NEAR - 1)), Err(refused));
    assert_eq!(pool.nslp_add_liquidity(&call("alice.near", NEAR - 1)), Err(refused));
    assert_eq!(pool.get_number_of_accounts(), 0);
}

#[test]
fn an_amount_that_buys_no_share_is_refused() {
    let mut pool = pool_with_stake();
    // everything staked was lost, so that there is no price
    pool.total_for_staking = 0;
    assert_eq!(
        pool.deposit_and_stake(&call("bob.near", 2 * NEAR)),
        Err(ContractError::NoShares)
    );
    assert_eq!(pool.total_available, 0);
}

#[test]
fn unstaking_an_amount_waits_two_periods_without_ready_stake() {
    let mut pool = pool_with_stake();
    assert_eq!(pool.unstake(&call("alice.near", 0), 3 * NEAR), Ok(()));
    let alice = account(&pool, "alice.near");
    assert_eq!(alice.stake_shares, 7 * NEAR);
    assert_eq!(alice.unstaked, 3 * NEAR);
    assert_eq!(alice.unstaked_requested_unlock_epoch, 18);
    assert_eq!(pool.total_for_staking, 7 * NEAR);
    assert_eq!(pool.total_stake_shares, 7 * NEAR);
    assert_eq!(pool.epoch_unstake_orders, 3 * NEAR);
    assert_eq!(pool.total_unstake_claims, 3 * NEAR);
    assert_sound(&pool, &["alice.near"]);
}

#[test]
fn unstaking_close_to_all_takes_all() {
    let mut pool = pool_with_stake();
    assert_eq!(pool.unstake(&call("alice.near", 0), 10 * NEAR + MILLI - 1), Ok(()));
    assert_eq!(account(&pool, "alice.near").stake_shares, 0);
    assert_eq!(account(&pool, "alice.near").unstaked, 10 * NEAR);
}

#[test]
fn unstaking_too_much_is_refused() {
    let mut pool = pool_with_stake();
    assert_eq!(
        pool.unstake(&call("alice.near", 0), 11 * NEAR),
        Err(ContractError::NotEnoughStaked { staked: 10 * NEAR })
    );
    assert_eq!(pool.unstake_all(&call("bob.near", 0)), Err(ContractError::NoShares));
}

#[test]
fn unstaked_near_is_withdrawn_after_the_wait() {
    let mut pool = pool_with_stake();
    assert_eq!(pool.unstake_all(&call("alice.near", 0)), Ok(()));
    assert_eq!(
        pool.withdraw_all(&call_at("alice.near", 0, 17)).unwrap_err(),
        ContractError::UnstakedNotAvailable { unlock_epoch: 18 }
    );
    assert_eq!(
        pool.withdraw_all(&call_at("alice.near", 0, 18)).unwrap_err(),
        ContractError::ClaimsNotRetrieved
    );
    // the NEAR comes back from the staking pools
    pool.retrieved_for_unstake_claims = 10 * NEAR;
    pool.epoch_unstake_orders = 0;
    assert_eq!(
        pool.withdraw(&call_at("alice.near", 0, 18), 11 * NEAR).unwrap_err(),
        ContractError::NotEnoughUnstaked { unstaked: 10 * NEAR }
    );
    let part = pool.withdraw(&call_at("alice.near", 0, 18), 4 * NEAR).unwrap();
    assert_eq!((part.receiver_id.as_str(), part.amount), ("alice.near", 4 * NEAR));
    assert_sound(&pool, &["alice.near"]);
    let rest = pool.withdraw_unstaked(&call_at("alice.near", 0, 18)).unwrap();
    assert_eq!(rest.amount, 6 * NEAR);
    assert_eq!(pool.contract_account_balance, 0);
    assert_eq!(pool.total_unstake_claims, 0);
    assert_eq!(pool.get_number_of_accounts(), 0);
}

#[test]
fn a_figure_that_does_not_fit_is_refused() {
    let mut pool = pool_with_stake();
    pool.total_for_staking = u128::MAX;
    pool.total_stake_shares = 1;
    assert_eq!(pool.get_st_near_price(), Err(ContractError::Overflow));
    assert_eq!(pool.unstake_all(&call("alice.near", 0)), Err(ContractError::Overflow));
}

#[test]
fn lockup_accounts_go_through_their_contract() {
    let mut pool = new_pool();
    let locked = Call {
        predecessor: "abc.lockup.near".to_string(),
        caller: CallerKind::LockupAccount,
        attached_deposit: 2 * NEAR,
        epoch_height: 10,
    };
    let refused = ContractError::LockupAccountCalling;
    assert_eq!(pool.deposit_and_stake(&locked), Err(refused));
    assert_eq!(pool.unstake(&locked, NEAR), Err(refused));
    assert_eq!(pool.unstake_all(&locked), Err(refused));
    assert_eq!(pool.withdraw(&locked, NEAR).unwrap_err(), refused);
    assert_eq!(pool.withdraw_all(&locked).unwrap_err(), refused);

    let id = "abc.lockup.near".to_string();
    let stranger = ContractError::NotLockupContract;
    assert_eq!(pool.stake_for_lockup(&call("bob.near", 2 * NEAR), &id), Err(stranger));
    assert_eq!(pool.unstake_from_lockup_shares(&call("bob.near", 0), &id, NEAR), Err(stranger));
    assert_eq!(pool.withdraw_to_lockup(&call("bob.near", 0), &id, NEAR).unwrap_err(), stranger);

    assert_eq!(pool.stake_for_lockup(&lockup_call(2 * NEAR, 10), &id), Ok(2 * NEAR));
    assert_eq!(account(&pool, "abc.lockup.near").stake_shares, 2 * NEAR);
    assert_eq!(
        pool.unstake_from_lockup_shares(&lockup_call(0, 10), &id, 3 * NEAR),
        Err(ContractError::NotEnoughStaked { staked: 2 * NEAR })
    );
    assert_eq!(
        pool.unstake_from_lockup_shares(&lockup_call(0, 10), &id, NEAR),
        Ok((NEAR, 18))
    );
    pool.retrieved_for_unstake_claims = NEAR;
    let paid = pool.withdraw_to_lockup(&lockup_call(0, 18), &id, NEAR).unwrap();
    assert_eq!((paid.receiver_id.as_str(), paid.amount), ("abc.lockup.near", NEAR));
}

#[test]
fn callers_are_told_apart() {
    let contract = "lockup-contract.near".to_string();
    let kind = |who: &str| caller_kind(&who.to_string(), &contract);
    assert_eq!(kind("lockup-contract.near"), CallerKind::LockupContract);
    assert_eq!(kind("abc.lockup.near"), CallerKind::LockupAccount);
    assert_eq!(kind("alice.near"), CallerKind::User);
}

#[test]
fn ping_changes_nothing() {
    let mut pool = pool_with_stake();
    pool.ping();
    assert_sound(&pool, &["alice.near"]);
    assert_eq!(pool.total_for_staking, 10 * NEAR);
}

#[test]
fn a_swap_pays_at_a_discount() {
    let mut pool = pool_with_liquidity();
    assert_eq!(pool.nslp_get_discount_basis_points(5 * NEAR), 165);
    assert_eq!(pool.get_near_amount_sell_stnear(5 * NEAR), Ok(4_917_500 * MICRO));
    let before = pool.internal_get_nslp_account();
    let result = pool
        .liquid_unstake(&call("alice.near", 0), 5 * NEAR, 4_917_500 * MICRO)
        .unwrap();
    assert_eq!(result.near, 4_917_500 * MICRO);
    assert_eq!(result.fee, 82_500 * MICRO);
    assert_eq!(result.meta, 0);
    assert_eq!(account(&pool, "alice.near").stake_shares, 5 * NEAR);
    assert_eq!(account(&pool, "treasury.near").stake_shares, 20_625 * MICRO);
    assert_eq!(account(&pool, "operator.near").stake_shares, 2_475 * MICRO);
    assert_eq!(account(&pool, "developers.near").stake_shares, 1_650 * MICRO);
    let nslp = pool.internal_get_nslp_account();
    assert_eq!(nslp.available, 995_082_500 * MICRO);
    assert_eq!(nslp.stake_shares, 4_975_250 * MICRO);
    // the pool has gained
    assert!(nslp.available + nslp.stake_shares > before.available + before.stake_shares);
    assert_eq!(nslp.nslp_shares, before.nslp_shares);
    assert_eq!(pool.contract_account_balance, 1_005_082_500 * MICRO);
    assert_sound(
        &pool,
        &["alice.near", "carol.near", "treasury.near", "operator.near", "developers.near"],
    );
}

#[test]
fn a_swap_close_to_all_sells_all() {
    let mut pool = pool_with_liquidity();
    let result = pool.liquid_unstake(&call("alice.near", 0), 10 * NEAR + MILLI - 1, 0).unwrap();
    assert_eq!(account(&pool, "alice.near").stake_shares, 0);
    // 10 NEAR at 165 basis points
    assert_eq!(result.near, 9_835_000 * MICRO);
}

#[test]
fn swaps_are_refused_for_a_reason() {
    let mut pool = pool_with_liquidity();
    let seller = call("alice.near", 0);
    assert_eq!(
        pool.liquid_unstake(&seller, 11 * NEAR, 0),
        Err(ContractError::NotEnoughStNear { owned: 10 * NEAR })
    );
    assert_eq!(
        pool.liquid_unstake(&seller, 5 * NEAR, 5 * NEAR),
        Err(ContractError::PriceChanged {
            min_expected_near: 5 * NEAR,
            near_to_receive: 4_917_500 * MICRO
        })
    );
    assert_eq!(pool.liquid_unstake(&seller, 1, 0), Err(ContractError::FeeTooSmall));
    pool.contract_busy = true;
    assert_eq!(pool.liquid_unstake(&seller, 5 * NEAR, 0), Err(ContractError::Busy));
    assert_eq!(pool.nslp_remove_liquidity(&seller, NEAR), Err(ContractError::Busy));
    pool.contract_busy = false;
    pool.staking_paused = true;
    assert_eq!(pool.liquid_unstake(&seller, 5 * NEAR, 0), Err(ContractError::Paused));
    assert_eq!(pool.nslp_remove_liquidity(&seller, NEAR), Err(ContractError::Paused));
    let mut dry = pool_with_stake();
    assert_eq!(dry.liquid_unstake(&seller, 5 * NEAR, 0), Err(ContractError::NotEnoughLiquidity));
}

#[test]
fn key_accounts_cannot_swap() {
    let mut pool = pool_with_liquidity();
    for (who, refused) in [
        ("treasury.near", ContractError::TreasuryAccount),
        ("operator.near", ContractError::OperatorAccount),
        ("developers.near", ContractError::DevelopersAccount),
    ] {
        assert_eq!(pool.deposit_and_stake(&call(who, 2 * NEAR)), Ok(2 * NEAR));
        assert_eq!(pool.liquid_unstake(&call(who, 0), NEAR, 0), Err(refused));
    }
}

#[test]
fn a_deposit_clears_the_liquidity_pool() {
    let mut pool = pool_with_liquidity();
    pool.liquid_unstake(&call("alice.near", 0), 5 * NEAR, 0).unwrap();
    assert_eq!(pool.deposit_and_stake(&call("dave.near", 10 * NEAR)), Ok(10 * NEAR));
    let nslp = pool.internal_get_nslp_account();
    assert_eq!(nslp.available, 1_000_057_750 * MICRO);
    assert_eq!(nslp.stake_shares, 0);
    assert_eq!(pool.total_for_staking, 15_024_750 * MICRO);
    assert_eq!(pool.total_stake_shares, 15_024_750 * MICRO);
    assert_eq!(pool.epoch_stake_orders, 15_024_750 * MICRO);
    assert_sound(
        &pool,
        &[
            "alice.near",
            "carol.near",
            "dave.near",
            "treasury.near",
            "operator.near",
            "developers.near",
        ],
    );
}

#[test]
fn a_small_deposit_clears_a_part() {
    let mut pool = pool_with_liquidity();
    pool.liquid_unstake(&call("alice.near", 0), 5 * NEAR, 0).unwrap();
    assert_eq!(pool.deposit_and_stake(&call("dave.near", 2 * NEAR)), Ok(2 * NEAR));
    let nslp = pool.internal_get_nslp_account();
    assert_eq!(nslp.available, 997_082_500 * MICRO);
    assert_eq!(nslp.stake_shares, 2_975_250 * MICRO);
    assert_eq!(pool.total_stake_shares, 10 * NEAR);
    assert_eq!(pool.epoch_stake_orders, 10 * NEAR);
}

#[test]
fn liquidity_is_shared_by_value() {
    let mut pool = pool_with_liquidity();
    assert_eq!(pool.nslp_add_liquidity(&call("erin.near", 3_000 * NEAR)), Ok(7_500));
    assert_eq!(account(&pool, "erin.near").nslp_shares, 3_000 * NEAR);
    assert_eq!(pool.internal_get_nslp_account().nslp_shares, 4_000 * NEAR);
    assert_eq!(pool.total_available, 4_000 * NEAR);
    assert_sound(&pool, &["alice.near", "carol.near", "erin.near"]);
}

#[test]
fn liquidity_is_removed_in_parts_and_in_full() {
    let mut pool = pool_with_liquidity();
    let carol = call("carol.near", 0);
    let part = pool.nslp_remove_liquidity(&carol, 400 * NEAR).unwrap();
    assert_eq!((part.near, part.st_near), (400 * NEAR, 0));
    assert_eq!(account(&pool, "carol.near").nslp_shares, 600 * NEAR);
    assert_sound(&pool, &["alice.near", "carol.near"]);
    let rest = pool.nslp_remove_liquidity(&carol, 600 * NEAR + MILLI / 2).unwrap();
    assert_eq!((rest.near, rest.st_near), (600 * NEAR, 0));
    assert_eq!(account(&pool, "carol.near"), Account::default());
    assert_eq!(pool.get_number_of_accounts(), 1);
    assert_sound(&pool, &["alice.near", "carol.near"]);
}

#[test]
fn removed_liquidity_comes_with_its_st_near() {
    let mut pool = pool_with_liquidity();
    pool.liquid_unstake(&call("alice.near", 0), 5 * NEAR, 0).unwrap();
    let all = pool
        .nslp_remove_liquidity(&call("carol.near", 0), 1_000_057_750 * MICRO)
        .unwrap();
    assert_eq!((all.near, all.st_near), (995_082_500 * MICRO, 4_975_250 * MICRO));
    assert_eq!(account(&pool, "carol.near").stake_shares, 4_975_250 * MICRO);
    assert_eq!(account(&pool, "carol.near").nslp_shares, 0);
    assert_eq!(pool.internal_get_nslp_account(), Account::default());
}

#[test]
fn removing_too_much_liquidity_is_refused() {
    let mut pool = pool_with_liquidity();
    assert_eq!(
        pool.nslp_remove_liquidity(&call("carol.near", 0), 2_000 * NEAR),
        Err(ContractError::NotEnoughShareValue { value: 1_000 * NEAR })
    );
    assert_eq!(
        pool.nslp_remove_liquidity(&call("bob.near", 0), 0),
        Err(ContractError::NoShares)
    );
}

#[test]
fn liquidity_above_the_target_can_be_staked() {
    let mut pool = pool_with_liquidity();
    let params = ContractParamsJSON {
        nslp_liquidity_target: 100 * NEAR,
        ..pool.get_contract_params()
    };
    assert_eq!(pool.set_contract_params(&call("operator.near", 0), params), Ok(()));
    let operator = call("operator.near", 1);
    assert_eq!(
        pool.stake_from_nslp(&operator, 1_000 * NEAR),
        Err(ContractError::AmountAboveLiquidity)
    );
    assert_eq!(
        pool.stake_from_nslp(&operator, 900 * NEAR),
        Err(ContractError::LiquidityBelowTarget)
    );
    assert_eq!(
        pool.stake_from_nslp(&call("operator.near", 0), 400 * NEAR),
        Err(ContractError::OneYoctoRequired)
    );
    assert_eq!(
        pool.stake_from_nslp(&call("bob.near", 1), 400 * NEAR),
        Err(ContractError::NotOperatorOrOwner)
    );
    assert_eq!(pool.stake_from_nslp(&operator, 400 * NEAR), Ok(()));
    let nslp = pool.internal_get_nslp_account();
    assert_eq!((nslp.available, nslp.stake_shares), (600 * NEAR, 400 * NEAR));
    assert_eq!(pool.total_stake_shares, 410 * NEAR);
    assert_sound(&pool, &["alice.near", "carol.near"]);
}

#[test]
fn the_discount_falls_with_liquidity() {
    let mut pool = pool_with_liquidity();
    assert_eq!(pool.nslp_get_discount_basis_points(1_000 * NEAR), 180);
    assert_eq!(pool.nslp_get_discount_basis_points(500 * NEAR), 173);
    assert_eq!(pool.nslp_get_discount_basis_points(0), 165);
    assert_eq!(pool.nslp_add_liquidity(&call("erin.near", 9_000 * NEAR)), Ok(9_000));
    assert_eq!(pool.nslp_get_discount_basis_points(0), 25);
    assert_eq!(pool.nslp_get_discount_basis_points(5_000 * NEAR), 103);
}

#[test]
fn accounts_are_shown_like_in_a_staking_pool() {
    let mut pool = pool_with_stake();
    pool.unstake(&call("alice.near", 0), 3 * NEAR).unwrap();
    pool.deposit_and_stake(&call("bob.near", 2 * NEAR)).unwrap();
    let alice = "alice.near".to_string();
    assert_eq!(pool.get_account_unstaked_balance(&alice), Ok(3 * NEAR));
    assert_eq!(pool.get_account_staked_balance(&alice), Ok(7 * NEAR));
    assert_eq!(pool.get_account_total_balance(&alice), Ok(10 * NEAR));
    assert_eq!(pool.get_account_available_balance(&alice), 0);
    assert_eq!(pool.is_account_unstaked_balance_available(&alice, 17), Ok(false));
    assert_eq!(pool.is_account_unstaked_balance_available(&alice, 18), Ok(true));
    let shown = pool.get_account(alice, 18).unwrap();
    assert_eq!(shown.account_id, "alice.near");
    assert_eq!((shown.unstaked_balance, shown.staked_balance), (3 * NEAR, 7 * NEAR));
    assert!(shown.can_withdraw);
    assert_eq!(pool.get_number_of_accounts(), 2);
    let all = pool.get_accounts(0, 10, 10).unwrap();
    assert_eq!(all.len(), 2);
    assert_eq!((all[0].account_id.as_str(), all[1].account_id.as_str()), ("alice.near", "bob.near"));
    assert_eq!(pool.get_accounts(1, 1, 10).unwrap()[0].account_id, "bob.near");
    assert_eq!(pool.get_accounts(5, 10, 10).unwrap().len(), 0);
    assert_eq!(pool.get_accounts(1, u64::MAX, 10).unwrap_err(), ContractError::Overflow);
}

#[test]
fn account_info_tells_all() {
    let mut pool = pool_with_liquidity();
    pool.unstake(&call("alice.near", 0), 3 * NEAR).unwrap();
    pool.total_for_staking = 14 * NEAR;
    let info = pool.get_account_info("alice.near".to_string(), 12).unwrap();
    assert_eq!(info.st_near, 7 * NEAR);
    assert_eq!(info.valued_st_near, 14 * NEAR);
    assert_eq!(info.unstaked, 3 * NEAR);
    assert_eq!(info.unstaked_requested_unlock_epoch, 18);
    assert_eq!(info.unstake_full_epochs_wait_left, 6);
    assert!(!info.can_withdraw);
    assert_eq!(info.total, 17 * NEAR);
    assert_eq!(info.trip_accum_stakes, 7 * NEAR);
    assert_eq!(info.trip_accum_unstakes, 0);
    assert_eq!(info.trip_rewards, 7 * NEAR);
    assert_eq!((info.nslp_shares, info.nslp_share_value, info.nslp_share_bp), (0, 0, 0));
    let carol = pool.get_account_info("carol.near".to_string(), 12).unwrap();
    assert_eq!(carol.nslp_shares, 1_000 * NEAR);
    assert_eq!((carol.nslp_share_value, carol.nslp_share_bp), (1_000 * NEAR, 10_000));
    assert_eq!((carol.meta, carol.realized_meta, carol.available), (0, 0, 0));
    let list = pool.get_accounts_info(0, 2, 12).unwrap();
    assert_eq!((list[0].account_id.as_str(), list[1].account_id.as_str()), ("alice.near", "carol.near"));
    assert_eq!(pool.get_accounts_info(u64::MAX, 1, 12).unwrap_err(), ContractError::Overflow);
}

#[test]
fn only_the_owner_upgrades() {
    let pool = new_pool();
    let me = "meta-pool.near".to_string();
    let owner = call("owner.near", 0);
    let plan = pool
        .upgrade(&owner, &me, 200 * TGAS, 30 * TGAS, Some(vec![7, 8]))
        .unwrap();
    assert_eq!(plan.account_id, "meta-pool.near");
    assert_eq!(plan.code, vec![7, 8]);
    assert_eq!(plan.method_name, "migrate");
    assert!(plan.arguments.is_empty());
    assert_eq!((plan.deposit, plan.gas), (0, 160 * TGAS));
    let refused = |call: &Call, prepaid: u64, used: u64, code: Option<Vec<u8>>| {
        pool.upgrade(call, &me, prepaid * TGAS, used * TGAS, code).unwrap_err()
    };
    assert_eq!(refused(&owner, 150, 0, Some(vec![7])), ContractError::NotEnoughGas);
    assert_eq!(refused(&owner, 160, 155, Some(vec![7])), ContractError::Overflow);
    assert_eq!(refused(&owner, 200, 30, None), ContractError::MissingCode);
    assert_eq!(refused(&call("bob.near", 0), 200, 30, Some(vec![7])), ContractError::NotOwner);
}

#[test]
fn bought_st_near_can_be_sold_for_what_it_cost() {
    let mut pool = pool_with_stake();
    // three stNEAR are worth ten: a price that does not divide evenly
    pool.total_for_staking = 33_333_333_333_333_333_333_333_333;
    let shares = pool.deposit_and_stake(&call("bob.near", 7 * NEAR)).unwrap();
    let value = pool.get_account_staked_balance(&"bob.near".to_string()).unwrap();
    assert_eq!(shares, 2_100_000_000_000_000_000_000_000);
    assert!(value <= 7 * NEAR && 7 * NEAR - value < 5);
}

#[test]
fn calls_do_not_lower_the_price() {
    let mut pool = pool_with_liquidity();
    pool.total_for_staking = 33_333_333_333_333_333_333_333_333;
    let mut price = pool.get_st_near_price().unwrap();
    let mut check = |pool: &MetaPool| {
        let now = pool.get_st_near_price().unwrap();
        assert!(now >= price);
        price = now;
    };
    pool.deposit_and_stake(&call("bob.near", 7 * NEAR)).unwrap();
    check(&pool);
    pool.liquid_unstake(&call("alice.near", 0), 2 * NEAR, 0).unwrap();
    check(&pool);
    pool.deposit_and_stake(&call("dave.near", 3 * NEAR)).unwrap();
    check(&pool);
    pool.unstake_all(&call("bob.near", 0)).unwrap();
    check(&pool);
    pool.nslp_remove_liquidity(&call("carol.near", 0), 500 * NEAR).unwrap();
    check(&pool);
}

#[test]
fn the_named_price_is_paid() {
    let mut pool = pool_with_liquidity();
    pool.total_for_staking = 33_333_333_333_333_333_333_333_333;
    let named = pool.get_near_amount_sell_stnear(3 * NEAR).unwrap();
    let paid = pool.liquid_unstake(&call("alice.near", 0), 3 * NEAR, named).unwrap();
    assert_eq!(paid.near, named);
}

#[test]
fn near_in_the_contract_is_accounted_for() {
    let mut pool = pool_with_liquidity();
    let balanced = |pool: &MetaPool| {
        assert_eq!(
            pool.contract_account_balance,
            pool.total_available + pool.retrieved_for_unstake_claims + pool.epoch_stake_orders
        );
        assert_eq!(
            pool.total_for_staking + pool.epoch_unstake_orders,
            pool.total_actually_staked + pool.epoch_stake_orders
        );
    };
    balanced(&pool);
    pool.liquid_unstake(&call("alice.near", 0), 5 * NEAR, 0).unwrap();
    balanced(&pool);
    pool.deposit_and_stake(&call("dave.near", 2 * NEAR)).unwrap();
    balanced(&pool);
    pool.unstake(&call("dave.near", 0), NEAR).unwrap();
    balanced(&pool);
    pool.nslp_remove_liquidity(&call("carol.near", 0), 100 * NEAR).unwrap();
    balanced(&pool);
}
