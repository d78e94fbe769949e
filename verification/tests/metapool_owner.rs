use metapool::metapool::MetaPool;
use metapool::staking_pools::StakingPoolArgItem;
use metapool::types::{Call, CallerKind, ContractError, ContractParamsJSON};

const NEAR: u128 = 1_000_000_000_000_000_000_000_000;

fn new_pool() -> MetaPool {
    match MetaPool::new(
        "owner.near".to_string(),
        "treasury.near".to_string(),
        "operator.near".to_string(),
        "token.near".to_string(),
    ) {
        Ok(pool) => pool,
        Err(e) => panic!("{:?}", e),
    }
}

fn call(who: &str, deposit: u128) -> Call {
    Call {
        predecessor: who.to_string(),
        caller: CallerKind::User,
        attached_deposit: deposit,
        epoch_height: 10,
    }
}

fn weights(list: &[(&str, u16)]) -> Vec<StakingPoolArgItem> {
    list.iter()
        .map(|(id, weight)| StakingPoolArgItem {
            account_id: id.to_string(),
            weight_basis_points: *weight,
        })
        .collect()
}

fn with_three_pools() -> MetaPool {
    let mut pool = new_pool();
    for id in ["a.poolv1.near", "b.poolv1.near", "c.testnet"] {
        assert_eq!(pool.add_staking_pool(&call("operator.near", 0), id.to_string()), Ok(()));
    }
    let list = weights(&[("a.poolv1.near", 4_000), ("b.poolv1.near", 3_500), ("c.testnet", 2_500)]);
    assert_eq!(pool.set_staking_pools(&call("operator.near", 1), list), Ok(()));
    pool
}

fn total_weight(pool: &MetaPool) -> u32 {
    pool.get_staking_pool_list().iter().map(|sp| sp.weight_basis_points as u32).sum()
}

#[test]
fn staking_pools_are_listed_in_order() {
    let pool = with_three_pools();
    let list = pool.get_staking_pool_list();
    assert_eq!(list.len(), 3);
    assert_eq!((list[1].inx, list[1].account_id.as_str()), (1, "b.poolv1.near"));
    assert_eq!(list[1].weight_basis_points, 3_500);
    assert!(!list[1].busy_lock);
    assert_eq!(total_weight(&pool), 10_000);
    let shown = pool.get_sp_info(2).unwrap();
    assert_eq!((shown.inx, shown.account_id.as_str()), (2, "c.testnet"));
    assert_eq!(pool.get_sp_info(3).unwrap_err(), ContractError::NoSuchPool);
}

#[test]
fn staking_pools_are_added_once() {
    let mut pool = with_three_pools();
    let operator = call("operator.near", 0);
    assert_eq!(
        pool.add_staking_pool(&operator, "b.poolv1.near".to_string()),
        Err(ContractError::AlreadyInList)
    );
    assert_eq!(
        pool.add_staking_pool(&operator, "b.near".to_string()),
        Err(ContractError::InvalidPoolAccount)
    );
    assert_eq!(
        pool.add_staking_pool(&call("bob.near", 0), "d.poolv1.near".to_string()),
        Err(ContractError::NotOperatorOrOwner)
    );
    assert_eq!(pool.add_staking_pool(&call("owner.near", 0), "d.poolv1.near".to_string()), Ok(()));
    assert_eq!(total_weight(&pool), 10_000);
}

#[test]
fn only_unused_staking_pools_are_removed() {
    let mut pool = with_three_pools();
    let operator = call("operator.near", 0);
    assert_eq!(pool.remove_staking_pool(&operator, 0), Err(ContractError::PoolNotEmpty));
    assert_eq!(pool.remove_staking_pool(&operator, 3), Err(ContractError::NoSuchPool));
    assert_eq!(
        pool.remove_staking_pool(&call("bob.near", 0), 0),
        Err(ContractError::NotOperatorOrOwner)
    );
    pool.add_staking_pool(&operator, "d.poolv1.near".to_string()).unwrap();
    pool.add_staking_pool(&operator, "e.poolv1.near".to_string()).unwrap();
    pool.staking_pools[3].staked = 1;
    assert_eq!(pool.remove_staking_pool(&operator, 3), Err(ContractError::PoolNotEmpty));
    pool.staking_pools[3].staked = 0;
    assert_eq!(pool.remove_staking_pool(&operator, 3), Ok(()));
    assert_eq!(pool.get_sp_info(3).unwrap().account_id, "e.poolv1.near");
    assert_eq!(total_weight(&pool), 10_000);
}

#[test]
fn weights_are_checked() {
    let mut pool = with_three_pools();
    let operator = call("operator.near", 1);
    let (a, b, c) = ("a.poolv1.near", "b.poolv1.near", "c.testnet");
    assert_eq!(
        pool.set_staking_pools(&call("operator.near", 0), weights(&[(a, 1), (b, 1), (c, 1)])),
        Err(ContractError::OneYoctoRequired)
    );
    assert_eq!(
        pool.set_staking_pools(&call("bob.near", 1), weights(&[(a, 1), (b, 1), (c, 1)])),
        Err(ContractError::NotOperatorOrOwner)
    );
    assert_eq!(
        pool.set_staking_pools(&operator, weights(&[(a, 4_000), (b, 4_000)])),
        Err(ContractError::PoolCountChanged)
    );
    assert_eq!(
        pool.set_staking_pools(&operator, weights(&[(a, 4_000), (c, 3_500), (b, 2_500)])),
        Err(ContractError::PoolOrderChanged { inx: 1 })
    );
    assert_eq!(
        pool.set_staking_pools(&operator, weights(&[(a, 5_000), (b, 2_500), (c, 2_500)])),
        Err(ContractError::WeightTooHigh { inx: 0 })
    );
    assert_eq!(
        pool.set_staking_pools(&operator, weights(&[(a, 4_000), (b, 3_500), (c, 2_499)])),
        Err(ContractError::WeightsNotComplete)
    );
    pool.staking_pools[2].busy_lock = true;
    assert_eq!(
        pool.set_staking_pools(&operator, weights(&[(a, 4_000), (b, 3_000), (c, 3_000)])),
        Err(ContractError::PoolBusy { inx: 2 })
    );
    // a busy pool may keep its weight
    assert_eq!(
        pool.set_staking_pools(&operator, weights(&[(a, 3_500), (b, 4_000), (c, 2_500)])),
        Ok(())
    );
    assert_eq!(pool.staking_pools[1].weight_basis_points, 4_000);
    assert_eq!(total_weight(&pool), 10_000);
}

#[test]
fn the_delay_depends_on_ready_stake() {
    let mut pool = with_three_pools();
    pool.staking_pools[0].staked = 100;
    pool.staking_pools[1].staked = 50;
    pool.staking_pools[1].unstk_req_epoch_height = 8;
    assert_eq!(pool.compute_current_unstaking_delay(99, 10), 4);
    // the second pool waits until epoch twelve
    assert_eq!(pool.compute_current_unstaking_delay(100, 10), 8);
    assert_eq!(pool.compute_current_unstaking_delay(100, 12), 4);
    assert_eq!(pool.compute_current_unstaking_delay(150, 12), 8);
    pool.staking_pools[0].busy_lock = true;
    assert_eq!(pool.compute_current_unstaking_delay(99, 12), 8);
}

#[test]
fn staking_is_paused_and_resumed() {
    let mut pool = new_pool();
    let operator = call("operator.near", 0);
    assert_eq!(pool.un_pause_staking(&operator), Err(ContractError::NotPaused));
    assert_eq!(pool.pause_staking(&call("bob.near", 0)), Err(ContractError::NotOperatorOrOwner));
    assert_eq!(pool.pause_staking(&operator), Ok(()));
    assert!(pool.is_staking_paused());
    assert_eq!(pool.pause_staking(&operator), Err(ContractError::AlreadyPaused));
    assert_eq!(pool.un_pause_staking(&call("owner.near", 0)), Ok(()));
    assert!(!pool.is_staking_paused());
}

#[test]
fn roles_are_given_to_valid_and_different_accounts() {
    let mut pool = new_pool();
    let owner = call("owner.near", 0);
    assert_eq!(
        pool.set_operator_account_id(&owner, "..NSLP..".to_string()),
        Err(ContractError::InvalidAccountId)
    );
    assert_eq!(
        pool.set_operator_account_id(&owner, "treasury.near".to_string()),
        Err(ContractError::KeyAccountsNotDifferent)
    );
    assert_eq!(
        pool.set_operator_account_id(&call("operator.near", 0), "new.near".to_string()),
        Err(ContractError::NotOwner)
    );
    assert_eq!(pool.get_operator_account_id(), "operator.near");
    assert_eq!(pool.set_operator_account_id(&owner, "op2.near".to_string()), Ok(()));
    assert_eq!(pool.get_operator_account_id(), "op2.near");
    assert_eq!(
        pool.set_treasury_account_id(&owner, "developers.near".to_string()),
        Err(ContractError::KeyAccountsNotDifferent)
    );
    assert_eq!(
        pool.set_treasury_account_id(&owner, "A".to_string()),
        Err(ContractError::InvalidAccountId)
    );
    assert_eq!(pool.set_treasury_account_id(&owner, "tr2.near".to_string()), Ok(()));
    assert_eq!(pool.get_treasury_account_id(), "tr2.near");
    assert_eq!(
        pool.set_owner_id(&owner, "tr2.near".to_string()),
        Err(ContractError::KeyAccountsNotDifferent)
    );
    assert_eq!(
        pool.set_owner_id(&owner, "a..b".to_string()),
        Err(ContractError::InvalidAccountId)
    );
    assert_eq!(pool.set_owner_id(&owner, "dao.near".to_string()), Ok(()));
    assert_eq!(pool.get_owner_id(), "dao.near");
    assert_eq!(
        pool.set_owner_id(&owner, "owner.near".to_string()),
        Err(ContractError::NotOwner)
    );
}

#[test]
fn the_contract_tells_about_itself() {
    let mut pool = new_pool();
    let info = pool.get_contract_info();
    assert_eq!(info.dataVersion, 1);
    assert_eq!((info.name.as_str(), info.version.as_str()), ("Metapool", "2.0.0"));
    assert_eq!(info.source, "https://github.com/Narwallets/meta-pool");
    assert_eq!(info.standards, vec!["NEP-141", "NEP-145", "SP"]);
    assert_eq!(info.webAppUrl.as_deref(), Some("https://metapool.app"));
    assert_eq!(info.developersAccountId, "developers.near");
    assert_eq!(info.auditorAccountId.as_deref(), Some("auditors.near"));
    assert_eq!(
        pool.set_contract_info(&call("bob.near", 0), "x".to_string(), "y".to_string()),
        Err(ContractError::NotOwner)
    );
    assert_eq!(
        pool.set_contract_info(&call("owner.near", 0), "".to_string(), "y.near".to_string()),
        Ok(())
    );
    let info = pool.get_contract_info();
    assert_eq!(info.webAppUrl, None);
    assert_eq!(info.auditorAccountId.as_deref(), Some("y.near"));
}

#[test]
fn the_contract_state_is_shown() {
    let mut pool = with_three_pools();
    pool.deposit_and_stake(&call("alice.near", 10 * NEAR)).unwrap();
    pool.nslp_add_liquidity(&call("carol.near", 1_000 * NEAR)).unwrap();
    pool.total_for_staking = 15 * NEAR;
    let state = pool.get_contract_state(33).unwrap();
    assert_eq!(state.env_epoch_height, 33);
    assert_eq!(state.contract_account_balance, 1_010 * NEAR);
    assert_eq!(state.total_available, 1_000 * NEAR);
    assert_eq!(state.st_near_price, 3 * NEAR / 2);
    assert_eq!(state.nslp_share_price, NEAR);
    assert_eq!(state.nslp_liquidity, 1_000 * NEAR);
    assert_eq!(state.nslp_current_discount_basis_points, 165);
    assert_eq!((state.accounts_count, state.staking_pools_count), (3, 3));
    assert_eq!(state.reserve_for_unstake_claims, state.retrieved_for_unstake_claims);
    assert_eq!(pool.get_known_deposited_balance(), 0);
    pool.total_stake_shares = 1;
    pool.total_for_staking = u128::MAX;
    assert_eq!(pool.get_contract_state(33).unwrap_err(), ContractError::Overflow);
}

#[test]
fn parameters_are_set_and_shown() {
    let mut pool = new_pool();
    let operator = call("operator.near", 0);
    let before = pool.get_contract_params();
    let params = ContractParamsJSON {
        nslp_liquidity_target: 7,
        nslp_max_discount_basis_points: 300,
        nslp_min_discount_basis_points: 10,
        staker_meta_mult_pct: 1,
        stnear_sell_meta_mult_pct: 2,
        lp_provider_meta_mult_pct: 3,
        operator_rewards_fee_basis_points: 4,
        operator_swap_cut_basis_points: 5,
        treasury_swap_cut_basis_points: 6,
        min_deposit_amount: 8,
    };
    assert_eq!(
        pool.set_contract_params(&call("bob.near", 0), params),
        Err(ContractError::NotOperatorOrOwner)
    );
    let flat = ContractParamsJSON { nslp_min_discount_basis_points: 300, ..params };
    assert_eq!(pool.set_contract_params(&operator, flat), Err(ContractError::DiscountRange));
    assert_eq!(pool.get_contract_params(), before);
    assert_eq!(pool.set_contract_params(&operator, params), Ok(()));
    assert_eq!(pool.get_contract_params(), params);
    assert_eq!(pool.set_contract_params(&operator, before), Ok(()));
    assert_eq!(pool.get_contract_params(), before);
}

#[test]
fn reward_multipliers_and_limits_are_set() {
    let mut pool = new_pool();
    let operator = call("operator.near", 0);
    assert_eq!(pool.set_reward_multipliers(&operator, 11, 22, 33), Ok(()));
    let params = pool.get_contract_params();
    assert_eq!(
        (
            params.staker_meta_mult_pct,
            params.lp_provider_meta_mult_pct,
            params.stnear_sell_meta_mult_pct
        ),
        (11, 22, 33)
    );
    assert_eq!(pool.set_max_meta_rewards(&operator, 1, 2, u32::MAX), Ok(()));
    assert_eq!(pool.max_meta_rewards_stakers, NEAR);
    assert_eq!(pool.max_meta_rewards_lu, 2 * NEAR);
    assert_eq!(pool.max_meta_rewards_lp, u32::MAX as u128 * NEAR);
    let refused = Err(ContractError::NotOperatorOrOwner);
    assert_eq!(pool.set_reward_multipliers(&call("bob.near", 0), 1, 1, 1), refused);
    assert_eq!(pool.set_max_meta_rewards(&call("bob.near", 0), 1, 1, 1), refused);
}

#[test]
fn the_reward_fee_is_at_most_a_tenth() {
    let mut pool = new_pool();
    let owner = call("owner.near", 1);
    assert_eq!(pool.get_reward_fee_bp(), Ok(40));
    let fraction = pool.get_reward_fee_fraction().unwrap();
    assert_eq!((fraction.numerator, fraction.denominator), (40, 10_000));
    assert_eq!(pool.set_reward_fee(&owner, 1_001), Err(ContractError::RewardFeeTooHigh));
    assert_eq!(
        pool.set_reward_fee(&call("owner.near", 0), 500),
        Err(ContractError::OneYoctoRequired)
    );
    assert_eq!(pool.set_reward_fee(&call("operator.near", 1), 500), Err(ContractError::NotOwner));
    assert_eq!(pool.set_reward_fee(&owner, 1_000), Ok(()));
    assert_eq!(pool.get_reward_fee_bp(), Ok(1_000));
    // the developers' part stays
    assert_eq!(pool.set_reward_fee(&owner, 5), Ok(()));
    assert_eq!(pool.get_reward_fee_bp(), Ok(20));
    pool.operator_rewards_fee_basis_points = u16::MAX;
    assert_eq!(pool.get_reward_fee_bp(), Err(ContractError::Overflow));
    assert_eq!(pool.get_reward_fee_fraction(), Err(ContractError::Overflow));
}

#[test]
fn a_full_access_key_needs_an_empty_contract() {
    let mut pool = new_pool();
    let owner = call("owner.near", 0);
    assert_eq!(pool.add_full_access_key(&owner, "key".to_string()), Ok("key".to_string()));
    assert_eq!(
        pool.add_full_access_key(&call("operator.near", 0), "key".to_string()),
        Err(ContractError::NotOwner)
    );
    pool.deposit_and_stake(&call("alice.near", 10 * NEAR)).unwrap();
    assert_eq!(
        pool.add_full_access_key(&owner, "key".to_string()),
        Err(ContractError::ContractHasAccounts)
    );
}

#[test]
fn what_waits_is_the_sum_over_the_staking_pools() {
    let mut pool = with_three_pools();
    let operator = call("operator.near", 0);
    pool.staking_pools[0].unstaked = 30;
    pool.staking_pools[2].unstaked = 12;
    pool.total_unstaked_and_waiting = 42;
    let waiting = |pool: &MetaPool| -> u128 {
        pool.get_staking_pool_list().iter().map(|sp| sp.unstaked).sum()
    };
    pool.add_staking_pool(&operator, "d.poolv1.near".to_string()).unwrap();
    assert_eq!(waiting(&pool), pool.total_unstaked_and_waiting);
    pool.remove_staking_pool(&operator, 3).unwrap();
    assert_eq!(waiting(&pool), pool.total_unstaked_and_waiting);
    let list = weights(&[("a.poolv1.near", 3_000), ("b.poolv1.near", 4_000), ("c.testnet", 3_000)]);
    pool.set_staking_pools(&call("operator.near", 1), list).unwrap();
    assert_eq!(waiting(&pool), pool.total_unstaked_and_waiting);
}
