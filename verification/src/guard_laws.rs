//! Who may do what, and that a call which is refused, or which does one thing, does
//! nothing else.

use vstd::prelude::*;

use crate::account_map::{filed, on_file, position, withdrawn};
use crate::books::Books;
use crate::epoch_contract::TestContract;
use crate::ids::{valid_account_bytes, valid_account_id};
use crate::metapool::{self, key_accounts_differ, MetaPool};
use crate::owner::{applies, is_pool_account, listed, reweighted};
use crate::stake::{PoolBooks, PoolCall};
use crate::staking_contract::{self, human_readable, restake, StakingContract};
use crate::staking_pools::{StakingPoolArgItem, StakingPoolInfo};
use crate::types::{developers_id, Call, ContractError, ContractParamsJSON};
use crate::upgrade::{enough_gas, gas_for_migration, UpgradePlan};
use crate::users::{from_lockup_contract, not_from_lockup_account, one_yocto, silent, unless};
use crate::view_laws::law_suffix_follows_a_text;

verus! {

/// A call is accepted exactly if nothing comes before it that refuses it; the first reason
/// is the one that is given.
pub proof fn law_first_refusal_counts<T>(
    first: Result<(), ContractError>,
    outcome: Result<T, ContractError>,
)
    ensures
        unless(first, outcome) is Ok <==> first is Ok && outcome is Ok,
        first is Ok && outcome is Ok ==> unless(first, outcome)->Ok_0 == outcome->Ok_0,
        first is Err ==> unless(first, outcome)->Err_0 == first->Err_0,
        first is Ok && outcome is Err ==> unless(first, outcome)->Err_0 == outcome->Err_0,
{
}

/// Dropping the answer of a call changes nothing else about it.
pub proof fn law_dropped_answer_keeps_outcome<T>(outcome: Result<(Books, T), ContractError>)
    ensures
        silent(outcome) is Ok <==> outcome is Ok,
        outcome is Ok ==> silent(outcome)->Ok_0.0 == outcome->Ok_0.0,
        outcome is Err ==> silent(outcome)->Err_0 == outcome->Err_0,
{
}

/// The owner's calls are those that come from the account of the owner; the operator's
/// those that come from the account of the operator or of the owner.
pub proof fn law_roles_are_held_by_accounts(pool: MetaPool, call: &Call)
    ensures
        pool.owner_only(call) is Ok <==> call.predecessor@ == pool.owner_account_id@,
        pool.owner_only(call) is Err ==> pool.owner_only(call)->Err_0 == ContractError::NotOwner,
        pool.operator_or_owner_only(call) is Ok <==> call.predecessor@ == pool.owner_account_id@
            || call.predecessor@ == pool.operator_account_id@,
        pool.operator_or_owner_only(call) is Err ==> pool.operator_or_owner_only(call)->Err_0
            == ContractError::NotOperatorOrOwner,
{
}

/// Swaps and removals of liquidity wait until the contract is neither busy nor paused;
/// being busy is told first.
pub proof fn law_idle_is_neither_busy_nor_paused(pool: MetaPool)
    ensures
        pool.idle() is Ok <==> !pool.contract_busy && !pool.staking_paused,
        pool.contract_busy ==> pool.idle()->Err_0 == ContractError::Busy,
        !pool.contract_busy && pool.staking_paused ==> pool.idle()->Err_0 == ContractError::Paused,
{
}

/// Accounts whose tokens are locked up are refused where users call, and only the contract
/// that acts for them is accepted where it calls. One yocto means exactly one.
pub proof fn law_callers_are_told_apart(call: &Call)
    ensures
        not_from_lockup_account(call) is Ok <==> !(call.caller is LockupAccount),
        not_from_lockup_account(call) is Err ==> not_from_lockup_account(call)->Err_0
            == ContractError::LockupAccountCalling,
        from_lockup_contract(call) is Ok <==> call.caller is LockupContract,
        from_lockup_contract(call) is Err ==> from_lockup_contract(call)->Err_0
            == ContractError::NotLockupContract,
        one_yocto(call) is Ok <==> call.attached_deposit == 1,
        one_yocto(call) is Err ==> one_yocto(call)->Err_0 == ContractError::OneYoctoRequired,
{
}

/// A user's call that is refused changes nothing; one that is accepted leaves the books
/// that its outcome names, and every setting, role and staking pool as it was.
pub proof fn law_users_change_only_books<T>(
    before: MetaPool,
    after: MetaPool,
    answer: Result<T, ContractError>,
    outcome: Result<(Books, T), ContractError>,
)
    requires
        metapool::settles(before, after, answer, outcome),
    ensures
        answer is Ok <==> outcome is Ok,
        outcome is Err ==> after == before && answer->Err_0 == outcome->Err_0,
        outcome is Ok ==> {
            let books = outcome->Ok_0.0;
            &&& answer->Ok_0 == outcome->Ok_0.1
            &&& after.accounts@ == books.accounts
            &&& after.contract_account_balance == books.totals.contract_account_balance
            &&& after.retrieved_for_unstake_claims == books.totals.retrieved_for_unstake_claims
            &&& after.total_available == books.totals.total_available
            &&& after.epoch_stake_orders == books.totals.epoch_stake_orders
            &&& after.epoch_unstake_orders == books.totals.epoch_unstake_orders
            &&& after.total_for_staking == books.totals.total_for_staking
            &&& after.total_stake_shares == books.totals.total_stake_shares
            &&& after.total_unstake_claims == books.totals.total_unstake_claims
            &&& after.owner_account_id == before.owner_account_id
            &&& after.operator_account_id == before.operator_account_id
            &&& after.treasury_account_id == before.treasury_account_id
            &&& after.meta_token_account_id == before.meta_token_account_id
            &&& after.contract_busy == before.contract_busy
            &&& after.staking_paused == before.staking_paused
            &&& after.epoch_last_clearing == before.epoch_last_clearing
            &&& after.total_actually_staked == before.total_actually_staked
            &&& after.total_meta == before.total_meta
            &&& after.total_unstaked_and_waiting == before.total_unstaked_and_waiting
            &&& after.accumulated_staked_rewards == before.accumulated_staked_rewards
            &&& after.staking_pools == before.staking_pools
            &&& after.params() == before.params()
            &&& after.web_app_url == before.web_app_url
            &&& after.auditor_account_id == before.auditor_account_id
            &&& after.est_meta_rewards_stakers == before.est_meta_rewards_stakers
            &&& after.est_meta_rewards_lu == before.est_meta_rewards_lu
            &&& after.est_meta_rewards_lp == before.est_meta_rewards_lp
            &&& after.max_meta_rewards_stakers == before.max_meta_rewards_stakers
            &&& after.max_meta_rewards_lu == before.max_meta_rewards_lu
            &&& after.max_meta_rewards_lp == before.max_meta_rewards_lp
            &&& after.unstake_for_rebalance_cap_bp == before.unstake_for_rebalance_cap_bp
            &&& after.unstaked_for_rebalance == before.unstaked_for_rebalance
        },
{
}

/// A call of the owner or the operator that is refused changes nothing; one that is
/// accepted leaves the state that its outcome names.
pub proof fn law_settings_change_as_told(
    before: MetaPool,
    after: MetaPool,
    answer: Result<(), ContractError>,
    outcome: Result<MetaPool, ContractError>,
)
    requires
        applies(before, after, answer, outcome),
    ensures
        answer is Ok <==> outcome is Ok,
        outcome is Err ==> after == before && answer->Err_0 == outcome->Err_0,
        outcome is Ok ==> after == outcome->Ok_0,
{
}

/// Staking is paused, and resumed, by the operator or the owner, if it is not already;
/// nothing else changes.
pub proof fn law_pausing_sets_one_flag(pool: MetaPool, call: &Call)
    ensures
        ({
            let allowed = call.predecessor@ == pool.owner_account_id@ || call.predecessor@
                == pool.operator_account_id@;
            &&& pool.pausing(call) is Ok <==> allowed && !pool.staking_paused
            &&& pool.unpausing(call) is Ok <==> allowed && pool.staking_paused
            &&& pool.pausing(call) is Ok ==> pool.pausing(call)->Ok_0 == (MetaPool {
                staking_paused: true,
                ..pool
            })
            &&& pool.unpausing(call) is Ok ==> pool.unpausing(call)->Ok_0 == (MetaPool {
                staking_paused: false,
                ..pool
            })
            &&& allowed && pool.staking_paused ==> pool.pausing(call)->Err_0
                == ContractError::AlreadyPaused
            &&& allowed && !pool.staking_paused ==> pool.unpausing(call)->Err_0
                == ContractError::NotPaused
        }),
{
}

/// The accounts that hold a role differ exactly if, with the developers' account, no
/// account occurs twice among them.
pub proof fn law_key_accounts_occur_once(
    owner: Seq<char>,
    operator: Seq<char>,
    treasury: Seq<char>,
)
    ensures
        key_accounts_differ(owner, operator, treasury) <==> seq![
            owner,
            operator,
            treasury,
            developers_id(),
        ].no_duplicates(),
{
    let ids = seq![owner, operator, treasury, developers_id()];
    assert(ids[0] == owner && ids[1] == operator && ids[2] == treasury && ids[3]
        == developers_id());
}

/// A role is given exactly if the owner asks for it, the new account is one of the chain,
/// and all accounts that hold a role are different afterwards.
pub proof fn law_roles_are_given_by_the_owner(
    pool: MetaPool,
    call: &Call,
    id: Seq<char>,
    changed: MetaPool,
)
    ensures
        ({
            let differ = seq![
                changed.owner_account_id@,
                changed.operator_account_id@,
                changed.treasury_account_id@,
                developers_id(),
            ].no_duplicates();
            let by_owner = call.predecessor@ == pool.owner_account_id@;
            let outcome = pool.with_role(call, id, changed);
            &&& outcome is Ok <==> valid_account_id(id) && by_owner && differ
            &&& outcome is Ok ==> outcome->Ok_0 == changed
            &&& !valid_account_id(id) ==> outcome->Err_0 == ContractError::InvalidAccountId
            &&& valid_account_id(id) && !by_owner ==> outcome->Err_0 == ContractError::NotOwner
            &&& valid_account_id(id) && by_owner && !differ ==> outcome->Err_0
                == ContractError::KeyAccountsNotDifferent
        }),
{
    law_key_accounts_occur_once(
        changed.owner_account_id@,
        changed.operator_account_id@,
        changed.treasury_account_id@,
    );
}

/// Each parameter is shown, and set, under its own name, and setting parameters changes
/// nothing else.
pub proof fn law_params_go_by_name(pool: MetaPool, params: ContractParamsJSON)
    ensures
        ({
            let shown = pool.params();
            &&& shown.nslp_liquidity_target == pool.nslp_liquidity_target
            &&& shown.nslp_max_discount_basis_points == pool.nslp_max_discount_basis_points
            &&& shown.nslp_min_discount_basis_points == pool.nslp_min_discount_basis_points
            &&& shown.staker_meta_mult_pct == pool.staker_meta_mult_pct
            &&& shown.stnear_sell_meta_mult_pct == pool.stnear_sell_meta_mult_pct
            &&& shown.lp_provider_meta_mult_pct == pool.lp_provider_meta_mult_pct
            &&& shown.operator_rewards_fee_basis_points == pool.operator_rewards_fee_basis_points
            &&& shown.operator_swap_cut_basis_points == pool.operator_swap_cut_basis_points
            &&& shown.treasury_swap_cut_basis_points == pool.treasury_swap_cut_basis_points
            &&& shown.min_deposit_amount == pool.min_deposit_amount
        }),
        ({
            let after = pool.with_params(params);
            &&& after.params() == params
            &&& after@ == pool@
            &&& after.owner_account_id == pool.owner_account_id
            &&& after.operator_account_id == pool.operator_account_id
            &&& after.treasury_account_id == pool.treasury_account_id
            &&& after.staking_pools == pool.staking_pools
            &&& after.contract_busy == pool.contract_busy
            &&& after.staking_paused == pool.staking_paused
            &&& after.total_actually_staked == pool.total_actually_staked
            &&& after.total_unstaked_and_waiting == pool.total_unstaked_and_waiting
        }),
{
}

/// A staking pool is on the list exactly if an entry of the list bears its name. It may
/// leave the list exactly if it has no weight, holds nothing and no call to it is under
/// way. An account can be a staking pool if its name ends as those of staking pools do.
pub proof fn law_staking_pools_go_by_name(
    pools: Seq<StakingPoolInfo>,
    id: Seq<char>,
    pool: StakingPoolInfo,
)
    ensures
        listed(pools, id) <==> exists|i: int|
            0 <= i < pools.len() && (#[trigger] pools[i]).account_id@ == id,
        pool.unused() <==> pool.weight_basis_points == 0 && pool.staked == 0 && pool.unstaked == 0
            && !pool.busy_lock,
        is_pool_account(id) <==> (exists|front: Seq<char>|
            id == #[trigger] (front + ".poolv1.near"@)) || (exists|front: Seq<char>|
            id == #[trigger] (front + ".testnet"@)),
{
    law_suffix_follows_a_text(id, ".poolv1.near"@);
    law_suffix_follows_a_text(id, ".testnet"@);
}

/// New weights change the weight of each staking pool to the one on the list, and nothing
/// else about it.
pub proof fn law_weights_change_only_weights(
    pools: Seq<StakingPoolInfo>,
    list: Seq<StakingPoolArgItem>,
    i: int,
)
    requires
        0 <= i < pools.len(),
    ensures
        ({
            let (p, p2) = (pools[i], reweighted(pools, list)[i]);
            &&& reweighted(pools, list).len() == pools.len()
            &&& p2.weight_basis_points == list[i].weight_basis_points
            &&& p2.account_id == p.account_id
            &&& p2.staked == p.staked && p2.unstaked == p.unstaked
            &&& p2.last_asked_rewards_epoch_height == p.last_asked_rewards_epoch_height
            &&& p2.unstk_req_epoch_height == p.unstk_req_epoch_height
            &&& p2.busy_lock == p.busy_lock
        }),
{
}

/// An account identifier has two to sixty-four bytes, all lower-case letters, digits or
/// one of `-`, `_` and `.`, and between two of the latter stands a letter or a digit.
pub proof fn law_account_ids_have_a_shape(id: Seq<u8>)
    ensures
        valid_account_bytes(id) <==> {
            &&& 2 <= id.len() <= 64
            &&& forall|i: int|
                0 <= i < id.len() ==> {
                    ||| 0x61 <= #[trigger] id[i] <= 0x7a
                    ||| 0x30 <= id[i] <= 0x39
                    ||| (id[i] == 0x2d || id[i] == 0x5f || id[i] == 0x2e) && 0 < i < id.len() - 1
                }
            &&& forall|i: int|
                0 < i < id.len() && ((#[trigger] id[i]) == 0x2d || id[i] == 0x5f || id[i] == 0x2e)
                    ==> id[i - 1] != 0x2d && id[i - 1] != 0x5f && id[i - 1] != 0x2e
        },
{
}

/// An upgrade needs more than 150 TGas, leaves to the migration what is not used but for
/// 10 TGas, and deploys exactly the code before it calls for the migration. Where the gas
/// for the deployment is not known yet, no more may be used than there is.
pub proof fn law_upgrade_in_figures(
    contract: TestContract,
    plan: UpgradePlan,
    account_id: Seq<char>,
    code: Seq<u8>,
    prepaid_gas: u64,
    used_gas: u64,
    gas: u64,
)
    ensures
        enough_gas(prepaid_gas) is Ok <==> prepaid_gas > 150_000_000_000_000,
        enough_gas(prepaid_gas) is Err ==> enough_gas(prepaid_gas)->Err_0
            == ContractError::NotEnoughGas,
        match gas_for_migration(prepaid_gas, used_gas) {
            Ok(left) => left + used_gas + 10_000_000_000_000 == prepaid_gas,
            Err(e) => e == ContractError::Overflow && used_gas + 10_000_000_000_000 > prepaid_gas,
        },
        contract.upgrade_start(prepaid_gas, used_gas) is Ok <==> prepaid_gas > 150_000_000_000_000
            && used_gas <= prepaid_gas,
        prepaid_gas <= 150_000_000_000_000 ==> contract.upgrade_start(prepaid_gas, used_gas)->Err_0
            == ContractError::NotEnoughGas,
        150_000_000_000_000 < prepaid_gas < used_gas ==> contract.upgrade_start(
            prepaid_gas,
            used_gas,
        )->Err_0 == ContractError::Overflow,
        plan.deploys_and_migrates(account_id, code, gas) <==> plan.account_id@ == account_id
            && plan.code@ == code && plan.method_name@ == "migrate"@ && plan.arguments@.len() == 0
            && plan.deposit == 0 && plan.gas == gas,
{
    assert(plan.arguments@.len() == 0 ==> plan.arguments@ =~= Seq::<u8>::empty());
}

/// A delegator's call that is refused changes nothing; one that is accepted leaves the
/// books that its outcome names, and the owner, the key, the fee and the pause as they
/// were.
pub proof fn law_delegators_change_only_books<T>(
    before: StakingContract,
    after: StakingContract,
    answer: Result<T, ContractError>,
    outcome: Result<(PoolBooks, T), ContractError>,
)
    requires
        staking_contract::settles(before, after, answer, outcome),
    ensures
        answer is Ok <==> outcome is Ok,
        outcome is Err ==> after == before && answer->Err_0 == outcome->Err_0,
        outcome is Ok ==> {
            let books = outcome->Ok_0.0;
            &&& answer->Ok_0 == outcome->Ok_0.1
            &&& after.accounts@ == books.accounts
            &&& after.last_epoch_height == books.stake.last_epoch_height
            &&& after.last_total_balance == books.stake.last_total_balance
            &&& after.total_stake_shares == books.stake.total_stake_shares
            &&& after.total_staked_balance == books.stake.total_staked_balance
            &&& after.owner_id == before.owner_id
            &&& after.stake_public_key == before.stake_public_key
            &&& after.reward_fee_fraction == before.reward_fee_fraction
            &&& after.paused == before.paused
        },
{
}

/// Two states of a staking pool that differ at most in their books have the same owner,
/// key, fee and pause.
pub proof fn law_books_are_all_that_differs(before: StakingContract, after: StakingContract)
    ensures
        staking_contract::same_but_books(before, after) <==> after.owner_id == before.owner_id
            && after.stake_public_key == before.stake_public_key && after.reward_fee_fraction
            == before.reward_fee_fraction && after.paused == before.paused,
{
}

/// The owner's calls to a staking pool are those that come from its account; the whole
/// stake is to be staked, unless staking is paused.
pub proof fn law_owner_of_staking_pool(
    contract: StakingContract,
    call: &PoolCall,
    paused: bool,
    books: PoolBooks,
)
    ensures
        contract.owner_only(call) is Ok <==> call.predecessor@ == contract.owner_id@,
        contract.owner_only(call) is Err ==> contract.owner_only(call)->Err_0
            == ContractError::NotOwner,
        restake(paused, books) is None <==> paused,
        !paused ==> restake(paused, books)->0 == books.stake.total_staked_balance,
{
}

/// A delegator is shown with its own balances, and its shares at the current price.
pub proof fn law_delegator_shown_in_figures(
    contract: StakingContract,
    account_id: String,
    epoch_height: u64,
)
    ensures
        ({
            let account = contract@.account(account_id@);
            match human_readable(contract@.stake, account, account_id, epoch_height) {
                Ok(shown) => {
                    &&& shown.account_id@ == account_id@
                    &&& shown.unstaked_balance == account.unstaked
                    &&& contract@.stake.value_of(account.stake_shares) == Ok::<u128, ContractError>(
                        shown.staked_balance,
                    )
                    &&& shown.can_withdraw == (epoch_height
                        >= account.unstaked_available_epoch_height)
                },
                Err(e) => contract@.stake.value_of(account.stake_shares) == Err::<
                    u128,
                    ContractError,
                >(e),
            }
        }),
{
}

/// Filing a value keeps the order: it stands where one stood under its name, or at the
/// end, and every other entry stands where it stood.
pub proof fn law_filing_keeps_order<V>(entries: Seq<(Seq<char>, V)>, id: Seq<char>, value: V)
    requires
        forall|i: int, j: int|
            0 <= i < j < entries.len() ==> (#[trigger] entries[i]).0 != (#[trigger] entries[j]).0,
    ensures
        ({
            let after = filed(entries, id, value);
            &&& forall|i: int|
                0 <= i < entries.len() && (#[trigger] entries[i]).0 != id ==> after[i] == entries[i]
            &&& forall|i: int|
                0 <= i < entries.len() && (#[trigger] entries[i]).0 == id ==> after.len()
                    == entries.len() && after[i] == (id, value)
            &&& (forall|i: int| 0 <= i < entries.len() ==> (#[trigger] entries[i]).0 != id)
                ==> after.len() == entries.len() + 1 && after.last() == (id, value)
        }),
{
    if on_file(entries, id) {
        let p = position(entries, id);
        assert(0 <= p < entries.len() && entries[p].0 == id);
    }
}

/// Taking a value out moves the last entry into the gap, and every other entry stands
/// where it stood. Where nothing stands under the name, nothing changes.
pub proof fn law_taking_out_fills_the_gap<V>(entries: Seq<(Seq<char>, V)>, id: Seq<char>, i: int)
    requires
        forall|i: int, j: int|
            0 <= i < j < entries.len() ==> (#[trigger] entries[i]).0 != (#[trigger] entries[j]).0,
    ensures
        ({
            let after = withdrawn(entries, id);
            let n = entries.len() as int;
            &&& 0 <= i < n && entries[i].0 == id ==> {
                &&& after.len() == n - 1
                &&& i < n - 1 ==> after[i] == entries[n - 1]
                &&& forall|j: int| 0 <= j < n - 1 && j != i ==> #[trigger] after[j] == entries[j]
            }
            &&& (forall|j: int| 0 <= j < n ==> (#[trigger] entries[j]).0 != id) ==> after == entries
        }),
{
    if on_file(entries, id) {
        let p = position(entries, id);
        assert(0 <= p < entries.len() && entries[p].0 == id);
    }
}

} // verus!
