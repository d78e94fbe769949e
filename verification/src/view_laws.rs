//! What is shown, in figures: prices by products instead of quotients, and each field
//! by the state that it comes from.

use vstd::prelude::*;

use crate::account::Account;
use crate::books::Books;
use crate::ids::has_suffix;
use crate::ledger::{lemma_quotient_nonnegative, Totals};
use crate::liquidity::SwapTerms;
use crate::metapool::MetaPool;
use crate::owner::{
    first_weight_refusal, listed_weight, none_if_empty, pool_shown, weight_refusal, weights_refusal,
};
use crate::price_laws::law_discount_falls_with_liquidity;
use crate::staking_pools::{ready_stake, unstaking_delay, StakingPoolArgItem, StakingPoolInfo};
use crate::types::{nslp_id, ContractError};
use crate::utils::{lemma_quotient, lemma_quotient_above, lemma_quotient_at_most};
use crate::views::{account_info, human_readable, nslp_part, saturating, window_end};

verus! {

/// What stNEAR is worth, and how much of it NEAR buys, both rounded down.
pub proof fn law_stake_price_in_figures(totals: Totals, x: nat)
    ensures
        ({
            let (t, n) = (totals.total_for_staking as int, totals.total_stake_shares as int);
            let value = totals.stake_value(x as int);
            let bought = totals.stake_shares_for(x as int);
            &&& n == 0 ==> value == 0 && bought == x
            &&& n > 0 ==> value * n <= x * t < value * n + n
            &&& n > 0 && t == 0 ==> bought == 0
            &&& n > 0 && t > 0 ==> bought * t <= n * x < bought * t + t
        }),
{
    let (t, n) = (totals.total_for_staking as int, totals.total_stake_shares as int);
    if n > 0 {
        lemma_quotient(x * t, n);
        assert(0 * t == 0) by (nonlinear_arith);
        assert(n * 0 == 0) by (nonlinear_arith);
        if t > 0 {
            lemma_quotient(n * x, t);
        }
    }
}

/// The liquidity pool is worth its NEAR and what its stNEAR is worth. What its shares are
/// worth, and how many of them NEAR buys, is rounded down.
pub proof fn law_pool_price_in_figures(totals: Totals, nslp: Account, st_near_value: int, x: nat)
    requires
        totals.total_stake_shares == 0 ==> st_near_value == 0,
        totals.total_stake_shares > 0 ==> st_near_value * totals.total_stake_shares
            <= nslp.stake_shares * totals.total_for_staking < st_near_value
            * totals.total_stake_shares + totals.total_stake_shares,
    ensures
        ({
            let pool_value = nslp.available + st_near_value;
            let n = nslp.nslp_shares as int;
            let value = totals.nslp_amount_for(x as int, nslp);
            let bought = totals.nslp_shares_for(x as int, nslp);
            &&& totals.nslp_value(nslp) == pool_value
            &&& n == 0 ==> value == 0 && bought == x
            &&& n > 0 ==> value * n <= x * pool_value < value * n + n
            &&& n > 0 && pool_value == 0 ==> bought == 0
            &&& n > 0 && pool_value > 0 ==> bought * pool_value <= n * x < bought * pool_value
                + pool_value
        }),
{
    law_stake_price_in_figures(totals, nslp.stake_shares as nat);
    let v = totals.stake_value(nslp.stake_shares as int);
    let s = totals.total_stake_shares as int;
    if s > 0 {
        assert(v == st_near_value) by (nonlinear_arith)
            requires
                s > 0,
                v * s <= nslp.stake_shares * totals.total_for_staking < v * s + s,
                st_near_value * s <= nslp.stake_shares * totals.total_for_staking < st_near_value
                    * s + s,
        ;
    }
    let pool_value = totals.nslp_value(nslp);
    let n = nslp.nslp_shares as int;
    if n > 0 {
        lemma_quotient(x * pool_value, n);
        assert(0 * pool_value == 0) by (nonlinear_arith);
        assert(n * 0 == 0) by (nonlinear_arith);
        if pool_value > 0 {
            lemma_quotient(n * x, pool_value);
        }
    }
}

/// The fee of a swap: the highest if nothing would be left in the liquidity pool, the
/// lowest from the target on, and on a straight line in between, rounded up.
pub proof fn law_discount_in_figures(terms: SwapTerms, available: nat, near_out: nat)
    ensures
        ({
            let left = available - near_out;
            let target = terms.liquidity_target as int;
            let range = terms.max_discount_basis_points - terms.min_discount_basis_points;
            let below = terms.max_discount_basis_points - terms.discount(
                available as int,
                near_out as int,
            );
            &&& left <= 0 ==> below == 0
            &&& left > 0 && left >= target ==> below == range
            &&& 0 < left < target ==> below * target <= range * left < below * target + target
        }),
{
    let left = available - near_out;
    if 0 < left < terms.liquidity_target {
        lemma_quotient(
            (terms.max_discount_basis_points - terms.min_discount_basis_points) * left,
            terms.liquidity_target as int,
        );
    }
}

/// The price that is named for stNEAR worth `value` is the value less exactly the
/// discount, rounded down, whatever the value is.
pub proof fn law_sale_price_in_figures(pool: MetaPool, value: nat, discount: int)
    requires
        ({
            let left = pool@.account(nslp_id()).available - value;
            let target = pool.nslp_liquidity_target as int;
            let range = pool.nslp_max_discount_basis_points - pool.nslp_min_discount_basis_points;
            let below = pool.nslp_max_discount_basis_points - discount;
            &&& left <= 0 ==> below == 0
            &&& left > 0 && left >= target ==> below == range
            &&& 0 < left < target ==> below * target <= range * left < below * target + target
        }),
    ensures
        ({
            let fee = value - pool.sale_price(value as int);
            fee * 10_000 <= discount * value < fee * 10_000 + 10_000
        }),
{
    let available = pool@.account(nslp_id()).available as nat;
    law_discount_in_figures(pool.terms(), available, value);
    let d = pool.terms().discount(available as int, value as int);
    let left = available - value;
    let target = pool.nslp_liquidity_target as int;
    let range = pool.nslp_max_discount_basis_points - pool.nslp_min_discount_basis_points;
    let below = pool.nslp_max_discount_basis_points - discount;
    let below2 = pool.nslp_max_discount_basis_points - d;
    if 0 < left < target {
        assert(below == below2) by (nonlinear_arith)
            requires
                target > 0,
                below * target <= range * left < below * target + target,
                below2 * target <= range * left < below2 * target + target,
        ;
    }
    lemma_quotient(discount * value, 10_000);
}

/// An account is shown with its own balances, and its stNEAR at the current price.
pub proof fn law_account_shown_in_figures(
    totals: Totals,
    account: Account,
    account_id: String,
    epoch_height: u64,
)
    ensures
        ({
            let (t, n) = (totals.total_for_staking as int, totals.total_stake_shares as int);
            match human_readable(totals, account, account_id, epoch_height) {
                Ok(shown) => {
                    &&& shown.account_id@ == account_id@
                    &&& shown.unstaked_balance == account.unstaked
                    &&& shown.can_withdraw == (epoch_height
                        >= account.unstaked_requested_unlock_epoch)
                    &&& n == 0 ==> shown.staked_balance == 0
                    &&& n > 0 ==> shown.staked_balance * n <= account.stake_shares * t
                        < shown.staked_balance * n + n
                },
                Err(e) => {
                    &&& e == ContractError::Overflow
                    &&& n > 0 && account.stake_shares * t > u128::MAX * n
                },
            }
        }),
{
    lemma_value_fits(totals, account.stake_shares as nat);
}

/// What stNEAR is worth fits, unless it is worth more than the largest amount.
proof fn lemma_value_fits(totals: Totals, x: nat)
    ensures
        ({
            let (t, n) = (totals.total_for_staking as int, totals.total_stake_shares as int);
            let value = totals.stake_value(x as int);
            &&& value >= 0
            &&& n == 0 ==> value == 0
            &&& n > 0 ==> value * n <= x * t < value * n + n
            &&& value > u128::MAX ==> n > 0 && x * t > u128::MAX * n
        }),
{
    let (t, n) = (totals.total_for_staking as int, totals.total_stake_shares as int);
    law_stake_price_in_figures(totals, x);
    assert(x * t >= 0) by (nonlinear_arith)
        requires
            x >= 0,
            t >= 0,
    ;
    if n > 0 {
        lemma_quotient_above(x * t, n, u128::MAX as int);
        lemma_quotient_nonnegative(x * t, n);
    }
}

/// Of an account, everything is shown: its own figures, its stNEAR at the current price,
/// what it owns in all, and its part of the liquidity pool.
pub proof fn law_account_info_in_figures(
    books: Books,
    account: Account,
    account_id: String,
    epoch_height: u64,
    st_near_value: int,
)
    requires
        account_info(books, account, account_id, epoch_height) is Ok,
        account.nslp_shares <= books.account(nslp_id()).nslp_shares,
        account.unstaked_requested_unlock_epoch <= epoch_height + u16::MAX,
        ({
            let t = books.totals;
            let held = books.account(nslp_id()).stake_shares;
            &&& t.total_stake_shares == 0 ==> st_near_value == 0
            &&& t.total_stake_shares > 0 ==> st_near_value * t.total_stake_shares <= held
                * t.total_for_staking < st_near_value * t.total_stake_shares + t.total_stake_shares
        }),
    ensures
        ({
            let info = account_info(books, account, account_id, epoch_height)->Ok_0;
            let (t, n) = (
                books.totals.total_for_staking as int,
                books.totals.total_stake_shares as int,
            );
            let nslp = books.account(nslp_id());
            let pool_value = nslp.available + st_near_value;
            let gained = info.valued_st_near + account.trip_accum_unstakes
                - account.trip_accum_stakes;
            let delta = account.staking_meter.delta_staked;
            &&& info.account_id@ == account_id@
            &&& info.available == account.available
            &&& info.st_near == account.stake_shares
            &&& n == 0 ==> info.valued_st_near == 0
            &&& n > 0 ==> info.valued_st_near * n <= account.stake_shares * t < info.valued_st_near
                * n + n
            &&& info.meta == account.realized_meta && info.realized_meta == account.realized_meta
            &&& info.unstaked == account.unstaked
            &&& info.unstaked_requested_unlock_epoch == account.unstaked_requested_unlock_epoch
            &&& info.can_withdraw == (epoch_height >= account.unstaked_requested_unlock_epoch)
            &&& info.can_withdraw ==> info.unstake_full_epochs_wait_left == 0
            &&& !info.can_withdraw ==> epoch_height + info.unstake_full_epochs_wait_left
                == account.unstaked_requested_unlock_epoch
            &&& info.total == account.available + info.valued_st_near + account.unstaked
            &&& info.trip_start == account.trip_start
            &&& info.trip_start_stnear == account.trip_start_stnear
            &&& delta == info.trip_accum_stakes - info.trip_accum_unstakes
            &&& info.trip_accum_stakes == 0 || info.trip_accum_unstakes == 0
            &&& gained >= 0 ==> info.trip_rewards == gained
            &&& gained < 0 ==> info.trip_rewards == 0
            &&& info.nslp_shares == account.nslp_shares
            &&& account.nslp_shares == 0 ==> info.nslp_share_value == 0 && info.nslp_share_bp == 0
            &&& account.nslp_shares > 0 ==> {
                &&& info.nslp_share_value * nslp.nslp_shares <= account.nslp_shares * pool_value
                    < info.nslp_share_value * nslp.nslp_shares + nslp.nslp_shares
                &&& info.nslp_share_bp * nslp.nslp_shares <= 10_000 * account.nslp_shares
                    < info.nslp_share_bp * nslp.nslp_shares + nslp.nslp_shares
            }
        }),
{
    lemma_value_fits(books.totals, account.stake_shares as nat);
    let nslp = books.account(nslp_id());
    law_pool_price_in_figures(books.totals, nslp, st_near_value, account.nslp_shares as nat);
    if account.nslp_shares > 0 {
        let x = 10_000 * account.nslp_shares;
        lemma_quotient(x, nslp.nslp_shares as int);
        lemma_quotient_at_most(x, nslp.nslp_shares as int, 10_000);
        lemma_quotient_nonnegative(x, nslp.nslp_shares as int);
        assert(nslp_part(books.totals, account, nslp) is Ok);
    }
}

/// The state is shown as it is, with the price of a whole stNEAR and of a whole share of
/// the liquidity pool, rounded down, and the fee for a swap of ten NEAR.
pub proof fn law_contract_state_in_figures(pool: MetaPool, epoch_height: u64, st_near_value: int)
    requires
        pool.wf(),
        pool.contract_state(epoch_height) is Ok,
        pool.accounts@.len() <= u64::MAX,
        ({
            let t = pool@.totals;
            let held = pool@.account(nslp_id()).stake_shares;
            &&& t.total_stake_shares == 0 ==> st_near_value == 0
            &&& t.total_stake_shares > 0 ==> st_near_value * t.total_stake_shares <= held
                * t.total_for_staking < st_near_value * t.total_stake_shares + t.total_stake_shares
        }),
    ensures
        ({
            let s = pool.contract_state(epoch_height)->Ok_0;
            let n = pool@.account(nslp_id());
            let one: int = 1_000_000_000_000_000_000_000_000;
            let pool_value = n.available + st_near_value;
            let left = n.available - 10 * one;
            let target = pool.nslp_liquidity_target as int;
            let range = pool.nslp_max_discount_basis_points - pool.nslp_min_discount_basis_points;
            let below = pool.nslp_max_discount_basis_points - s.nslp_current_discount_basis_points;
            &&& s.env_epoch_height == epoch_height
            &&& s.contract_account_balance == pool.contract_account_balance
            &&& s.total_available == pool.total_available
            &&& s.total_for_staking == pool.total_for_staking
            &&& s.total_actually_staked == pool.total_actually_staked
            &&& s.epoch_stake_orders == pool.epoch_stake_orders
            &&& s.epoch_unstake_orders == pool.epoch_unstake_orders
            &&& s.total_unstaked_and_waiting == pool.total_unstaked_and_waiting
            &&& s.accumulated_staked_rewards == pool.accumulated_staked_rewards
            &&& s.total_unstake_claims == pool.total_unstake_claims
            &&& s.retrieved_for_unstake_claims == pool.retrieved_for_unstake_claims
            &&& s.reserve_for_unstake_claims == pool.retrieved_for_unstake_claims
            &&& s.total_stake_shares == pool.total_stake_shares
            &&& pool.total_stake_shares == 0 ==> s.st_near_price == 0
            &&& pool.total_stake_shares > 0 ==> s.st_near_price * pool.total_stake_shares <= one
                * pool.total_for_staking < s.st_near_price * pool.total_stake_shares
                + pool.total_stake_shares
            &&& s.total_meta == pool.total_meta
            &&& s.accounts_count == pool.accounts@.len()
            &&& pool.staking_pools@.len() <= u16::MAX ==> s.staking_pools_count
                == pool.staking_pools@.len()
            &&& s.nslp_liquidity == n.available
            &&& s.nslp_stnear_balance == n.stake_shares
            &&& s.nslp_target == pool.nslp_liquidity_target
            &&& n.nslp_shares == 0 ==> s.nslp_share_price == 0
            &&& n.nslp_shares > 0 ==> s.nslp_share_price * n.nslp_shares <= one * pool_value
                < s.nslp_share_price * n.nslp_shares + n.nslp_shares
            &&& s.nslp_total_shares == n.nslp_shares
            &&& left <= 0 ==> below == 0
            &&& left > 0 && left >= target ==> below == range
            &&& 0 < left < target ==> below * target <= range * left < below * target + target
            &&& s.nslp_min_discount_basis_points == pool.nslp_min_discount_basis_points
            &&& s.nslp_max_discount_basis_points == pool.nslp_max_discount_basis_points
            &&& s.min_deposit_amount == pool.min_deposit_amount
            &&& s.est_meta_rewards_stakers == pool.est_meta_rewards_stakers
            &&& s.est_meta_rewards_lu == pool.est_meta_rewards_lu
            &&& s.est_meta_rewards_lp == pool.est_meta_rewards_lp
            &&& s.max_meta_rewards_stakers == pool.max_meta_rewards_stakers
            &&& s.max_meta_rewards_lu == pool.max_meta_rewards_lu
            &&& s.max_meta_rewards_lp == pool.max_meta_rewards_lp
        }),
{
    let one: nat = 1_000_000_000_000_000_000_000_000;
    let n = pool@.account(nslp_id());
    lemma_value_fits(pool@.totals, one);
    law_pool_price_in_figures(pool@.totals, n, st_near_value, one);
    law_discount_in_figures(pool.terms(), n.available as nat, 10 * one);
    law_discount_falls_with_liquidity(
        pool.terms(),
        n.available as nat,
        10 * one,
        n.available as nat,
        10 * one,
    );
}

/// A staking pool is shown as it is.
pub proof fn law_pool_shown_as_it_is(pools: Seq<StakingPoolInfo>, i: int)
    requires
        0 <= i < pools.len(),
        i <= u16::MAX,
    ensures
        ({
            let shown = pool_shown(pools, i);
            &&& shown.inx == i
            &&& shown.account_id == pools[i].account_id
            &&& shown.weight_basis_points == pools[i].weight_basis_points
            &&& shown.staked == pools[i].staked
            &&& shown.unstaked == pools[i].unstaked
            &&& shown.last_asked_rewards_epoch_height == pools[i].last_asked_rewards_epoch_height
            &&& shown.unstaked_requested_epoch_height == pools[i].unstk_req_epoch_height
            &&& shown.busy_lock == pools[i].busy_lock
        }),
{
}

/// Weights are accepted exactly if the list names the staking pools in their order, no
/// weight is half of the stake or more, no busy pool's weight changes, and the weights
/// add up to a whole.
pub proof fn law_weights_accepted(pools: Seq<StakingPoolInfo>, list: Seq<StakingPoolArgItem>)
    ensures
        weights_refusal(pools, list) is None <==> {
            &&& list.len() == pools.len()
            &&& forall|i: int|
                0 <= i < list.len() ==> {
                    &&& (#[trigger] list[i]).account_id@ == pools[i].account_id@
                    &&& list[i].weight_basis_points < 5_000
                    &&& pools[i].busy_lock ==> list[i].weight_basis_points
                        == pools[i].weight_basis_points
                }
            &&& listed_weight(list) == 10_000
        },
{
    if list.len() == pools.len() {
        lemma_refusals(pools, list, 0);
        if first_weight_refusal(pools, list, 0) is None {
            assert forall|i: int| 0 <= i < list.len() implies {
                &&& (#[trigger] list[i]).account_id@ == pools[i].account_id@
                &&& list[i].weight_basis_points < 5_000
                &&& pools[i].busy_lock ==> list[i].weight_basis_points
                    == pools[i].weight_basis_points
            } by {
                assert(weight_refusal(pools, list, i) is None);
            }
        } else {
            let i = choose|i: int|
                0 <= i < list.len() && #[trigger] weight_refusal(pools, list, i) is Some;
            assert(list[i] == list[i]);
        }
    }
}

proof fn lemma_refusals(pools: Seq<StakingPoolInfo>, list: Seq<StakingPoolArgItem>, from: int)
    requires
        0 <= from <= list.len(),
    ensures
        first_weight_refusal(pools, list, from) is None ==> forall|i: int|
            from <= i < list.len() ==> #[trigger] weight_refusal(pools, list, i) is None,
        first_weight_refusal(pools, list, from) is Some ==> exists|i: int|
            from <= i < list.len() && #[trigger] weight_refusal(pools, list, i) is Some,
    decreases list.len() - from,
{
    if from < list.len() {
        lemma_refusals(pools, list, from + 1);
        if weight_refusal(pools, list, from) is Some {
            assert(weight_refusal(pools, list, from) is Some);
        }
    }
}

/// Where weights are refused, the reason is the first that applies: another number of
/// staking pools; then, at the first place where something is wrong, another name, a
/// weight of half of the stake or more, or a changed weight of a busy pool; and last, that
/// the weights do not add up to a whole.
pub proof fn law_weights_refused(
    pools: Seq<StakingPoolInfo>,
    list: Seq<StakingPoolArgItem>,
    i: int,
)
    requires
        0 <= i < list.len() <= usize::MAX,
        forall|j: int|
            0 <= j < i ==> {
                &&& (#[trigger] list[j]).account_id@ == pools[j].account_id@
                &&& list[j].weight_basis_points < 5_000
                &&& pools[j].busy_lock ==> list[j].weight_basis_points
                    == pools[j].weight_basis_points
            },
    ensures
        ({
            let refusal = weights_refusal(pools, list);
            let named = list[i].account_id@ == pools[i].account_id@;
            let low = list[i].weight_basis_points < 5_000;
            let busy = pools[i].busy_lock && list[i].weight_basis_points
                != pools[i].weight_basis_points;
            &&& list.len() != pools.len() ==> refusal == Some(ContractError::PoolCountChanged)
            &&& list.len() == pools.len() && !named ==> refusal == Some(
                ContractError::PoolOrderChanged { inx: i as usize },
            )
            &&& list.len() == pools.len() && named && !low ==> refusal == Some(
                ContractError::WeightTooHigh { inx: i as usize },
            )
            &&& list.len() == pools.len() && named && low && busy ==> refusal == Some(
                ContractError::PoolBusy { inx: i as usize },
            )
            &&& list.len() == pools.len() && named && low && !busy && i == list.len() - 1
                && listed_weight(list) != 10_000 ==> refusal == Some(
                ContractError::WeightsNotComplete,
            )
        }),
{
    lemma_first_refusal(pools, list, 0, i);
}

/// Places at which nothing is wrong do not count.
proof fn lemma_first_refusal(
    pools: Seq<StakingPoolInfo>,
    list: Seq<StakingPoolArgItem>,
    from: int,
    i: int,
)
    requires
        0 <= from <= i < list.len(),
        forall|j: int|
            from <= j < i ==> {
                &&& (#[trigger] list[j]).account_id@ == pools[j].account_id@
                &&& list[j].weight_basis_points < 5_000
                &&& pools[j].busy_lock ==> list[j].weight_basis_points
                    == pools[j].weight_basis_points
            },
    ensures
        first_weight_refusal(pools, list, from) == first_weight_refusal(pools, list, i),
        weight_refusal(pools, list, i) is Some ==> first_weight_refusal(pools, list, i)
            == weight_refusal(pools, list, i),
        weight_refusal(pools, list, i) is None && i == list.len() - 1 ==> first_weight_refusal(
            pools,
            list,
            i,
        ) is None,
    decreases i - from,
{
    if from < i {
        assert(list[from].account_id@ == pools[from].account_id@);
        lemma_first_refusal(pools, list, from + 1, i);
    } else if i == list.len() - 1 {
        assert(first_weight_refusal(pools, list, i + 1) is None);
    }
}

/// The weights on a list add up one by one.
pub proof fn law_listed_weight_adds_up(list: Seq<StakingPoolArgItem>, item: StakingPoolArgItem)
    ensures
        listed_weight(Seq::empty()) == 0,
        listed_weight(list.push(item)) == listed_weight(list) + item.weight_basis_points,
{
    assert(list.push(item).drop_last() =~= list);
}

/// The stake that could be unstaked right away adds up pool by pool: of those that are
/// not busy and do not wait, for four epochs, after an earlier request.
pub proof fn law_ready_stake_adds_up(
    pools: Seq<StakingPoolInfo>,
    added: StakingPoolInfo,
    epoch_height: nat,
)
    ensures
        ready_stake(Seq::empty(), epoch_height as int) == 0,
        ({
            let waits = added.unstk_req_epoch_height <= epoch_height
                < added.unstk_req_epoch_height + 4;
            ready_stake(pools.push(added), epoch_height as int) == ready_stake(
                pools,
                epoch_height as int,
            ) + (if added.busy_lock || waits {
                0
            } else {
                added.staked as int
            })
        }),
{
    assert(pools.push(added).drop_last() =~= pools);
}

/// An amount is unlocked after four epochs exactly if more than that could be unstaked
/// right away, else after eight.
pub proof fn law_delay_is_four_or_eight(
    pools: Seq<StakingPoolInfo>,
    amount: nat,
    epoch_height: nat,
)
    ensures
        ready_stake(pools, epoch_height as int) > amount ==> unstaking_delay(
            pools,
            amount as int,
            epoch_height as int,
        ) == 4,
        ready_stake(pools, epoch_height as int) <= amount ==> unstaking_delay(
            pools,
            amount as int,
            epoch_height as int,
        ) == 8,
{
}

/// A text has a suffix exactly if it is some text followed by the suffix.
pub proof fn law_suffix_follows_a_text(id: Seq<char>, suffix: Seq<char>)
    ensures
        has_suffix(id, suffix) <==> exists|front: Seq<char>| id == #[trigger] (front + suffix),
{
    if has_suffix(id, suffix) {
        let front = id.subrange(0, id.len() - suffix.len());
        assert(front + suffix =~= id);
    }
    if exists|front: Seq<char>| id == #[trigger] (front + suffix) {
        let front = choose|front: Seq<char>| id == #[trigger] (front + suffix);
        assert(id.subrange(id.len() - suffix.len(), id.len() as int) =~= suffix);
    }
}

/// An empty text counts as none, any other as itself.
pub proof fn law_empty_text_is_none(text: String)
    ensures
        none_if_empty(text) is None <==> text@.len() == 0,
        none_if_empty(text) is Some ==> none_if_empty(text)->0@ == text@,
{
}

/// A window of a list ends after `limit` entries, or where the list ends.
pub proof fn law_window_ends_in_time(from_index: nat, limit: nat, len: nat)
    ensures
        ({
            let end = window_end(from_index as int, limit as int, len as int);
            &&& end <= from_index + limit && end <= len
            &&& end == from_index + limit || end == len
        }),
        from_index <= len ==> saturating(
            window_end(from_index as int, limit as int, len as int),
            from_index as int,
        ) <= limit,
        forall|a: int, b: int|
            #![trigger saturating(a, b)]
            saturating(a, b) >= 0 && (a >= b ==> saturating(a, b) == a - b) && (a < b ==> saturating(
                a,
                b,
            ) == 0),
{
}

} // verus!
