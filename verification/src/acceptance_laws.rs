//! When success is owed: calls with figures far from the limits of their types are
//! accepted whenever nothing that they need is missing, and refused with the reason
//! where something is.

use vstd::prelude::*;

use crate::account::Account;
use crate::books::Books;
use crate::ledger::{lemma_quotient_nonnegative, Totals};
use crate::metapool::MetaPool;
use crate::price_laws::law_discount_falls_with_liquidity;
use crate::reward_fee::lemma_fraction_at_most_all;
use crate::stake::{Account as Delegator, PoolCall, Stake};
use crate::types::{developers_id, nslp_id, ContractError, RewardFeeFraction, Transfer};
use crate::utils::{close, lemma_quotient, lemma_quotient_at_least, lemma_quotient_at_most};
use crate::view_laws::{law_pool_price_in_figures, law_stake_price_in_figures};
use crate::views::account_info;

verus! {

/// Whether an amount is far from the limits of its type: below two to the power of 120,
/// which is over a thousand times all the NEAR there is.
pub open spec fn modest(x: int) -> bool {
    0 <= x < 0x100_0000_0000_0000_0000_0000_0000_0000
}

/// Whether the figures of an account are far from the limits of their types.
pub open spec fn modest_account(a: Account) -> bool {
    &&& modest(a.available as int) && modest(a.stake_shares as int) && modest(a.unstaked as int)
    &&& modest(a.nslp_shares as int) && modest(a.trip_accum_stakes as int)
    &&& modest(a.trip_accum_unstakes as int)
    &&& modest(a.staking_meter.delta_staked as int) || modest(-a.staking_meter.delta_staked)
    &&& modest(a.lp_meter.delta_staked as int) || modest(-a.lp_meter.delta_staked)
}

/// Whether the totals are far from the limits of their types, and stNEAR is worth at
/// least as much as NEAR.
pub open spec fn modest_totals(t: Totals) -> bool {
    &&& modest(t.contract_account_balance as int)
    &&& modest(t.retrieved_for_unstake_claims as int)
    &&& modest(t.total_available as int)
    &&& modest(t.epoch_stake_orders as int)
    &&& modest(t.epoch_unstake_orders as int)
    &&& modest(t.total_for_staking as int)
    &&& modest(t.total_unstake_claims as int)
    &&& t.total_stake_shares <= t.total_for_staking
}

/// A part of a whole is at most the whole.
proof fn lemma_part(x: int, t: int, n: int)
    requires
        0 <= x <= n,
        0 < n,
        0 <= t,
    ensures
        0 <= x * t / n <= t,
{
    assert(0 <= x * t <= t * n) by (nonlinear_arith)
        requires
            0 <= x <= n,
            0 <= t,
    ;
    lemma_quotient_at_most(x * t, n, t);
    lemma_quotient_nonnegative(x * t, n);
}

/// At a price of at least one, an amount buys at most as many shares.
proof fn lemma_bought(n: int, x: int, t: int)
    requires
        0 <= n <= t,
        0 < t,
        0 <= x,
    ensures
        0 <= n * x / t <= x,
{
    assert(0 <= n * x <= x * t) by (nonlinear_arith)
        requires
            0 <= n <= t,
            0 <= x,
    ;
    lemma_quotient_at_most(n * x, t, x);
    lemma_quotient_nonnegative(n * x, t);
}

/// A quotient is at least one if the dividend is at least the divisor.
proof fn lemma_at_least_one(n: int, d: int)
    requires
        0 < d <= n,
    ensures
        n / d >= 1,
{
    assert(1 * d == d) by (nonlinear_arith);
    lemma_quotient_at_least(n, d, 1);
}

/// A deposit of at least the least amount that buys at least one yocto of stNEAR is
/// accepted; a smaller one is refused.
pub proof fn law_deposit_and_stake_is_accepted(
    books: Books,
    id: Seq<char>,
    amount: u128,
    min_deposit_amount: u128,
)
    requires
        modest_totals(books.totals),
        modest_account(books.account(id)),
        modest_account(books.account(nslp_id())),
        books.account(nslp_id()).stake_shares <= books.totals.total_stake_shares,
        books.account(id).available <= books.totals.total_available,
        modest(amount as int),
        amount > 0,
        books.totals.total_stake_shares > 0 ==> books.totals.total_stake_shares * amount
            >= books.totals.total_for_staking,
    ensures
        amount >= min_deposit_amount ==> books.deposit_and_stake(
            id,
            amount,
            min_deposit_amount,
        ) is Ok,
        amount < min_deposit_amount ==> books.deposit_and_stake(id, amount, min_deposit_amount)
            == Err::<(Books, u128), ContractError>(
            ContractError::BelowMinDeposit { min_deposit_amount },
        ),
{
    if amount >= min_deposit_amount {
        let a = books.account(id);
        let nslp = books.account(nslp_id());
        let (totals, account) = books.totals.deposited(a, amount as int)->Ok_0;
        let taken = Totals::amount_taken(account, amount as int);
        let (t, n) = (totals.total_for_staking as int, totals.total_stake_shares as int);
        if n > 0 {
            lemma_bought(n, taken, t);
            assert(n * taken >= n * amount) by (nonlinear_arith)
                requires
                    taken >= amount,
                    n > 0,
            ;
            lemma_at_least_one(n * taken, t);
        }
        assert(totals.staked(account, amount as int) is Ok);
        let s = totals.staked(account, amount as int)->Ok_0;
        let (t1, n1) = (s.totals.total_for_staking as int, s.totals.total_stake_shares as int);
        let held = nslp.stake_shares as int;
        if held > 0 {
            lemma_part(held, t1, n1);
            lemma_bought(n1, s.amount as int, t1);
            if s.amount < held * t1 / n1 {
                let b = n1 * s.amount / t1;
                lemma_quotient(held * t1, n1);
                lemma_quotient(n1 * s.amount, t1);
                let v = held * t1 / n1;
                assert(b <= held) by (nonlinear_arith)
                    requires
                        b * t1 <= n1 * s.amount,
                        v * n1 <= held * t1,
                        s.amount < v,
                        t1 > 0,
                        n1 > 0,
                ;
            }
        }
    }
}

/// Unstaking some of one's stNEAR is accepted; unstaking none, or more than one has, is
/// refused.
pub proof fn law_unstake_shares_is_accepted(
    pool: MetaPool,
    id: Seq<char>,
    shares: nat,
    epoch_height: u64,
)
    requires
        modest_totals(pool@.totals),
        modest_account(pool@.account(id)),
        pool@.account(id).stake_shares <= pool@.totals.total_stake_shares,
        shares <= pool@.totals.total_stake_shares,
        epoch_height + 8 <= u64::MAX,
    ensures
        0 < shares <= pool@.account(id).stake_shares ==> pool.unstaking_of_shares(
            id,
            shares as int,
            epoch_height,
        ) is Ok,
        shares == 0 ==> pool.unstaking_of_shares(id, shares as int, epoch_height) == Err::<
            (Books, (u128, u64)),
            ContractError,
        >(ContractError::NoShares),
        shares > pool@.account(id).stake_shares ==> pool.unstaking_of_shares(
            id,
            shares as int,
            epoch_height,
        ) == Err::<(Books, (u128, u64)), ContractError>(
            ContractError::NotEnoughStaked { staked: pool@.account(id).stake_shares },
        ),
{
    let (t, n) = (pool@.totals.total_for_staking as int, pool@.totals.total_stake_shares as int);
    if n > 0 {
        lemma_part(shares as int, t, n);
    }
}

/// Unstaking an amount is accepted if it is close to what one's stNEAR is worth, or if
/// one's stNEAR is worth it and it is worth at least one yocto of stNEAR. If it is
/// neither close nor covered, it is refused with what one's stNEAR is worth.
pub proof fn law_unstake_amount_is_accepted(
    pool: MetaPool,
    id: Seq<char>,
    amount: nat,
    epoch_height: u64,
    value: int,
)
    requires
        modest_totals(pool@.totals),
        modest_account(pool@.account(id)),
        0 < pool@.account(id).stake_shares <= pool@.totals.total_stake_shares,
        epoch_height + 8 <= u64::MAX,
        ({
            let (t, n) = (pool@.totals.total_for_staking, pool@.totals.total_stake_shares);
            value * n <= pool@.account(id).stake_shares * t < value * n + n
        }),
    ensures
        ({
            let (t, n) = (pool@.totals.total_for_staking, pool@.totals.total_stake_shares);
            let near_all = value - 1_000_000_000_000_000_000_000 < amount < value
                + 1_000_000_000_000_000_000_000;
            let outcome = pool.unstaking(id, amount as int, epoch_height);
            &&& near_all ==> outcome is Ok
            &&& !near_all && amount <= value && n * amount >= t ==> outcome is Ok
            &&& !near_all && amount > value ==> outcome == Err::<(Books, ()), ContractError>(
                ContractError::NotEnoughStaked { staked: value as u128 },
            )
        }),
{
    let (t, n) = (pool@.totals.total_for_staking as int, pool@.totals.total_stake_shares as int);
    let owned = pool@.account(id).stake_shares as int;
    lemma_part(owned, t, n);
    lemma_quotient(owned * t, n);
    let v = owned * t / n;
    assert(v == value) by (nonlinear_arith)
        requires
            n > 0,
            v * n <= owned * t < v * n + n,
            value * n <= owned * t < value * n + n,
    ;
    if !close(amount as int, value) && amount <= value && n * amount >= t {
        lemma_bought(n, amount as int, t);
        lemma_at_least_one(n * amount, t);
        lemma_quotient(n * amount, t);
        let b = n * amount / t;
        assert(b <= owned) by (nonlinear_arith)
            requires
                b * t <= n * amount,
                value * n <= owned * t,
                amount <= value,
                t > 0,
                n > 0,
        ;
    }
}

/// A withdrawal is accepted exactly if the epoch has come, the account has the amount
/// unstaked, and the contract holds it in reserve; else it is refused with the first of
/// these that is missing.
pub proof fn law_withdrawal_is_accepted(
    pool: MetaPool,
    account_id: String,
    amount: u128,
    epoch_height: u64,
)
    requires
        pool.total_unstake_claims >= pool@.account(account_id@).unstaked,
        pool.contract_account_balance >= pool.retrieved_for_unstake_claims,
    ensures
        ({
            let a = pool@.account(account_id@);
            let outcome: Result<(Books, Transfer), ContractError> = pool.withdrawal(
                account_id,
                amount,
                epoch_height,
            );
            &&& outcome is Ok <==> epoch_height >= a.unstaked_requested_unlock_epoch && amount
                <= a.unstaked && amount <= pool.retrieved_for_unstake_claims
            &&& epoch_height < a.unstaked_requested_unlock_epoch ==> outcome->Err_0
                == (ContractError::UnstakedNotAvailable {
                unlock_epoch: a.unstaked_requested_unlock_epoch,
            })
            &&& epoch_height >= a.unstaked_requested_unlock_epoch && amount > a.unstaked
                ==> outcome->Err_0 == (ContractError::NotEnoughUnstaked { unstaked: a.unstaked })
            &&& epoch_height >= a.unstaked_requested_unlock_epoch && amount <= a.unstaked && amount
                > pool.retrieved_for_unstake_claims ==> outcome->Err_0
                == ContractError::ClaimsNotRetrieved
        }),
{
}

/// A swap is accepted if the seller owns what it sells, gets at least what it expects,
/// the liquidity pool holds that, the fee is worth at least one yocto of stNEAR, and the
/// seller is none of the accounts that share the fee. Where one of these is missing, it
/// is refused with the first that is. `value` is what the stNEAR to sell is worth, `fee`
/// the discount on it.
pub proof fn law_swap_is_accepted(
    pool: MetaPool,
    id: Seq<char>,
    st_near_to_burn: u128,
    min_expected_near: u128,
    sold: int,
    value: int,
    fee: int,
)
    requires
        pool.wf(),
        modest_totals(pool@.totals),
        modest_account(pool@.account(id)),
        modest_account(pool@.account(nslp_id())),
        modest_account(pool@.account(pool.treasury_account_id@)),
        modest_account(pool@.account(pool.operator_account_id@)),
        modest_account(pool@.account(developers_id())),
        0 < pool@.account(id).stake_shares <= pool@.totals.total_stake_shares,
        pool@.account(id).available + pool@.account(nslp_id()).available
            <= pool@.totals.total_available <= pool@.totals.contract_account_balance,
        pool.treasury_swap_cut_basis_points + pool.operator_swap_cut_basis_points + 200 < 10_000,
        pool.nslp_max_discount_basis_points <= 10_000,
        ({
            let owned = pool@.account(id).stake_shares;
            let near_all = owned - 1_000_000_000_000_000_000_000 < st_near_to_burn < owned
                + 1_000_000_000_000_000_000_000;
            &&& near_all ==> sold == owned
            &&& !near_all ==> sold == st_near_to_burn
        }),
        value * pool.total_stake_shares <= sold * pool.total_for_staking < value
            * pool.total_stake_shares + pool.total_stake_shares,
        ({
            let discount = pool.terms().discount(
                pool@.account(nslp_id()).available as int,
                value,
            );
            fee * 10_000 <= discount * value < fee * 10_000 + 10_000
        }),
    ensures
        ({
            let (t, n) = (pool.total_for_staking, pool.total_stake_shares);
            let owned = pool@.account(id).stake_shares;
            let outcome = pool.liquid_unstaking(id, st_near_to_burn, min_expected_near);
            let near = value - fee;
            let covered = pool@.account(nslp_id()).available >= near;
            &&& sold <= owned && near >= min_expected_near && covered && n * fee >= t && id
                != pool.treasury_account_id@ && id != pool.operator_account_id@ && id
                != developers_id() ==> outcome is Ok
            &&& sold > owned ==> outcome is Err && outcome->Err_0
                == (ContractError::NotEnoughStNear { owned })
            &&& sold <= owned && near < min_expected_near ==> outcome is Err && outcome->Err_0 == (
            ContractError::PriceChanged { min_expected_near, near_to_receive: near as u128 })
            &&& sold <= owned && near >= min_expected_near && !covered ==> outcome is Err
                && outcome->Err_0 == ContractError::NotEnoughLiquidity
            &&& sold <= owned && near >= min_expected_near && covered ==> {
                &&& id == pool.treasury_account_id@ ==> outcome is Err && outcome->Err_0
                    == ContractError::TreasuryAccount
                &&& id != pool.treasury_account_id@ && id == pool.operator_account_id@
                    ==> outcome is Err && outcome->Err_0 == ContractError::OperatorAccount
                &&& id != pool.treasury_account_id@ && id != pool.operator_account_id@ && id
                    == developers_id() ==> outcome is Err && outcome->Err_0
                    == ContractError::DevelopersAccount
            }
        }),
{
    let (t, n) = (pool@.totals.total_for_staking as int, pool@.totals.total_stake_shares as int);
    let terms = pool.terms();
    let (user, nslp) = (pool@.account(id), pool@.account(nslp_id()));
    let owned = user.stake_shares as int;
    if sold <= owned {
        lemma_part(sold, t, n);
        lemma_quotient(sold * t, n);
        let v = sold * t / n;
        assert(v == value) by (nonlinear_arith)
            requires
                n > 0,
                v * n <= sold * t < v * n + n,
                value * n <= sold * t < value * n + n,
        ;
        assert(0 * t == 0) by (nonlinear_arith);
        vstd::arithmetic::div_mod::lemma_div_basics(n);
        assert(pool@.totals.stake_value(sold) == value);
        let discount = terms.discount(nslp.available as int, value);
        law_discount_falls_with_liquidity(
            terms,
            nslp.available as nat,
            value as nat,
            nslp.available as nat,
            value as nat,
        );
        lemma_quotient(discount * value, 10_000);
        assert(Totals::swap_fee(terms, nslp.available as int, value) == fee);
        assert(0 <= fee <= value) by (nonlinear_arith)
            requires
                0 <= discount <= 10_000,
                0 <= value,
                fee * 10_000 <= discount * value < fee * 10_000 + 10_000,
        ;
        lemma_bought(n, fee, t);
        if value - fee >= min_expected_near && nslp.available >= value - fee && n * fee >= t {
            lemma_at_least_one(n * fee, t);
            lemma_quotient(n * fee, t);
            let fee_shares = n * fee / t;
            let quote = pool@.totals.quoted(
                terms,
                user,
                nslp,
                st_near_to_burn as int,
                min_expected_near,
            )->Ok_0;
            let ct = terms.treasury_cut_basis_points as int;
            let co = terms.operator_cut_basis_points as int;
            let (q1, q2, q3) = (
                ct * fee_shares / 10_000,
                co * fee_shares / 10_000,
                200 * fee_shares / 10_000,
            );
            lemma_quotient(ct * fee_shares, 10_000);
            lemma_quotient(co * fee_shares, 10_000);
            lemma_quotient(200 * fee_shares, 10_000);
            assert(0 <= q1 && 0 <= q2 && q1 + q2 + q3 < fee_shares) by (nonlinear_arith)
                requires
                    0 <= ct,
                    0 <= co,
                    ct + co + 200 < 10_000,
                    fee_shares > 0,
                    q1 * 10_000 <= ct * fee_shares < q1 * 10_000 + 10_000,
                    q2 * 10_000 <= co * fee_shares < q2 * 10_000 + 10_000,
                    q3 * 10_000 <= 200 * fee_shares,
                    0 <= q3,
            ;
            assert(fee_shares <= sold) by (nonlinear_arith)
                requires
                    fee_shares * t <= n * fee,
                    value * n <= sold * t,
                    fee <= value,
                    t > 0,
                    n > 0,
            {
                assert(n * fee <= n * value) by (nonlinear_arith)
                    requires
                        fee <= value,
                        n > 0,
                ;
                assert(fee_shares * t <= sold * t);
            }
            lemma_part(q1, t, n);
            lemma_part(q2, t, n);
            lemma_part(q3, t, n);
            lemma_part(sold - (q1 + q2 + q3), t, n);
        }
    }
}

/// A deposit of at least the least amount that buys at least one share of the liquidity
/// pool is accepted; a smaller one is refused. `st_near_value` is what the stNEAR of the
/// liquidity pool is worth.
pub proof fn law_add_liquidity_is_accepted(
    books: Books,
    id: Seq<char>,
    amount: u128,
    min_deposit_amount: u128,
    st_near_value: int,
)
    requires
        modest_totals(books.totals),
        modest_account(books.account(id)),
        modest_account(books.account(nslp_id())),
        books.account(nslp_id()).stake_shares <= books.totals.total_stake_shares,
        books.account(id).available <= books.totals.total_available,
        books.account(id).nslp_shares <= books.account(nslp_id()).nslp_shares,
        modest(amount as int),
        amount > 0,
        ({
            let (t, n) = (books.totals, books.account(nslp_id()));
            let pool_value = n.available + st_near_value;
            &&& t.total_stake_shares == 0 ==> st_near_value == 0
            &&& t.total_stake_shares > 0 ==> st_near_value * t.total_stake_shares <= n.stake_shares
                * t.total_for_staking < st_near_value * t.total_stake_shares + t.total_stake_shares
            &&& n.nslp_shares <= pool_value
            &&& n.nslp_shares > 0 ==> n.nslp_shares * amount >= pool_value
        }),
    ensures
        amount >= min_deposit_amount ==> books.add_liquidity(id, amount, min_deposit_amount) is Ok,
        amount < min_deposit_amount ==> books.add_liquidity(id, amount, min_deposit_amount)
            == Err::<(Books, u16), ContractError>(
            ContractError::BelowMinDeposit { min_deposit_amount },
        ),
{
    if amount >= min_deposit_amount {
        let n = books.account(nslp_id());
        let (totals, account) = books.totals.deposited(books.account(id), amount as int)->Ok_0;
        let (rest_totals, rest, taken) = totals.taken(account, amount as int)->Ok_0;
        let (t, all) = (totals.total_for_staking as int, totals.total_stake_shares as int);
        if all > 0 {
            lemma_part(n.stake_shares as int, t, all);
        }
        law_pool_price_in_figures(totals, n, st_near_value, taken as nat);
        let pool_value = n.available + st_near_value;
        let shares = totals.nslp_shares_for(taken as int, n);
        if n.nslp_shares > 0 {
            lemma_bought(n.nslp_shares as int, taken as int, pool_value);
            assert(n.nslp_shares * taken >= n.nslp_shares * amount) by (nonlinear_arith)
                requires
                    taken >= amount,
                    n.nslp_shares > 0,
            ;
            lemma_at_least_one(n.nslp_shares * taken, pool_value);
        }
        let (x, d) = (10_000 * (rest.nslp_shares + shares), n.nslp_shares + shares);
        lemma_quotient_at_most(x, d, 10_000);
        lemma_quotient_nonnegative(x, d);
    }
}

/// A removal of liquidity is accepted if the account owns what it asks for, that is worth
/// at least one share, and the liquidity pool holds the NEAR that goes with it. Where one
/// of these is missing, it is refused with that. `owned` is what the shares of the account
/// are worth, `burned` the shares that go, `moved` the stNEAR that goes to the account, and
/// `moved_value` what that is worth.
pub proof fn law_remove_liquidity_is_accepted(
    pool: MetaPool,
    id: Seq<char>,
    amount: u128,
    st_near_value: int,
    owned: int,
    burned: int,
    moved: int,
    moved_value: int,
)
    requires
        modest_totals(pool@.totals),
        modest_account(pool@.account(id)),
        modest_account(pool@.account(nslp_id())),
        pool@.account(nslp_id()).stake_shares <= pool@.totals.total_stake_shares,
        pool@.account(id).available + pool@.account(nslp_id()).available
            <= pool@.totals.total_available <= pool@.totals.contract_account_balance,
        0 < pool@.account(id).nslp_shares <= pool@.account(nslp_id()).nslp_shares,
        modest(amount as int),
        ({
            let (t, n) = (pool@.totals, pool@.account(nslp_id()));
            let a = pool@.account(id);
            let pool_value = n.available + st_near_value;
            let near_all = owned - 1_000_000_000_000_000_000_000 < amount < owned
                + 1_000_000_000_000_000_000_000;
            &&& n.nslp_shares <= pool_value
            &&& t.total_stake_shares == 0 ==> st_near_value == 0 && moved_value == 0
            &&& t.total_stake_shares > 0 ==> st_near_value * t.total_stake_shares <= n.stake_shares
                * t.total_for_staking < st_near_value * t.total_stake_shares + t.total_stake_shares
            &&& t.total_stake_shares > 0 ==> moved_value * t.total_stake_shares <= moved
                * t.total_for_staking < moved_value * t.total_stake_shares + t.total_stake_shares
            &&& owned * n.nslp_shares <= a.nslp_shares * pool_value < owned * n.nslp_shares
                + n.nslp_shares
            &&& near_all ==> burned == a.nslp_shares
            &&& !near_all ==> burned * pool_value <= n.nslp_shares * amount < burned * pool_value
                + pool_value
            &&& moved * n.nslp_shares <= n.stake_shares * burned < moved * n.nslp_shares
                + n.nslp_shares
        }),
    ensures
        ({
            let n = pool@.account(nslp_id());
            let near_all = owned - 1_000_000_000_000_000_000_000 < amount < owned
                + 1_000_000_000_000_000_000_000;
            let near = if near_all {
                owned - moved_value
            } else {
                amount - moved_value
            };
            let outcome = pool.removing_liquidity(id, amount);
            &&& !near_all && owned < amount ==> outcome is Err && outcome->Err_0 == (
            ContractError::NotEnoughShareValue { value: owned as u128 })
            &&& (near_all || amount <= owned) && burned == 0 ==> outcome is Err && outcome->Err_0
                == ContractError::NoShares
            &&& (near_all || amount <= owned) && burned > 0 && near < 0 ==> outcome is Err
                && outcome->Err_0 == ContractError::LiquidityInconsistency
            &&& (near_all || amount <= owned) && burned > 0 && 0 <= near <= n.available
                ==> outcome is Ok
        }),
{
    let (totals, a, n) = (pool@.totals, pool@.account(id), pool@.account(nslp_id()));
    let (t, s) = (totals.total_for_staking as int, totals.total_stake_shares as int);
    let all = n.nslp_shares as int;
    if s > 0 {
        lemma_part(n.stake_shares as int, t, s);
    }
    law_pool_price_in_figures(totals, n, st_near_value, a.nslp_shares as nat);
    let pool_value = n.available + st_near_value;
    let worth = totals.nslp_amount_for(a.nslp_shares as int, n);
    lemma_same(a.nslp_shares * pool_value, all, owned, worth);
    lemma_part(a.nslp_shares as int, pool_value, all);
    assert(totals.removal(a, n, amount as int).1 == burned) by {
        if !close(amount as int, owned) {
            law_pool_price_in_figures(totals, n, st_near_value, amount as nat);
            lemma_same(all * amount, pool_value, burned, totals.nslp_shares_for(amount as int, n));
        }
    }
    if close(amount as int, owned) || amount <= owned {
        if !close(amount as int, owned) {
            lemma_bought(all, amount as int, pool_value);
            assert(burned <= a.nslp_shares) by (nonlinear_arith)
                requires
                    burned * pool_value <= all * amount,
                    owned * all <= a.nslp_shares * pool_value,
                    amount <= owned,
                    pool_value > 0,
                    all > 0,
            {
                assert(all * amount <= owned * all);
            }
            lemma_quotient(all * amount, pool_value);
            lemma_same(all * amount, pool_value, burned, all * amount / pool_value);
        }
        lemma_quotient(n.stake_shares * burned, all);
        lemma_same(n.stake_shares * burned, all, moved, n.stake_shares * burned / all);
        assert(n.stake_shares * burned == burned * n.stake_shares) by (nonlinear_arith);
        lemma_part(burned, n.stake_shares as int, all);
        law_stake_price_in_figures(totals, moved as nat);
        if s > 0 {
            lemma_same(moved * t, s, moved_value, totals.stake_value(moved));
            lemma_part(moved, t, s);
        }
        assert(totals.stake_value(moved) == moved_value);
    }
}

/// Two numbers between the bounds of one quotient are the same.
proof fn lemma_same(x: int, d: int, p: int, q: int)
    by (nonlinear_arith)
    requires
        d > 0,
        p * d <= x < p * d + d,
        q * d <= x < q * d + d,
    ensures
        p == q,
{
}

/// Staking out of the liquidity pool is accepted if more than its target is left and the
/// amount buys at least one yocto of stNEAR; without that it is refused.
pub proof fn law_stake_from_nslp_is_accepted(pool: MetaPool, amount: u128)
    requires
        modest_totals(pool@.totals),
        modest_account(pool@.account(nslp_id())),
        pool@.account(nslp_id()).available <= pool@.totals.total_available,
        amount > 0,
        pool.total_stake_shares > 0 ==> pool.total_stake_shares * amount >= pool.total_for_staking,
    ensures
        ({
            let available = pool@.account(nslp_id()).available;
            let outcome = pool.staking_from_nslp(amount);
            &&& available <= amount ==> outcome == Err::<(Books, ()), ContractError>(
                ContractError::AmountAboveLiquidity,
            )
            &&& available > amount && available - amount <= pool.nslp_liquidity_target ==> outcome
                == Err::<(Books, ()), ContractError>(ContractError::LiquidityBelowTarget)
            &&& available > amount && available - amount > pool.nslp_liquidity_target
                ==> outcome is Ok
        }),
{
    let n = pool@.account(nslp_id());
    if n.available > amount {
        let taken = Totals::amount_taken(n, amount as int);
        let (t, s) = (pool.total_for_staking as int, pool.total_stake_shares as int);
        if s > 0 {
            lemma_bought(s, taken, t);
            assert(s * taken >= s * amount) by (nonlinear_arith)
                requires
                    taken >= amount,
                    s > 0,
            ;
            lemma_at_least_one(s * taken, t);
        }
    }
}

/// Whether the figures of a staking pool are far from the limits of their types, and a
/// share is worth at least one.
pub open spec fn modest_stake(stake: Stake) -> bool {
    &&& modest(stake.last_total_balance as int)
    &&& modest(stake.total_staked_balance as int)
    &&& 0 < stake.total_stake_shares <= stake.total_staked_balance
}

/// Whether the figures of a delegator are far from the limits of their types.
pub open spec fn modest_delegator(account: Delegator) -> bool {
    modest(account.unstaked as int) && modest(account.stake_shares as int)
}

/// A deposit of a delegator is accepted.
pub proof fn law_delegator_deposit_is_accepted(stake: Stake, account: Delegator, amount: nat)
    requires
        modest_stake(stake),
        modest_delegator(account),
        modest(amount as int),
    ensures
        stake.deposited(account, amount as int) is Ok,
{
}

/// A delegator can stake what it has unstaked, if that is worth at least one share.
/// Nothing cannot be staked. Where what the shares cost, `cost`, is not there, that is the
/// reason of the refusal.
pub proof fn law_delegator_stake_is_accepted(
    stake: Stake,
    account: Delegator,
    amount: nat,
    shares: int,
    cost: int,
)
    requires
        modest_stake(stake),
        modest_delegator(account),
        modest(amount as int),
        ({
            let (t, n) = (stake.total_staked_balance as int, stake.total_stake_shares as int);
            &&& shares * t <= n * amount < shares * t + t
            &&& cost * n <= t * shares < cost * n + n
        }),
    ensures
        ({
            let outcome = stake.staked(account, amount as int);
            &&& amount == 0 ==> outcome == Err::<(Stake, Delegator), ContractError>(
                ContractError::AmountNotPositive,
            )
            &&& amount > 0 && shares == 0 ==> outcome == Err::<(Stake, Delegator), ContractError>(
                ContractError::NoShares,
            )
            &&& shares > 0 && account.unstaked < cost ==> outcome == Err::<
                (Stake, Delegator),
                ContractError,
            >(ContractError::NotEnoughUnstaked { unstaked: account.unstaked })
            &&& shares > 0 && account.unstaked >= cost ==> outcome is Ok
            &&& cost <= amount
        }),
{
    let (t, n) = (stake.total_staked_balance as int, stake.total_stake_shares as int);
    lemma_quotient(n * amount, t);
    lemma_same(n * amount, t, shares, n * amount / t);
    lemma_bought(n, amount as int, t);
    lemma_quotient(t * shares, n);
    lemma_same(t * shares, n, cost, t * shares / n);
    assert(t * shares <= amount * n) by (nonlinear_arith)
        requires
            shares * t <= n * amount,
    ;
    lemma_quotient_at_most(t * shares, n, amount as int);
    assert(t * shares >= shares * n && t * shares >= 0) by (nonlinear_arith)
        requires
            t >= n,
            n > 0,
            shares >= 0,
    ;
    lemma_quotient_at_least(t * shares, n, shares);
    assert(t * shares + n - 1 <= (amount + 1) * n) by (nonlinear_arith)
        requires
            t * shares <= amount * n,
    ;
    lemma_quotient_at_most(t * shares + n - 1, n, (amount + 1) as int);
    lemma_quotient_nonnegative(t * shares + n - 1, n);
    if amount == 0 {
        assert(n * amount == 0) by (nonlinear_arith)
            requires
                amount == 0,
        ;
    }
}

/// A delegator can unstake what is worth no more shares than it owns. Nothing cannot be
/// unstaked, and more is refused. `shares` are those that the amount is worth, rounded up.
pub proof fn law_delegator_unstake_is_accepted(
    stake: Stake,
    account: Delegator,
    amount: nat,
    epoch_height: nat,
    shares: int,
)
    requires
        modest_stake(stake),
        modest_delegator(account),
        modest(amount as int),
        account.stake_shares <= stake.total_stake_shares,
        epoch_height + 4 <= u64::MAX,
        ({
            let (t, n) = (stake.total_staked_balance as int, stake.total_stake_shares as int);
            shares * t - t < n * amount <= shares * t
        }),
    ensures
        ({
            let outcome = stake.unstaked(account, amount as int, epoch_height as int);
            &&& amount == 0 ==> outcome == Err::<(Stake, Delegator), ContractError>(
                ContractError::AmountNotPositive,
            )
            &&& amount > 0 && shares > account.stake_shares ==> outcome == Err::<
                (Stake, Delegator),
                ContractError,
            >(ContractError::NotEnoughStaked { staked: account.stake_shares })
            &&& amount > 0 && shares <= account.stake_shares ==> outcome is Ok
        }),
{
    let (t, n) = (stake.total_staked_balance as int, stake.total_stake_shares as int);
    if amount > 0 {
        let x = n * amount + t - 1;
        lemma_quotient(x, t);
        lemma_same(x, t, shares, x / t);
        assert(n * amount >= 1 && n * amount <= amount * t) by (nonlinear_arith)
            requires
                0 < n <= t,
                amount > 0,
        ;
        lemma_at_least_one(x, t);
        assert(x <= (amount + 1) * t) by (nonlinear_arith)
            requires
                x == n * amount + t - 1,
                n * amount <= amount * t,
        ;
        lemma_quotient_at_most(x, t, (amount + 1) as int);
        if shares <= account.stake_shares {
            assert(t * shares == shares * t) by (nonlinear_arith);
            lemma_part(shares, t, n);
            assert(t * shares + n - 1 <= (t + 1) * n && t * shares >= 0) by (nonlinear_arith)
                requires
                    0 <= shares <= n,
                    t >= 0,
            ;
            lemma_quotient_at_most(t * shares + n - 1, n, t + 1);
            lemma_quotient_nonnegative(t * shares + n - 1, n);
        }
    }
}

/// A delegator can withdraw exactly if the amount is positive, it has that much unstaked,
/// and the epoch has come; else it is refused with the first of these that is missing.
pub proof fn law_delegator_withdrawal_is_accepted(
    stake: Stake,
    account: Delegator,
    amount: nat,
    epoch_height: nat,
)
    requires
        account.unstaked <= stake.last_total_balance,
    ensures
        ({
            let outcome = stake.withdrawn(account, amount as int, epoch_height as int);
            &&& outcome is Ok <==> 0 < amount <= account.unstaked && epoch_height
                >= account.unstaked_available_epoch_height
            &&& amount == 0 ==> outcome->Err_0 == ContractError::AmountNotPositive
            &&& amount > account.unstaked ==> outcome->Err_0 == (ContractError::NotEnoughUnstaked {
                unstaked: account.unstaked,
            })
            &&& 0 < amount <= account.unstaked && epoch_height
                < account.unstaked_available_epoch_height ==> outcome->Err_0 == (
            ContractError::UnstakedNotAvailable {
                unlock_epoch: account.unstaked_available_epoch_height,
            })
        }),
{
}

/// Rewards can be shared out in every epoch, unless the account holds less than at the
/// last time.
pub proof fn law_sharing_out_is_accepted(
    stake: Stake,
    fraction: RewardFeeFraction,
    owner_account: Delegator,
    call: &PoolCall,
)
    requires
        modest_stake(stake),
        modest_delegator(owner_account),
        modest(call.account_locked_balance as int),
        modest(call.account_balance as int),
        call.attached_deposit <= call.account_balance,
        0 < fraction.denominator && fraction.numerator <= fraction.denominator,
    ensures
        ({
            let held = call.account_locked_balance + call.account_balance - call.attached_deposit;
            let outcome = stake.pinged(fraction, owner_account, call);
            &&& outcome is Ok <==> call.epoch_height == stake.last_epoch_height || held
                >= stake.last_total_balance
            &&& call.epoch_height != stake.last_epoch_height && held < stake.last_total_balance
                ==> outcome->Err_0 == ContractError::BalanceDecreased
        }),
{
    let held = call.account_locked_balance + call.account_balance - call.attached_deposit;
    let reward = held - stake.last_total_balance;
    if reward > 0 {
        lemma_fraction_at_most_all(fraction, reward);
        let fee = fraction.of(reward);
        let raised = stake.total_staked_balance + reward - fee;
        lemma_bought(stake.total_stake_shares as int, fee, raised);
    }
}

/// What is known of an account can be shown, if its figures are far from the limits of
/// their types.
pub proof fn law_account_info_is_shown(
    books: Books,
    account: Account,
    account_id: String,
    epoch_height: u64,
)
    requires
        modest_totals(books.totals),
        modest_account(account),
        modest_account(books.account(nslp_id())),
        account.stake_shares <= books.totals.total_stake_shares,
        books.account(nslp_id()).stake_shares <= books.totals.total_stake_shares,
        account.nslp_shares <= books.account(nslp_id()).nslp_shares,
    ensures
        account_info(books, account, account_id, epoch_height) is Ok,
{
    let nslp = books.account(nslp_id());
    let (t, n) = (books.totals.total_for_staking as int, books.totals.total_stake_shares as int);
    if n > 0 {
        lemma_part(account.stake_shares as int, t, n);
        lemma_part(nslp.stake_shares as int, t, n);
    }
    if account.nslp_shares > 0 {
        let all = nslp.nslp_shares as int;
        lemma_part(account.nslp_shares as int, books.totals.nslp_value(nslp), all);
        assert(10_000 * account.nslp_shares == account.nslp_shares * 10_000);
        lemma_part(account.nslp_shares as int, 10_000, all);
    }
}

/// The state can be shown, if the price of a whole stNEAR and of a whole share of the
/// liquidity pool fit.
pub proof fn law_contract_state_is_shown(pool: MetaPool, epoch_height: u64, st_near_value: int)
    requires
        modest_totals(pool@.totals),
        modest_account(pool@.account(nslp_id())),
        pool@.account(nslp_id()).stake_shares <= pool@.totals.total_stake_shares,
        ({
            let (t, n) = (pool@.totals, pool@.account(nslp_id()));
            let one: int = 1_000_000_000_000_000_000_000_000;
            &&& t.total_stake_shares == 0 ==> st_near_value == 0
            &&& t.total_stake_shares > 0 ==> st_near_value * t.total_stake_shares <= n.stake_shares
                * t.total_for_staking < st_near_value * t.total_stake_shares + t.total_stake_shares
            &&& one * t.total_for_staking <= u128::MAX * t.total_stake_shares
            &&& one * (n.available + st_near_value) <= u128::MAX * n.nslp_shares
        }),
    ensures
        pool.contract_state(epoch_height) is Ok,
{
    let (totals, n) = (pool@.totals, pool@.account(nslp_id()));
    let (t, s) = (totals.total_for_staking as int, totals.total_stake_shares as int);
    let one: nat = 1_000_000_000_000_000_000_000_000;
    law_pool_price_in_figures(totals, n, st_near_value, one);
    if s > 0 {
        lemma_part(n.stake_shares as int, t, s);
        lemma_quotient_at_most(one * t, s, u128::MAX as int);
        lemma_quotient_nonnegative(one * t, s);
    }
    if n.nslp_shares > 0 {
        let value = totals.nslp_value(n);
        lemma_quotient_at_most(one * value, n.nslp_shares as int, u128::MAX as int);
        lemma_quotient_nonnegative(one * value, n.nslp_shares as int);
    }
}

} // verus!
