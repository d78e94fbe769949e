//! What each call of a user does, in figures: how much leaves one place and arrives at
//! another, by products instead of quotients, and that nothing else changes.

use vstd::prelude::*;

use crate::account::{Account, RewardMeter};
use crate::account_map::{distinct, lemma_filed, lemma_withdrawn, lookup};
use crate::books::Books;
use crate::ledger::{lemma_quotient_nonnegative, Totals};
use crate::metapool::MetaPool;
use crate::price_laws::law_discount_falls_with_liquidity;
use crate::staking_pools::unstaking_delay;
use crate::types::{developers_id, nslp_id};
use crate::utils::{lemma_quotient, lemma_quotient_at_most};

verus! {

/// Whether an account owns something: NEAR, stNEAR, unstaked NEAR, shares of the liquidity
/// pool, or governance tokens.
pub open spec fn owns_something(a: Account) -> bool {
    a.available > 0 || a.stake_shares > 0 || a.unstaked > 0 || a.nslp_shares > 0 || a.realized_meta
        > 0
}

/// After saving an account, the books hold it, or nothing if it owns nothing, and every
/// other account as before.
pub proof fn law_saving_leaves_others(books: Books, totals: Totals, id: Seq<char>, account: Account)
    requires
        distinct(books.accounts),
    ensures
        ({
            let after = books.with(totals, id, account);
            &&& after.totals == totals
            &&& distinct(after.accounts)
            &&& owns_something(account) ==> after.account(id) == account
            &&& !owns_something(account) ==> after.account(id) == (Account {
                available: 0,
                stake_shares: 0,
                unstaked: 0,
                unstaked_requested_unlock_epoch: 0,
                realized_meta: 0,
                nslp_shares: 0,
                trip_start: 0,
                trip_start_stnear: 0,
                trip_accum_stakes: 0,
                trip_accum_unstakes: 0,
                staking_meter: RewardMeter { delta_staked: 0 },
                lp_meter: RewardMeter { delta_staked: 0 },
            })
            &&& forall|other: Seq<char>|
                other != id ==> #[trigger] after.account(other) == books.account(other)
        }),
{
    let after = books.with(totals, id, account);
    if account.owns_nothing() {
        lemma_withdrawn(books.accounts, id);
    } else {
        lemma_filed(books.accounts, id, account);
    }
    assert forall|other: Seq<char>| other != id implies #[trigger] after.account(other)
        == books.account(other) by {
        assert(lookup(after.accounts, other) == lookup(books.accounts, other));
    }
}

/// An account of which nothing is known owns nothing and waits for nothing.
pub proof fn law_unknown_account_is_empty(books: Books, id: Seq<char>)
    requires
        forall|i: int| 0 <= i < books.accounts.len() ==> (#[trigger] books.accounts[i]).0 != id,
    ensures
        ({
            let a = books.account(id);
            &&& a.available == 0 && a.stake_shares == 0 && a.unstaked == 0 && a.nslp_shares == 0
            &&& a.unstaked_requested_unlock_epoch == 0 && a.realized_meta == 0
            &&& a.trip_start == 0 && a.trip_start_stnear == 0
            &&& a.trip_accum_stakes == 0 && a.trip_accum_unstakes == 0
            &&& a.staking_meter.delta_staked == 0 && a.lp_meter.delta_staked == 0
        }),
{
}

/// What a successful deposit that is staked does. All of it is staked, and with it a
/// rest of less than a thousandth of a NEAR that the account had available. The account
/// gets, and the call returns, the stNEAR that this buys at the price before it, rounded
/// down. The liquidity pool then gives up its stNEAR at the price after it: all, if the
/// NEAR that was staked is enough for it, else as much as that NEAR buys.
pub proof fn law_deposit_and_stake_in_figures(
    books: Books,
    id: Seq<char>,
    amount: u128,
    min_deposit_amount: u128,
)
    requires
        distinct(books.accounts),
        id != nslp_id(),
        books.deposit_and_stake(id, amount, min_deposit_amount) is Ok,
    ensures
        ({
            let (after, minted) = books.deposit_and_stake(id, amount, min_deposit_amount)->Ok_0;
            let (t, t2) = (books.totals, after.totals);
            let (a, a2) = (books.account(id), after.account(id));
            let (n, n2) = (books.account(nslp_id()), after.account(nslp_id()));
            let staked = if a.available < 1_000_000_000_000_000_000_000 {
                amount + a.available
            } else {
                amount as int
            };
            let price_amount = t.total_for_staking + staked;
            let price_shares = t.total_stake_shares + minted;
            let near = n2.available - n.available;
            let burned = n.stake_shares - n2.stake_shares;
            &&& amount >= min_deposit_amount
            &&& minted > 0
            &&& minted == a2.stake_shares - a.stake_shares
            &&& t.total_stake_shares == 0 ==> minted == staked
            &&& t.total_stake_shares > 0 ==> minted * t.total_for_staking <= t.total_stake_shares
                * staked < minted * t.total_for_staking + t.total_for_staking
            &&& a2 == (Account {
                available: a2.available,
                stake_shares: a2.stake_shares,
                trip_accum_stakes: a2.trip_accum_stakes,
                staking_meter: a2.staking_meter,
                ..a
            })
            &&& a2.available == a.available + amount - staked
            &&& a2.trip_accum_stakes == a.trip_accum_stakes + staked
            &&& a2.staking_meter.delta_staked == a.staking_meter.delta_staked + staked
            &&& n.stake_shares == 0 ==> n2 == n
            &&& n.stake_shares > 0 ==> {
                ||| {
                    &&& burned == n.stake_shares
                    &&& near <= staked
                    &&& near * price_shares <= burned * price_amount < near * price_shares
                        + price_shares
                }
                ||| {
                    &&& near == staked
                    &&& burned * price_amount <= price_shares * staked < burned * price_amount
                        + price_amount
                    &&& n.stake_shares * price_amount >= (staked + 1) * price_shares
                }
            }
            &&& n2.nslp_shares == n.nslp_shares && n2.unstaked == n.unstaked
            &&& n.stake_shares > 0 && owns_something(n2) ==> n2 == (Account {
                available: n2.available,
                stake_shares: n2.stake_shares,
                trip_accum_unstakes: n2.trip_accum_unstakes,
                staking_meter: n2.staking_meter,
                ..n
            }) && n2.trip_accum_unstakes == n.trip_accum_unstakes + near
                && n2.staking_meter.delta_staked == n.staking_meter.delta_staked - near
            &&& t2.contract_account_balance == t.contract_account_balance + amount
            &&& t2.total_available == t.total_available + amount - staked + near
            &&& t2.total_for_staking == t.total_for_staking + staked - near
            &&& t2.epoch_stake_orders == t.epoch_stake_orders + staked - near
            &&& t2.total_stake_shares == t.total_stake_shares + minted - burned
            &&& t2.epoch_unstake_orders == t.epoch_unstake_orders
            &&& t2.total_unstake_claims == t.total_unstake_claims
            &&& t2.retrieved_for_unstake_claims == t.retrieved_for_unstake_claims
            &&& forall|other: Seq<char>|
                other != id && other != nslp_id() ==> #[trigger] after.account(other)
                    == books.account(other)
        }),
{
    let n = books.account(nslp_id());
    let (totals, account) = books.totals.deposited(books.account(id), amount as int)->Ok_0;
    let s = totals.staked(account, amount as int)->Ok_0;
    let middle = books.with(s.totals, id, s.account);
    let (t, shares) = (totals.total_for_staking as int, totals.total_stake_shares as int);
    law_saving_leaves_others(books, s.totals, id, s.account);
    if shares > 0 {
        lemma_quotient(shares * s.amount, t);
    }
    if n.stake_shares > 0 {
        let (cleared, pool) = s.totals.cleared(n, s.amount as int)->Ok_0;
        let (t1, s1) = (s.totals.total_for_staking as int, s.totals.total_stake_shares as int);
        let x = n.stake_shares * t1;
        law_saving_leaves_others(middle, cleared, nslp_id(), pool);
        lemma_quotient(x, s1);
        lemma_quotient(s1 * s.amount, t1);
        if s.amount < x / s1 {
            let v = x / s1;
            assert((s.amount + 1) * s1 <= v * s1) by (nonlinear_arith)
                requires
                    s.amount + 1 <= v,
                    s1 >= 0,
            ;
        }
    }
}

/// What a successful unstaking of a number of stNEAR does: exactly that many are burned,
/// for a claim to what they are worth at the current price, rounded down, which unlocks
/// after one or two waiting times of four epochs.
pub proof fn law_unstake_shares_in_figures(
    pool: MetaPool,
    id: Seq<char>,
    shares: nat,
    epoch_height: u64,
)
    requires
        distinct(pool@.accounts),
        pool.unstaking_of_shares(id, shares as int, epoch_height) is Ok,
    ensures
        ({
            let (after, (near, unlock_epoch)) = pool.unstaking_of_shares(
                id,
                shares as int,
                epoch_height,
            )->Ok_0;
            let (t, t2) = (pool@.totals, after.totals);
            let (a, a2) = (pool@.account(id), after.account(id));
            &&& 0 < shares <= a.stake_shares
            &&& near * t.total_stake_shares <= shares * t.total_for_staking < near
                * t.total_stake_shares + t.total_stake_shares
            &&& unlock_epoch == epoch_height + 4 || unlock_epoch == epoch_height + 8
            &&& unlock_epoch == epoch_height + unstaking_delay(
                pool.staking_pools@,
                near as int,
                epoch_height as int,
            )
            &&& a2.stake_shares == a.stake_shares - shares
            &&& a2.unstaked == a.unstaked + near
            &&& a2.available == a.available && a2.nslp_shares == a.nslp_shares
            &&& near > 0 ==> a2.unstaked_requested_unlock_epoch == unlock_epoch
            &&& near > 0 ==> a2 == (Account {
                stake_shares: a2.stake_shares,
                unstaked: a2.unstaked,
                unstaked_requested_unlock_epoch: a2.unstaked_requested_unlock_epoch,
                trip_accum_unstakes: a2.trip_accum_unstakes,
                staking_meter: a2.staking_meter,
                ..a
            })
            &&& near > 0 ==> a2.trip_accum_unstakes == a.trip_accum_unstakes + near
            &&& near > 0 ==> a2.staking_meter.delta_staked == a.staking_meter.delta_staked - near
            &&& t2.total_for_staking == t.total_for_staking - near
            &&& t2.total_stake_shares == t.total_stake_shares - shares
            &&& t2.epoch_unstake_orders == t.epoch_unstake_orders + near
            &&& t2.total_unstake_claims == t.total_unstake_claims + near
            &&& t2.contract_account_balance == t.contract_account_balance
            &&& t2.retrieved_for_unstake_claims == t.retrieved_for_unstake_claims
            &&& t2.total_available == t.total_available
            &&& t2.epoch_stake_orders == t.epoch_stake_orders
            &&& forall|other: Seq<char>|
                other != id ==> #[trigger] after.account(other) == pool@.account(other)
        }),
{
    let (after, (near, unlock_epoch)) = pool.unstaking_of_shares(
        id,
        shares as int,
        epoch_height,
    )->Ok_0;
    let (totals, account) = pool@.totals.unstaked(
        pool@.account(id),
        shares as int,
        near as int,
        unlock_epoch as int,
    )->Ok_0;
    law_saving_leaves_others(pool@, totals, id, account);
    lemma_quotient(
        shares * pool@.totals.total_for_staking,
        pool@.totals.total_stake_shares as int,
    );
}

/// What a successful unstaking of an amount of NEAR does. If the amount is less than a
/// thousandth of a NEAR from what all stNEAR of the account is worth, all is burned for
/// a claim to exactly that. Else the stNEAR that is burned is what the amount is worth
/// at the current price, rounded down, for a claim to exactly the amount.
pub proof fn law_unstake_amount_in_figures(
    pool: MetaPool,
    id: Seq<char>,
    amount: nat,
    epoch_height: u64,
)
    requires
        distinct(pool@.accounts),
        pool.unstaking(id, amount as int, epoch_height) is Ok,
    ensures
        ({
            let after = pool.unstaking(id, amount as int, epoch_height)->Ok_0.0;
            let (t, t2) = (pool@.totals, after.totals);
            let (a, a2) = (pool@.account(id), after.account(id));
            let burned = a.stake_shares - a2.stake_shares;
            let near = a2.unstaked - a.unstaked;
            &&& burned > 0
            &&& {
                ||| {
                    &&& burned == a.stake_shares
                    &&& near * t.total_stake_shares <= a.stake_shares * t.total_for_staking < near
                        * t.total_stake_shares + t.total_stake_shares
                    &&& near - 1_000_000_000_000_000_000_000 < amount < near
                        + 1_000_000_000_000_000_000_000
                }
                ||| {
                    &&& near == amount
                    &&& burned * t.total_for_staking <= t.total_stake_shares * amount < burned
                        * t.total_for_staking + t.total_for_staking
                    &&& a.stake_shares * t.total_for_staking >= (amount
                        + 1_000_000_000_000_000_000_000) * t.total_stake_shares
                }
            }
            &&& a2.available == a.available && a2.nslp_shares == a.nslp_shares
            &&& near > 0 ==> {
                ||| a2.unstaked_requested_unlock_epoch == epoch_height + 4
                ||| a2.unstaked_requested_unlock_epoch == epoch_height + 8
            }
            &&& near > 0 ==> a2.unstaked_requested_unlock_epoch == epoch_height + unstaking_delay(
                pool.staking_pools@,
                near,
                epoch_height as int,
            )
            &&& near > 0 ==> a2 == (Account {
                stake_shares: a2.stake_shares,
                unstaked: a2.unstaked,
                unstaked_requested_unlock_epoch: a2.unstaked_requested_unlock_epoch,
                trip_accum_unstakes: a2.trip_accum_unstakes,
                staking_meter: a2.staking_meter,
                ..a
            })
            &&& near > 0 ==> a2.trip_accum_unstakes == a.trip_accum_unstakes + near
            &&& near > 0 ==> a2.staking_meter.delta_staked == a.staking_meter.delta_staked - near
            &&& t2.total_for_staking == t.total_for_staking - near
            &&& t2.total_stake_shares == t.total_stake_shares - burned
            &&& t2.epoch_unstake_orders == t.epoch_unstake_orders + near
            &&& t2.total_unstake_claims == t.total_unstake_claims + near
            &&& t2.contract_account_balance == t.contract_account_balance
            &&& t2.retrieved_for_unstake_claims == t.retrieved_for_unstake_claims
            &&& t2.total_available == t.total_available
            &&& t2.epoch_stake_orders == t.epoch_stake_orders
            &&& forall|other: Seq<char>|
                other != id ==> #[trigger] after.account(other) == pool@.account(other)
        }),
{
    let a = pool@.account(id);
    let (shares, near) = pool@.unstake_request(id, amount as int);
    let unlock_epoch = epoch_height + unstaking_delay(
        pool.staking_pools@,
        near,
        epoch_height as int,
    );
    let (totals, account) = pool@.totals.unstaked(a, shares, near, unlock_epoch)->Ok_0;
    law_saving_leaves_others(pool@, totals, id, account);
    let (t, n) = (
        pool@.totals.total_for_staking as int,
        pool@.totals.total_stake_shares as int,
    );
    let x = a.stake_shares * t;
    lemma_quotient(x, n);
    if t > 0 {
        lemma_quotient(n * amount, t);
    }
    if x / n >= amount + 1_000_000_000_000_000_000_000 {
        let v = x / n;
        assert((amount + 1_000_000_000_000_000_000_000) * n <= v * n) by (nonlinear_arith)
            requires
                amount + 1_000_000_000_000_000_000_000 <= v,
                n >= 0,
        ;
    }
}

/// What a successful withdrawal does: exactly the amount asked for leaves the unstaked
/// NEAR of the account, after its epoch has come, and is sent to it out of the reserve.
pub proof fn law_withdrawal_in_figures(
    pool: MetaPool,
    account_id: String,
    amount: u128,
    epoch_height: u64,
)
    requires
        distinct(pool@.accounts),
        pool.withdrawal(account_id, amount, epoch_height) is Ok,
    ensures
        ({
            let (after, transfer) = pool.withdrawal(account_id, amount, epoch_height)->Ok_0;
            let (t, t2) = (pool@.totals, after.totals);
            let (a, a2) = (pool@.account(account_id@), after.account(account_id@));
            &&& transfer.receiver_id@ == account_id@
            &&& transfer.amount == amount
            &&& epoch_height >= a.unstaked_requested_unlock_epoch
            &&& a2.unstaked == a.unstaked - amount
            &&& a2.available == a.available && a2.stake_shares == a.stake_shares
            &&& a2.nslp_shares == a.nslp_shares
            &&& a2.realized_meta == a.realized_meta
            &&& owns_something(a2) ==> a2 == (Account { unstaked: a2.unstaked, ..a })
            &&& t2.retrieved_for_unstake_claims == t.retrieved_for_unstake_claims - amount
            &&& t2.total_unstake_claims == t.total_unstake_claims - amount
            &&& t2.contract_account_balance == t.contract_account_balance - amount
            &&& t2.total_available == t.total_available
            &&& t2.epoch_stake_orders == t.epoch_stake_orders
            &&& t2.epoch_unstake_orders == t.epoch_unstake_orders
            &&& t2.total_for_staking == t.total_for_staking
            &&& t2.total_stake_shares == t.total_stake_shares
            &&& forall|other: Seq<char>|
                other != account_id@ ==> #[trigger] after.account(other) == pool@.account(other)
        }),
{
    let (totals, account) = pool@.totals.withdrawn(
        pool@.account(account_id@),
        amount as int,
        epoch_height as int,
    )->Ok_0;
    law_saving_leaves_others(pool@, totals, account_id@, account);
}

/// Whether an account differs from what it was only by stNEAR that it got, with which what
/// that is worth at the current price, rounded down, is noted.
pub open spec fn gets_shares(totals: Totals, before: Account, after: Account) -> bool {
    let got = after.stake_shares - before.stake_shares;
    let noted = after.trip_accum_stakes - before.trip_accum_stakes;
    &&& got >= 0
    &&& after.available == before.available && after.unstaked == before.unstaked
    &&& after.nslp_shares == before.nslp_shares && after.realized_meta == before.realized_meta
    &&& owns_something(after) ==> {
        &&& after == (Account {
            stake_shares: after.stake_shares,
            trip_accum_stakes: after.trip_accum_stakes,
            staking_meter: after.staking_meter,
            ..before
        })
        &&& after.staking_meter.delta_staked == before.staking_meter.delta_staked + noted
        &&& noted * totals.total_stake_shares <= got * totals.total_for_staking < noted
            * totals.total_stake_shares + totals.total_stake_shares
    }
}

/// Crediting stNEAR notes what it is worth.
proof fn lemma_gets_shares(totals: Totals, before: Account, shares: int, after: Account)
    requires
        totals.total_stake_shares > 0,
        shares >= 0,
        ({
            let credited = before.plus_shares(shares, totals.stake_value(shares));
            &&& credited is Some
            &&& owns_something(credited->0) ==> after == credited->0
            &&& !owns_something(credited->0) ==> !owns_something(after)
        }),
    ensures
        gets_shares(totals, before, after),
{
    let (t, n) = (totals.total_for_staking as int, totals.total_stake_shares as int);
    lemma_quotient(shares * t, n);
    assert(0 * t == 0) by (nonlinear_arith);
    vstd::arithmetic::div_mod::lemma_div_basics(n);
}

/// What a successful swap does. The seller sells what it asked for, or all, if that is
/// less than a thousandth of a stNEAR away. `value` is what the stNEAR sold is worth,
/// `discount` the fee in basis points: the highest if nothing would be left in the
/// liquidity pool, the lowest from the target on, and on a straight line in between. The
/// pool pays the value less exactly that fee, whatever the size of the sale. The fee in
/// stNEAR is shared out by basis points; all other stNEAR sold goes to the pool.
pub proof fn law_swap_in_figures(
    pool: MetaPool,
    id: Seq<char>,
    st_near_to_burn: u128,
    min_expected_near: u128,
    value: int,
    discount: int,
)
    requires
        distinct(pool@.accounts),
        pool.nslp_min_discount_basis_points <= pool.nslp_max_discount_basis_points,
        id != nslp_id(),
        pool.treasury_account_id@ != nslp_id(),
        pool.operator_account_id@ != nslp_id(),
        pool.treasury_account_id@ != pool.operator_account_id@,
        pool.treasury_account_id@ != developers_id(),
        pool.operator_account_id@ != developers_id(),
        pool.liquid_unstaking(id, st_near_to_burn, min_expected_near) is Ok,
        ({
            let after = pool.liquid_unstaking(id, st_near_to_burn, min_expected_near)->Ok_0.0;
            let sold = pool@.account(id).stake_shares - after.account(id).stake_shares;
            value * pool.total_stake_shares <= sold * pool.total_for_staking < value
                * pool.total_stake_shares + pool.total_stake_shares
        }),
        ({
            let left = pool@.account(nslp_id()).available - value;
            let target = pool.nslp_liquidity_target as int;
            let range = pool.nslp_max_discount_basis_points - pool.nslp_min_discount_basis_points;
            let below = pool.nslp_max_discount_basis_points - discount;
            &&& left <= 0 ==> below == 0
            &&& left > 0 && left >= target ==> below == range
            &&& 0 < left < target ==> below * target <= range * left < below * target + target
        }),
    ensures
        ({
            let (after, answer) = pool.liquid_unstaking(
                id,
                st_near_to_burn,
                min_expected_near,
            )->Ok_0;
            let (t, t2) = (pool@.totals, after.totals);
            let (a, a2) = (pool@.account(id), after.account(id));
            let (n, n2) = (pool@.account(nslp_id()), after.account(nslp_id()));
            let treasury = pool.treasury_account_id@;
            let operator = pool.operator_account_id@;
            let sold = a.stake_shares - a2.stake_shares;
            let near = n.available - n2.available;
            let fee = value - near;
            let treasury_cut = after.account(treasury).stake_shares - pool@.account(
                treasury,
            ).stake_shares;
            let operator_cut = after.account(operator).stake_shares - pool@.account(
                operator,
            ).stake_shares;
            let developers_cut = after.account(developers_id()).stake_shares - pool@.account(
                developers_id(),
            ).stake_shares;
            &&& id != treasury && id != operator && id != developers_id()
            &&& {
                ||| sold == a.stake_shares && a.stake_shares - 1_000_000_000_000_000_000_000
                    < st_near_to_burn < a.stake_shares + 1_000_000_000_000_000_000_000
                ||| sold == st_near_to_burn && a.stake_shares - st_near_to_burn
                    >= 1_000_000_000_000_000_000_000
            }
            &&& fee * 10_000 <= discount * value < fee * 10_000 + 10_000
            &&& answer.fee * t.total_for_staking <= t.total_stake_shares * fee < answer.fee
                * t.total_for_staking + t.total_for_staking
            &&& answer.meta == 0
            &&& treasury_cut * 10_000 <= pool.treasury_swap_cut_basis_points * answer.fee
                < treasury_cut * 10_000 + 10_000
            &&& operator_cut * 10_000 <= pool.operator_swap_cut_basis_points * answer.fee
                < operator_cut * 10_000 + 10_000
            &&& developers_cut * 10_000 <= 200 * answer.fee < developers_cut * 10_000 + 10_000
            &&& treasury_cut + operator_cut + developers_cut < answer.fee
            &&& n2.stake_shares - n.stake_shares == sold - treasury_cut - operator_cut
                - developers_cut
            &&& n2.nslp_shares == n.nslp_shares && n2.unstaked == n.unstaked
            &&& near >= min_expected_near
            &&& answer.near == (if a.available < 1_000_000_000_000_000_000_000 {
                near + a.available
            } else {
                near
            })
            &&& a2.available == a.available + near - answer.near
            &&& a2.unstaked == a.unstaked && a2.nslp_shares == a.nslp_shares
            &&& t2 == (Totals {
                contract_account_balance: t2.contract_account_balance,
                total_available: t2.total_available,
                ..t
            })
            &&& t2.contract_account_balance == t.contract_account_balance - answer.near
            &&& t2.total_available == t.total_available - answer.near
            &&& a2.realized_meta == a.realized_meta
            &&& owns_something(a2) ==> a2 == (Account {
                available: a2.available,
                stake_shares: a2.stake_shares,
                trip_accum_unstakes: a2.trip_accum_unstakes,
                staking_meter: a2.staking_meter,
                ..a
            }) && a2.trip_accum_unstakes == a.trip_accum_unstakes + value
                && a2.staking_meter.delta_staked == a.staking_meter.delta_staked - value
            &&& gets_shares(
                t,
                (Account { available: (n.available - near) as u128, ..n }),
                n2,
            )
            &&& gets_shares(t, pool@.account(treasury), after.account(treasury))
            &&& gets_shares(t, pool@.account(operator), after.account(operator))
            &&& gets_shares(t, pool@.account(developers_id()), after.account(developers_id()))
            &&& forall|other: Seq<char>|
                other != id && other != nslp_id() && other != treasury && other != operator && other
                    != developers_id() ==> #[trigger] after.account(other) == pool@.account(other)
        }),
{
    reveal_strlit("developers.near");
    reveal_strlit("..NSLP..");
    assert(developers_id() != nslp_id()) by {
        assert(developers_id().len() != nslp_id().len());
    }
    let books = pool@;
    let terms = pool.terms();
    let treasury = pool.treasury_account_id@;
    let operator = pool.operator_account_id@;
    let (user, nslp) = (books.account(id), books.account(nslp_id()));
    let quote = books.totals.quoted(
        terms,
        user,
        nslp,
        st_near_to_burn as int,
        min_expected_near,
    )->Ok_0;
    let s = books.totals.settled(
        terms,
        quote,
        user,
        nslp,
        books.account(treasury),
        books.account(operator),
        books.account(developers_id()),
    )->Ok_0;
    let b1 = books.with(s.totals, treasury, s.treasury);
    let b2 = b1.with(s.totals, operator, s.operator);
    let b3 = b2.with(s.totals, developers_id(), s.developers);
    let b4 = b3.with(s.totals, nslp_id(), s.nslp);
    let b5 = b4.with(s.totals, id, s.user);
    law_saving_leaves_others(books, s.totals, treasury, s.treasury);
    law_saving_leaves_others(b1, s.totals, operator, s.operator);
    law_saving_leaves_others(b2, s.totals, developers_id(), s.developers);
    law_saving_leaves_others(b3, s.totals, nslp_id(), s.nslp);
    law_saving_leaves_others(b4, s.totals, id, s.user);
    assert(b5.account(treasury) == b1.account(treasury)) by {
        assert(b2.account(treasury) == b1.account(treasury));
        assert(b3.account(treasury) == b2.account(treasury));
        assert(b4.account(treasury) == b3.account(treasury));
    }
    assert(b5.account(operator) == b2.account(operator)) by {
        assert(b3.account(operator) == b2.account(operator));
        assert(b4.account(operator) == b3.account(operator));
    }
    assert(b5.account(developers_id()) == b3.account(developers_id())) by {
        assert(b4.account(developers_id()) == b3.account(developers_id()));
    }
    assert(b5.account(nslp_id()) == b4.account(nslp_id()));
    assert forall|other: Seq<char>|
        other != id && other != nslp_id() && other != treasury && other != operator && other
            != developers_id() implies #[trigger] b5.account(other) == books.account(other) by {
        assert(b1.account(other) == books.account(other));
        assert(b2.account(other) == b1.account(other));
        assert(b3.account(other) == b2.account(other));
        assert(b4.account(other) == b3.account(other));
    }
    let (t, n) = (books.totals.total_for_staking as int, books.totals.total_stake_shares as int);
    let sold = quote.st_near as int;
    assert(0 * t == 0) by (nonlinear_arith);
    lemma_quotient(sold * t, n);
    lemma_same_quotient(sold * t, n, value);
    assert(value == books.totals.stake_value(sold)) by {
        vstd::arithmetic::div_mod::lemma_div_basics(n);
    }
    let range = terms.max_discount_basis_points - terms.min_discount_basis_points;
    let left = nslp.available - value;
    let target = terms.liquidity_target as int;
    if 0 < left < target {
        lemma_same_quotient(range * left, target, terms.max_discount_basis_points - discount);
    }
    assert(discount == terms.discount(nslp.available as int, value));
    lemma_quotient(discount * value, 10_000);
    let fee = Totals::swap_fee(terms, nslp.available as int, value);
    law_discount_falls_with_liquidity(
        terms,
        nslp.available as nat,
        quote.value as nat,
        nslp.available as nat,
        quote.value as nat,
    );
    assert(discount * value >= 0) by (nonlinear_arith)
        requires
            discount >= 0,
            value >= 0,
    ;
    assert(fee >= 0);
    if fee > 0 && t > 0 {
        lemma_quotient(n * fee, t);
    }
    let fee_shares = quote.fee_st_near as int;
    lemma_quotient(terms.treasury_cut_basis_points * fee_shares, 10_000);
    lemma_quotient(terms.operator_cut_basis_points * fee_shares, 10_000);
    lemma_quotient(200 * fee_shares, 10_000);
    lemma_cut_nonnegative(terms.treasury_cut_basis_points as int, fee_shares);
    lemma_cut_nonnegative(terms.operator_cut_basis_points as int, fee_shares);
    let treasury_cut = terms.treasury_cut_basis_points * fee_shares / 10_000;
    let operator_cut = terms.operator_cut_basis_points * fee_shares / 10_000;
    let developers_cut = 200 * fee_shares / 10_000;
    let to_pool = sold - (treasury_cut + operator_cut + developers_cut);
    let paid = Account { available: (nslp.available - quote.near) as u128, ..nslp };
    lemma_gets_shares(books.totals, books.account(treasury), treasury_cut, b5.account(treasury));
    lemma_gets_shares(books.totals, books.account(operator), operator_cut, b5.account(operator));
    lemma_gets_shares(
        books.totals,
        books.account(developers_id()),
        developers_cut,
        b5.account(developers_id()),
    );
    lemma_gets_shares(books.totals, paid, to_pool, b5.account(nslp_id()));
}

/// What a successful addition of liquidity does. `st_near_value` is what the stNEAR of the
/// liquidity pool is worth. All of the deposit goes into the pool, and with it a rest of
/// less than a thousandth of a NEAR that the account had available. The account gets the
/// shares that this buys at the pool's price, rounded down; the first one gets a share
/// per yocto. The answer is the part of the pool that the account owns, in basis points.
pub proof fn law_add_liquidity_in_figures(
    books: Books,
    id: Seq<char>,
    amount: u128,
    min_deposit_amount: u128,
    st_near_value: int,
)
    requires
        distinct(books.accounts),
        id != nslp_id(),
        books.account(id).nslp_shares <= books.account(nslp_id()).nslp_shares,
        books.add_liquidity(id, amount, min_deposit_amount) is Ok,
        ({
            let t = books.totals;
            let held = books.account(nslp_id()).stake_shares;
            &&& t.total_stake_shares == 0 ==> st_near_value == 0
            &&& t.total_stake_shares > 0 ==> st_near_value * t.total_stake_shares <= held
                * t.total_for_staking < st_near_value * t.total_stake_shares + t.total_stake_shares
        }),
    ensures
        ({
            let (after, share_bp) = books.add_liquidity(id, amount, min_deposit_amount)->Ok_0;
            let (t, t2) = (books.totals, after.totals);
            let (a, a2) = (books.account(id), after.account(id));
            let (n, n2) = (books.account(nslp_id()), after.account(nslp_id()));
            let added = if a.available < 1_000_000_000_000_000_000_000 {
                amount + a.available
            } else {
                amount as int
            };
            let shares = a2.nslp_shares - a.nslp_shares;
            let pool_value = n.available + st_near_value;
            &&& amount >= min_deposit_amount
            &&& shares > 0
            &&& n.nslp_shares == 0 ==> shares == added
            &&& n.nslp_shares > 0 ==> shares * pool_value <= n.nslp_shares * added < shares
                * pool_value + pool_value
            &&& share_bp * n2.nslp_shares <= 10_000 * a2.nslp_shares < share_bp * n2.nslp_shares
                + n2.nslp_shares
            &&& a2 == (Account {
                available: a2.available,
                nslp_shares: a2.nslp_shares,
                lp_meter: a2.lp_meter,
                ..a
            })
            &&& a2.available == a.available + amount - added
            &&& a2.lp_meter.delta_staked == a.lp_meter.delta_staked + added
            &&& n2 == (Account { available: n2.available, nslp_shares: n2.nslp_shares, ..n })
            &&& n2.available == n.available + added
            &&& n2.nslp_shares == n.nslp_shares + shares
            &&& t2 == (Totals {
                contract_account_balance: t2.contract_account_balance,
                total_available: t2.total_available,
                ..t
            })
            &&& t2.contract_account_balance == t.contract_account_balance + amount
            &&& t2.total_available == t.total_available + amount
            &&& forall|other: Seq<char>|
                other != id && other != nslp_id() ==> #[trigger] after.account(other)
                    == books.account(other)
        }),
{
    let n = books.account(nslp_id());
    let (totals, account) = books.totals.deposited(books.account(id), amount as int)->Ok_0;
    let l = totals.liquidity_added(account, n, amount as int)->Ok_0;
    let (_, _, added) = totals.taken(account, amount as int)->Ok_0;
    let middle = books.with(l.totals, id, l.account);
    law_saving_leaves_others(books, l.totals, id, l.account);
    law_saving_leaves_others(middle, l.totals, nslp_id(), l.nslp);
    lemma_stake_value(books.totals, n.stake_shares as int, st_near_value);
    if n.nslp_shares > 0 {
        let pool_value = totals.nslp_value(n);
        if pool_value > 0 {
            lemma_quotient(n.nslp_shares * added, pool_value);
        }
    }
    let (owned, all) = (l.account.nslp_shares as int, l.nslp.nslp_shares as int);
    lemma_quotient(10_000 * owned, all);
    lemma_quotient_at_most(10_000 * owned, all, 10_000);
    lemma_quotient_nonnegative(10_000 * owned, all);
}

/// What stNEAR is worth lies between the bounds of its quotient.
proof fn lemma_stake_value(totals: Totals, shares: int, value: int)
    requires
        shares >= 0,
        totals.total_stake_shares == 0 ==> value == 0,
        totals.total_stake_shares > 0 ==> value * totals.total_stake_shares <= shares
            * totals.total_for_staking < value * totals.total_stake_shares
            + totals.total_stake_shares,
    ensures
        value == totals.stake_value(shares),
{
    let (t, n) = (totals.total_for_staking as int, totals.total_stake_shares as int);
    if n > 0 {
        lemma_same_quotient(shares * t, n, value);
        assert(0 * t == 0) by (nonlinear_arith);
        vstd::arithmetic::div_mod::lemma_div_basics(n);
    }
}

/// What a successful removal of liquidity does. `st_near_value` is what the stNEAR of the
/// liquidity pool is worth, `owned` what the shares of the account are worth, and
/// `moved_value` what the stNEAR that goes to the account is worth. If what is asked for
/// is less than a thousandth of a NEAR from what is owned, all shares are burned for
/// exactly that; else the shares that the amount is worth at the pool's price, rounded
/// down, for exactly the amount. The account gets the same part of the pool's stNEAR as
/// of its shares, rounded down, and the rest in NEAR.
pub proof fn law_remove_liquidity_in_figures(
    pool: MetaPool,
    id: Seq<char>,
    amount: u128,
    st_near_value: int,
    owned: int,
    moved_value: int,
)
    requires
        distinct(pool@.accounts),
        id != nslp_id(),
        pool.removing_liquidity(id, amount) is Ok,
        ({
            let t = pool@.totals;
            let held = pool@.account(nslp_id()).stake_shares;
            let moved = pool.removing_liquidity(id, amount)->Ok_0.1.st_near;
            &&& t.total_stake_shares == 0 ==> st_near_value == 0 && moved_value == 0
            &&& t.total_stake_shares > 0 ==> st_near_value * t.total_stake_shares <= held
                * t.total_for_staking < st_near_value * t.total_stake_shares + t.total_stake_shares
            &&& t.total_stake_shares > 0 ==> moved_value * t.total_stake_shares <= moved
                * t.total_for_staking < moved_value * t.total_stake_shares + t.total_stake_shares
        }),
        ({
            let (a, n) = (pool@.account(id), pool@.account(nslp_id()));
            let pool_value = n.available + st_near_value;
            owned * n.nslp_shares <= a.nslp_shares * pool_value < owned * n.nslp_shares
                + n.nslp_shares
        }),
    ensures
        ({
            let (after, answer) = pool.removing_liquidity(id, amount)->Ok_0;
            let (t, t2) = (pool@.totals, after.totals);
            let (a, a2) = (pool@.account(id), after.account(id));
            let (n, n2) = (pool@.account(nslp_id()), after.account(nslp_id()));
            let pool_value = n.available + st_near_value;
            let burned = a.nslp_shares - a2.nslp_shares;
            let near = n.available - n2.available;
            let moved = answer.st_near;
            &&& burned > 0
            &&& {
                ||| {
                    &&& burned == a.nslp_shares
                    &&& near + moved_value == owned
                    &&& owned - 1_000_000_000_000_000_000_000 < amount < owned
                        + 1_000_000_000_000_000_000_000
                }
                ||| {
                    &&& near + moved_value == amount
                    &&& burned * pool_value <= n.nslp_shares * amount < burned * pool_value
                        + pool_value
                    &&& owned - amount >= 1_000_000_000_000_000_000_000
                }
            }
            &&& moved * n.nslp_shares <= n.stake_shares * burned < moved * n.nslp_shares
                + n.nslp_shares
            &&& near >= 0
            &&& n2.stake_shares == n.stake_shares - moved
            &&& n2.nslp_shares == n.nslp_shares - burned
            &&& n2.unstaked == n.unstaked
            &&& a2.stake_shares == a.stake_shares + moved
            &&& a2.unstaked == a.unstaked
            &&& answer.near == (if a.available < 1_000_000_000_000_000_000_000 {
                near + a.available
            } else {
                near
            })
            &&& a2.available == a.available + near - answer.near
            &&& a2.realized_meta == a.realized_meta
            &&& owns_something(a2) ==> a2 == (Account {
                available: a2.available,
                stake_shares: a2.stake_shares,
                nslp_shares: a2.nslp_shares,
                trip_accum_stakes: a2.trip_accum_stakes,
                staking_meter: a2.staking_meter,
                lp_meter: a2.lp_meter,
                ..a
            }) && a2.lp_meter.delta_staked == a.lp_meter.delta_staked - near - moved_value
                && a2.trip_accum_stakes == a.trip_accum_stakes + moved_value
                && a2.staking_meter.delta_staked == a.staking_meter.delta_staked + moved_value
            &&& owns_something(n2) ==> n2 == (Account {
                available: n2.available,
                stake_shares: n2.stake_shares,
                nslp_shares: n2.nslp_shares,
                trip_accum_unstakes: n2.trip_accum_unstakes,
                staking_meter: n2.staking_meter,
                ..n
            }) && n2.trip_accum_unstakes == n.trip_accum_unstakes + moved_value
                && n2.staking_meter.delta_staked == n.staking_meter.delta_staked - moved_value
            &&& t2 == (Totals {
                contract_account_balance: t2.contract_account_balance,
                total_available: t2.total_available,
                ..t
            })
            &&& t2.contract_account_balance == t.contract_account_balance - answer.near
            &&& t2.total_available == t.total_available - answer.near
            &&& forall|other: Seq<char>|
                other != id && other != nslp_id() ==> #[trigger] after.account(other)
                    == pool@.account(other)
        }),
{
    let books = pool@;
    let (a, n) = (books.account(id), books.account(nslp_id()));
    let l = books.totals.liquidity_removed(a, n, amount as int)->Ok_0;
    let middle = books.with(l.totals, id, l.account);
    law_saving_leaves_others(books, l.totals, id, l.account);
    law_saving_leaves_others(middle, l.totals, nslp_id(), l.nslp);
    lemma_stake_value(books.totals, n.stake_shares as int, st_near_value);
    lemma_stake_value(books.totals, l.st_near as int, moved_value);
    let all = n.nslp_shares as int;
    let pool_value = books.totals.nslp_value(n);
    lemma_same_quotient(a.nslp_shares * pool_value, all, owned);
    assert(0 * pool_value == 0) by (nonlinear_arith);
    vstd::arithmetic::div_mod::lemma_div_basics(all);
    assert(owned == books.totals.nslp_amount_for(a.nslp_shares as int, n));
    let (_, burned) = books.totals.removal(a, n, amount as int);
    lemma_quotient(n.stake_shares * burned, all);
    if pool_value > 0 {
        lemma_quotient(n.nslp_shares * amount, pool_value);
    }
}

/// What staking out of the liquidity pool does: the pool gets stNEAR for exactly the
/// amount, at the current price, rounded down, and keeps more NEAR than its target.
pub proof fn law_stake_from_nslp_in_figures(pool: MetaPool, amount: u128)
    requires
        distinct(pool@.accounts),
        pool.staking_from_nslp(amount) is Ok,
    ensures
        ({
            let after = pool.staking_from_nslp(amount)->Ok_0.0;
            let (t, t2) = (pool@.totals, after.totals);
            let (n, n2) = (pool@.account(nslp_id()), after.account(nslp_id()));
            let staked = n.available - n2.available;
            let minted = n2.stake_shares - n.stake_shares;
            &&& n.available - amount > pool.nslp_liquidity_target
            &&& n.available - amount >= 1_000_000_000_000_000_000_000 ==> staked == amount
            &&& n.available - amount < 1_000_000_000_000_000_000_000 ==> staked == n.available
            &&& minted > 0
            &&& t.total_stake_shares == 0 ==> minted == staked
            &&& t.total_stake_shares > 0 ==> minted * t.total_for_staking <= t.total_stake_shares
                * staked < minted * t.total_for_staking + t.total_for_staking
            &&& n2 == (Account {
                available: n2.available,
                stake_shares: n2.stake_shares,
                trip_accum_stakes: n2.trip_accum_stakes,
                staking_meter: n2.staking_meter,
                ..n
            })
            &&& n2.trip_accum_stakes == n.trip_accum_stakes + staked
            &&& n2.staking_meter.delta_staked == n.staking_meter.delta_staked + staked
            &&& t2 == (Totals {
                total_available: t2.total_available,
                total_for_staking: t2.total_for_staking,
                total_stake_shares: t2.total_stake_shares,
                epoch_stake_orders: t2.epoch_stake_orders,
                ..t
            })
            &&& t2.total_available == t.total_available - staked
            &&& t2.total_for_staking == t.total_for_staking + staked
            &&& t2.total_stake_shares == t.total_stake_shares + minted
            &&& t2.epoch_stake_orders == t.epoch_stake_orders + staked
            &&& forall|other: Seq<char>|
                other != nslp_id() ==> #[trigger] after.account(other) == pool@.account(other)
        }),
{
    let n = pool@.account(nslp_id());
    let s = pool@.totals.staked(n, amount as int)->Ok_0;
    law_saving_leaves_others(pool@, s.totals, nslp_id(), s.account);
    if pool@.totals.total_stake_shares > 0 {
        lemma_quotient(
            pool@.totals.total_stake_shares * s.amount,
            pool@.totals.total_for_staking as int,
        );
    }
}

/// A number between a quotient's bounds is the quotient.
proof fn lemma_same_quotient(x: int, d: int, q: int)
    requires
        d > 0,
        q * d <= x < q * d + d,
    ensures
        x / d == q,
{
    lemma_quotient(x, d);
    let p = x / d;
    assert(p == q) by (nonlinear_arith)
        requires
            d > 0,
            q * d <= x < q * d + d,
            p * d <= x < p * d + d,
    ;
}

/// A part of a fee is not negative.
proof fn lemma_cut_nonnegative(basis_points: int, fee: int)
    requires
        basis_points >= 0,
        fee >= 0,
    ensures
        basis_points * fee / 10_000 >= 0,
{
    assert(basis_points * fee >= 0) by (nonlinear_arith)
        requires
            basis_points >= 0,
            fee >= 0,
    ;
}

} // verus!
