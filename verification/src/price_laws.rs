//! What calls mean for prices: of stNEAR, and of the shares of the liquidity pool.

use vstd::prelude::*;

use crate::account::Account;
use crate::books::Books;
use crate::ledger::Totals;
use crate::liquidity::{SwapQuote, SwapTerms};
use crate::types::{nslp_id, ONE_MILLI_NEAR};
use crate::utils::{
    close, lemma_quotient, lemma_quotient_at_least, lemma_quotient_at_most,
    law_shares_keep_price,
};

verus! {

/// Whether stNEAR are worth at least as much in `after` as in `before`:
/// `total_for_staking` over `total_stake_shares` has not fallen.
pub open spec fn price_not_lower(before: Totals, after: Totals) -> bool {
    after.total_for_staking * before.total_stake_shares >= before.total_for_staking
        * after.total_stake_shares
}

/// Staking never lowers the price of stNEAR.
pub proof fn law_stake_keeps_share_price(totals: Totals, account: Account, amount: nat)
    requires
        totals.total_stake_shares > 0,
        totals.staked(account, amount as int) is Ok,
    ensures
        price_not_lower(totals, totals.staked(account, amount as int)->Ok_0.totals),
{
    let s = totals.staked(account, amount as int)->Ok_0;
    if totals.total_for_staking > 0 {
        law_shares_keep_price(
            s.amount as nat,
            totals.total_for_staking as nat,
            totals.total_stake_shares as nat,
        );
    }
}

/// Whoever sells stNEAR at the moment of buying it recovers what it cost, but for the
/// rounding: never more, and less than one yocto and the price of one yocto of stNEAR
/// below it. The first one recovers all.
pub proof fn law_stake_is_recovered(totals: Totals, account: Account, amount: nat)
    requires
        totals.total_stake_shares == 0 ==> totals.total_for_staking == 0,
        totals.staked(account, amount as int) is Ok,
    ensures
        ({
            let s = totals.staked(account, amount as int)->Ok_0;
            let value = s.totals.stake_value(s.shares as int);
            &&& value <= s.amount
            &&& (s.amount - value) * s.totals.total_stake_shares < totals.total_for_staking
                + s.totals.total_stake_shares
            &&& totals.total_stake_shares == 0 ==> value == s.amount
        }),
{
    let s = totals.staked(account, amount as int)->Ok_0;
    let a = s.amount as int;
    let b = s.shares as int;
    let t = totals.total_for_staking as int;
    let n = totals.total_stake_shares as int;
    let value = b * (t + a) / (n + b);
    if n == 0 {
        assert(b * (0 + a) == a * (0 + b)) by (nonlinear_arith);
        vstd::arithmetic::div_mod::lemma_div_by_multiple(a, b);
        assert((a - a) * b == 0) by (nonlinear_arith);
    } else {
        lemma_quotient(n * a, t);
        lemma_quotient(b * (t + a), n + b);
        assert(b * (t + a) <= a * (n + b)) by (nonlinear_arith)
            requires
                b * t <= n * a,
        ;
        lemma_quotient_at_most(b * (t + a), n + b, a);
        assert((a - value) * (n + b) < t + (n + b)) by (nonlinear_arith)
            requires
                n * a < b * t + t,
                b * (t + a) < value * (n + b) + (n + b),
        ;
    }
}

/// Unstaking a number of stNEAR at their value never lowers the price of stNEAR.
pub proof fn law_unstake_shares_keeps_share_price(
    totals: Totals,
    account: Account,
    shares: nat,
    unlock_epoch: nat,
)
    requires
        totals.unstaked(
            account,
            shares as int,
            totals.stake_value(shares as int),
            unlock_epoch as int,
        ) is Ok,
    ensures
        price_not_lower(
            totals,
            totals.unstaked(
                account,
                shares as int,
                totals.stake_value(shares as int),
                unlock_epoch as int,
            )->Ok_0.0,
        ),
{
    let t = totals.total_for_staking as int;
    let n = totals.total_stake_shares as int;
    let b = shares as int;
    let a = totals.stake_value(b);
    if n > 0 {
        lemma_quotient(b * t, n);
        assert((t - a) * n >= t * (n - b)) by (nonlinear_arith)
            requires
                a * n <= b * t,
        ;
    } else {
        assert(t * 0 == 0) by (nonlinear_arith);
        assert(a * 0 == 0) by (nonlinear_arith);
    }
}

/// Unstaking an amount of NEAR burns stNEAR rounded down. It lowers the price by less
/// than one yocto of stNEAR does that nobody paid for.
pub proof fn law_unstake_amount_nearly_keeps_share_price(
    totals: Totals,
    account: Account,
    amount: nat,
    unlock_epoch: nat,
)
    requires
        totals.total_stake_shares > 0,
        totals.unstaked(
            account,
            totals.stake_shares_for(amount as int),
            amount as int,
            unlock_epoch as int,
        ) is Ok,
    ensures
        ({
            let after = totals.unstaked(
                account,
                totals.stake_shares_for(amount as int),
                amount as int,
                unlock_epoch as int,
            )->Ok_0.0;
            after.total_for_staking * totals.total_stake_shares > totals.total_for_staking * (
            after.total_stake_shares - 1)
        }),
{
    let t = totals.total_for_staking as int;
    let n = totals.total_stake_shares as int;
    let a = amount as int;
    let b = totals.stake_shares_for(a);
    lemma_quotient(n * a, t);
    assert((t - a) * n > t * (n - b - 1)) by (nonlinear_arith)
        requires
            n * a < b * t + t,
    ;
}

/// The exchange of the liquidity pool's stNEAR for NEAR that has just come in never
/// lowers the price of stNEAR if the pool gives up all it has.
pub proof fn law_full_clearing_keeps_share_price(totals: Totals, nslp: Account, amount: nat)
    requires
        amount >= totals.stake_value(nslp.stake_shares as int),
        totals.cleared(nslp, amount as int) is Ok,
    ensures
        price_not_lower(totals, totals.cleared(nslp, amount as int)->Ok_0.0),
{
    let t = totals.total_for_staking as int;
    let n = totals.total_stake_shares as int;
    let b = nslp.stake_shares as int;
    let a = totals.stake_value(b);
    if b > 0 && n > 0 {
        lemma_quotient(b * t, n);
        assert((t - a) * n >= t * (n - b)) by (nonlinear_arith)
            requires
                a * n <= b * t,
        ;
    } else {
        assert(t * 0 == 0) by (nonlinear_arith);
        assert(a * 0 == 0) by (nonlinear_arith);
        assert((t - 0) * n == t * (n - 0)) by (nonlinear_arith);
    }
}

/// An exchange that takes part of the liquidity pool's stNEAR is the inverse of staking:
/// it brings back the totals from before the NEAR was staked, and burns exactly the
/// stNEAR that was minted for it.
pub proof fn law_clearing_undoes_staking(
    totals: Totals,
    account: Account,
    amount: nat,
    nslp: Account,
)
    requires
        totals.total_stake_shares > 0,
        totals.staked(account, amount as int) is Ok,
        ({
            let s = totals.staked(account, amount as int)->Ok_0;
            &&& s.amount < s.totals.stake_value(nslp.stake_shares as int)
            &&& s.totals.cleared(nslp, s.amount as int) is Ok
        }),
    ensures
        ({
            let s = totals.staked(account, amount as int)->Ok_0;
            let (after, pool) = s.totals.cleared(nslp, s.amount as int)->Ok_0;
            &&& after.total_for_staking == totals.total_for_staking
            &&& after.total_stake_shares == totals.total_stake_shares
            &&& after.epoch_stake_orders == totals.epoch_stake_orders
            &&& pool.available == nslp.available + s.amount
            &&& pool.stake_shares == nslp.stake_shares - s.shares
        }),
{
    let s = totals.staked(account, amount as int)->Ok_0;
    let a = s.amount as int;
    let b = s.shares as int;
    let t = totals.total_for_staking as int;
    let n = totals.total_stake_shares as int;
    assert(s.totals.stake_value(0) == 0);
    lemma_quotient(n * a, t);
    assert(b * (t + a) <= (n + b) * a < b * (t + a) + (t + a)) by (nonlinear_arith)
        requires
            b * t <= n * a < b * t + t,
            a >= 0,
    ;
    lemma_quotient_at_least((n + b) * a, t + a, b);
    assert((n + b) * a / (t + a) == b) by {
        lemma_quotient((n + b) * a, t + a);
        let q = (n + b) * a / (t + a);
        assert(q <= b) by (nonlinear_arith)
            requires
                q * (t + a) <= (n + b) * a,
                (n + b) * a < b * (t + a) + (t + a),
                t + a > 0,
        ;
    }
}

/// Staking a deposit never lowers the price of stNEAR, whatever the liquidity pool
/// makes of it.
pub proof fn law_deposit_and_stake_keeps_share_price(
    books: Books,
    id: Seq<char>,
    amount: u128,
    min_deposit_amount: u128,
)
    requires
        books.totals.total_stake_shares > 0,
        books.deposit_and_stake(id, amount, min_deposit_amount) is Ok,
    ensures
        price_not_lower(
            books.totals,
            books.deposit_and_stake(id, amount, min_deposit_amount)->Ok_0.0.totals,
        ),
{
    let nslp = books.account(nslp_id());
    let (totals, account) = books.totals.deposited(books.account(id), amount as int)->Ok_0;
    let s = totals.staked(account, amount as int)->Ok_0;
    law_stake_keeps_share_price(totals, account, amount as nat);
    if nslp.stake_shares > 0 {
        let cleared = s.totals.cleared(nslp, s.amount as int)->Ok_0.0;
        if s.amount < s.totals.stake_value(nslp.stake_shares as int) {
            law_clearing_undoes_staking(totals, account, amount as nat, nslp);
        } else {
            law_full_clearing_keeps_share_price(s.totals, nslp, s.amount as nat);
            let (t, n) = (totals.total_for_staking as int, totals.total_stake_shares as int);
            let (t1, n1) = (
                s.totals.total_for_staking as int,
                s.totals.total_stake_shares as int,
            );
            let (t2, n2) = (cleared.total_for_staking as int, cleared.total_stake_shares as int);
            assert(t2 * n >= t * n2) by (nonlinear_arith)
                requires
                    t1 * n >= t * n1,
                    t2 * n1 >= t1 * n2,
                    n1 > 0,
                    n >= 0,
                    n2 >= 0,
            ;
        }
    }
}

/// Whether two totals agree on what is selected for staking and on the stNEAR for it.
pub open spec fn same_price(before: Totals, after: Totals) -> bool {
    &&& after.total_for_staking == before.total_for_staking
    &&& after.total_stake_shares == before.total_stake_shares
}

/// Withdrawing, swapping, and adding or removing liquidity neither mint nor burn stNEAR,
/// and leave its price.
pub proof fn law_other_calls_leave_share_price(
    books: Books,
    terms: SwapTerms,
    id: Seq<char>,
    treasury: Seq<char>,
    operator: Seq<char>,
    amount: u128,
    limit: u128,
    epoch_height: u64,
)
    ensures
        books.withdraw(id, amount as int, epoch_height as int) matches Ok(after) ==> same_price(
            books.totals,
            after.totals,
        ),
        books.swap(terms, id, treasury, operator, amount as int, limit) matches Ok(result)
            ==> same_price(books.totals, result.0.totals),
        books.add_liquidity(id, amount, limit) matches Ok(result) ==> same_price(
            books.totals,
            result.0.totals,
        ),
        books.remove_liquidity(id, amount as int) matches Ok(result) ==> same_price(
            books.totals,
            result.0.totals,
        ),
{
}

/// Adding liquidity never lowers the price of a share of the liquidity pool.
pub proof fn law_add_liquidity_keeps_pool_price(
    totals: Totals,
    account: Account,
    nslp: Account,
    amount: nat,
)
    requires
        nslp.nslp_shares > 0,
        totals.liquidity_added(account, nslp, amount as int) is Ok,
    ensures
        ({
            let l = totals.liquidity_added(account, nslp, amount as int)->Ok_0;
            l.totals.nslp_value(l.nslp) * nslp.nslp_shares >= totals.nslp_value(nslp)
                * l.nslp.nslp_shares
        }),
{
    let (_, _, taken) = totals.taken(account, amount as int)->Ok_0;
    let value = totals.nslp_value(nslp);
    if value > 0 {
        law_shares_keep_price(taken as nat, value as nat, nslp.nslp_shares as nat);
    }
}

/// Removing liquidity takes out of the liquidity pool what was asked for, up to one
/// yocto that the stNEAR left in it may lose to rounding.
pub proof fn law_remove_liquidity_takes_its_value(
    totals: Totals,
    account: Account,
    nslp: Account,
    amount: nat,
)
    requires
        totals.liquidity_removed(account, nslp, amount as int) is Ok,
    ensures
        ({
            let l = totals.liquidity_removed(account, nslp, amount as int)->Ok_0;
            let (removed, burned) = totals.removal(account, nslp, amount as int);
            let left = l.totals.nslp_value(l.nslp);
            &&& totals.nslp_value(nslp) - removed - 1 <= left <= totals.nslp_value(nslp) - removed
            &&& l.nslp.nslp_shares == nslp.nslp_shares - burned
        }),
{
    let l = totals.liquidity_removed(account, nslp, amount as int)->Ok_0;
    let t = totals.total_for_staking as int;
    let n = totals.total_stake_shares as int;
    let held = nslp.stake_shares as int;
    let out = l.st_near as int;
    if n > 0 {
        assert(0 * t == 0) by (nonlinear_arith);
        vstd::arithmetic::div_mod::lemma_div_basics(n);
        lemma_quotient(held * t, n);
        lemma_quotient(out * t, n);
        lemma_quotient((held - out) * t, n);
        let x = held * t / n;
        let y = out * t / n;
        let z = (held - out) * t / n;
        assert(x - y - 1 <= z <= x - y) by (nonlinear_arith)
            requires
                n > 0,
                x * n <= held * t < x * n + n,
                y * n <= out * t < y * n + n,
                z * n <= (held - out) * t < z * n + n,
        ;
    }
}

/// A swap raises the value of the liquidity pool, by at least what one yocto of stNEAR
/// is worth, and creates no shares of it: it adds stNEAR of a larger value than the
/// NEAR that it removes.
pub proof fn law_swap_raises_pool_value(
    totals: Totals,
    terms: SwapTerms,
    user: Account,
    nslp: Account,
    treasury: Account,
    operator: Account,
    developers: Account,
    st_near_to_burn: nat,
    min_expected_near: u128,
)
    requires
        terms.wf(),
        ({
            let quote = totals.quoted(
                terms,
                user,
                nslp,
                st_near_to_burn as int,
                min_expected_near,
            );
            &&& quote is Ok
            &&& totals.settled(
                terms,
                quote->Ok_0,
                user,
                nslp,
                treasury,
                operator,
                developers,
            ) is Ok
        }),
    ensures
        ({
            let quote = totals.quoted(
                terms,
                user,
                nslp,
                st_near_to_burn as int,
                min_expected_near,
            )->Ok_0;
            let s = totals.settled(
                terms,
                quote,
                user,
                nslp,
                treasury,
                operator,
                developers,
            )->Ok_0;
            &&& s.totals.nslp_value(s.nslp) >= totals.nslp_value(nslp) + totals.stake_value(1)
            &&& s.nslp.nslp_shares == nslp.nslp_shares
        }),
{
    let quote = totals.quoted(terms, user, nslp, st_near_to_burn as int, min_expected_near)->Ok_0;
    let s = totals.settled(terms, quote, user, nslp, treasury, operator, developers)->Ok_0;
    let t = totals.total_for_staking as int;
    let n = totals.total_stake_shares as int;
    let sold = quote.st_near as int;
    let fee = quote.fee as int;
    let fee_shares = quote.fee_st_near as int;
    let value = quote.value as int;
    let near = quote.near as int;
    let held = nslp.stake_shares as int;
    let to_pool = sold - Totals::cuts(terms, fee_shares);
    assert(Totals::cuts(terms, fee_shares) >= 0) by {
        assert(terms.treasury_cut_basis_points * fee_shares >= 0) by (nonlinear_arith)
            requires
                fee_shares >= 0,
        ;
        assert(terms.operator_cut_basis_points * fee_shares >= 0) by (nonlinear_arith)
            requires
                fee_shares >= 0,
        ;
    }
    let discount = terms.discount(nslp.available as int, totals.stake_value(sold));
    assert(fee == totals.stake_value(sold) - near) by {
        let available = nslp.available as nat;
        let out = quote.value as nat;
        law_discount_falls_with_liquidity(terms, available, out, available, out);
        assert(discount * value >= 0) by (nonlinear_arith)
            requires
                discount >= 0,
                value >= 0,
        ;
    }
    assert(fee_shares > 0 && to_pool >= sold - fee_shares + 1);
    if n == 0 {
        assert(value == 0);
        assert(terms.discount(nslp.available as int, 0) * 0 == 0) by (nonlinear_arith);
        assert(fee == 0);
        assert(false);
    }
    assert(fee != 0 && t != 0);
    lemma_quotient(n * fee, t);
    assert(0 * t == 0) by (nonlinear_arith);
    vstd::arithmetic::div_mod::lemma_div_basics(n);
    lemma_quotient(sold * t, n);
    lemma_quotient(held * t, n);
    lemma_quotient(1 * t, n);
    let x = held * t / n;
    let one = 1 * t / n;
    assert((held + to_pool) * t >= (x + near + one) * n) by (nonlinear_arith)
        requires
            to_pool >= sold - fee_shares + 1,
            fee_shares * t <= n * fee,
            value * n <= sold * t,
            near == value - fee,
            x * n <= held * t,
            one * n <= 1 * t,
            t > 0,
    ;
    lemma_quotient_at_least((held + to_pool) * t, n, x + near + one);
}

/// The seller in a swap gets at least what was expected of it. One that had nothing
/// available gets exactly the quoted NEAR.
pub proof fn law_swap_pays_what_is_quoted(
    totals: Totals,
    terms: SwapTerms,
    user: Account,
    nslp: Account,
    treasury: Account,
    operator: Account,
    developers: Account,
    st_near_to_burn: nat,
    min_expected_near: u128,
)
    requires
        ({
            let quote = totals.quoted(
                terms,
                user,
                nslp,
                st_near_to_burn as int,
                min_expected_near,
            );
            &&& quote is Ok
            &&& totals.settled(
                terms,
                quote->Ok_0,
                user,
                nslp,
                treasury,
                operator,
                developers,
            ) is Ok
        }),
    ensures
        ({
            let quote = totals.quoted(
                terms,
                user,
                nslp,
                st_near_to_burn as int,
                min_expected_near,
            )->Ok_0;
            let s = totals.settled(
                terms,
                quote,
                user,
                nslp,
                treasury,
                operator,
                developers,
            )->Ok_0;
            &&& s.transfer >= quote.near >= min_expected_near
            &&& user.available == 0 ==> s.transfer == quote.near
        }),
{
}

/// A swap leaves no dust: the seller keeps nothing, or at least a thousandth of a
/// whole stNEAR. It keeps nothing if it asked for something close to all.
pub proof fn law_swap_leaves_no_dust(
    totals: Totals,
    terms: SwapTerms,
    user: Account,
    nslp: Account,
    st_near_to_burn: nat,
    min_expected_near: u128,
)
    requires
        totals.quoted(terms, user, nslp, st_near_to_burn as int, min_expected_near) is Ok,
    ensures
        ({
            let quote: SwapQuote = totals.quoted(
                terms,
                user,
                nslp,
                st_near_to_burn as int,
                min_expected_near,
            )->Ok_0;
            let left = user.stake_shares - quote.st_near;
            &&& left == 0 || left >= ONE_MILLI_NEAR
            &&& close(st_near_to_burn as int, user.stake_shares as int) ==> left == 0
        }),
{
}

/// Taking NEAR from what is available leaves no dust.
pub proof fn law_taking_leaves_no_dust(totals: Totals, account: Account, amount: nat)
    requires
        totals.taken(account, amount as int) is Ok,
    ensures
        ({
            let (_, rest, taken) = totals.taken(account, amount as int)->Ok_0;
            &&& rest.available == 0 || rest.available >= ONE_MILLI_NEAR
            &&& close(amount as int, account.available as int) ==> rest.available == 0
            &&& taken == account.available - rest.available
        }),
{
}

/// Removing liquidity leaves no dust: the account keeps no shares of the liquidity
/// pool, or shares that were worth at least a thousandth of a NEAR more than what it
/// asked for.
pub proof fn law_remove_liquidity_leaves_no_dust(
    totals: Totals,
    account: Account,
    nslp: Account,
    amount: nat,
)
    requires
        totals.liquidity_removed(account, nslp, amount as int) is Ok,
    ensures
        ({
            let l = totals.liquidity_removed(account, nslp, amount as int)->Ok_0;
            let owned = totals.nslp_amount_for(account.nslp_shares as int, nslp);
            &&& l.account.nslp_shares == 0 || owned - amount >= ONE_MILLI_NEAR
            &&& close(amount as int, owned) ==> l.account.nslp_shares == 0
        }),
{
}

/// The more liquidity a swap leaves, the lower is its fee; the fee stays in its range.
pub proof fn law_discount_falls_with_liquidity(
    terms: SwapTerms,
    available: nat,
    near_out: nat,
    more_available: nat,
    other_out: nat,
)
    requires
        terms.wf(),
        available - near_out <= more_available - other_out,
    ensures
        terms.discount(available as int, near_out as int) >= terms.discount(
            more_available as int,
            other_out as int,
        ),
        terms.min_discount_basis_points <= terms.discount(available as int, near_out as int)
            <= terms.max_discount_basis_points,
{
    let left = available - near_out;
    let more_left = more_available - other_out;
    let range = terms.max_discount_basis_points - terms.min_discount_basis_points;
    let target = terms.liquidity_target as int;
    if 0 < left < target {
        assert(0 <= range * left <= range * target) by (nonlinear_arith)
            requires
                0 <= range,
                0 < left < target,
        ;
        lemma_quotient_at_most(range * left, target, range);
        lemma_quotient_at_least(range * left, target, 0);
    }
    if 0 < more_left < target {
        assert(0 <= range * more_left <= range * target) by (nonlinear_arith)
            requires
                0 <= range,
                0 < more_left < target,
        ;
        lemma_quotient_at_least(range * more_left, target, 0);
        if 0 < left {
            assert(range * left <= range * more_left) by (nonlinear_arith)
                requires
                    0 <= range,
                    left <= more_left,
            ;
            vstd::arithmetic::div_mod::lemma_div_is_ordered(
                range * left,
                range * more_left,
                target,
            );
        }
    }
}

} // verus!
