//! What every call to a staking pool keeps true: its shares are never worth less, and
//! what it owes is covered.

use vstd::prelude::*;

use crate::account_map::{
    distinct, lemma_filed, lemma_total_filed, lemma_total_withdrawn, lemma_withdrawn, total,
};
use crate::reward_fee::lemma_fraction_at_most_all;
use crate::stake::{Account, Pinged, PoolBooks, PoolCall, Stake};
use crate::types::{ContractError, RewardFeeFraction, NUM_EPOCHS_TO_UNLOCK};
use crate::utils::{lemma_quotient, lemma_quotient_at_least, lemma_quotient_at_most};

verus! {

/// The shares of all delegators.
pub open spec fn sum_shares(accounts: Seq<(Seq<char>, Account)>) -> int {
    total(accounts, |a: Account| a.stake_shares as int)
}

/// What all delegators have unstaked.
pub open spec fn sum_unstaked(accounts: Seq<(Seq<char>, Account)>) -> int {
    total(accounts, |a: Account| a.unstaked as int)
}

/// The shares that belong to no delegator, so that they can be neither unstaked nor
/// withdrawn.
pub open spec fn unowned_shares(books: PoolBooks) -> int {
    books.stake.total_stake_shares - sum_shares(books.accounts)
}

/// What the pool holds beyond all that it owes: the guarantee fund.
pub open spec fn guarantee(books: PoolBooks) -> int {
    books.stake.last_total_balance - books.stake.total_staked_balance - sum_unstaked(books.accounts)
}

/// Whether a share is worth at least as much in `after` as in `before`.
pub open spec fn price_not_lower(before: Stake, after: Stake) -> bool {
    after.total_staked_balance * before.total_stake_shares >= before.total_staked_balance
        * after.total_stake_shares
}

/// Whether no delegator is kept twice, some shares belong to nobody, and a share is
/// worth at least one.
pub open spec fn healthy(books: PoolBooks) -> bool {
    &&& distinct(books.accounts)
    &&& unowned_shares(books) > 0
    &&& books.stake.total_staked_balance >= books.stake.total_stake_shares
}

/// What every call keeps: a healthy pool stays healthy, the shares that belong to
/// nobody stay as many, the price of a share does not fall, and the guarantee fund pays
/// at most one yocto.
pub open spec fn kept(before: PoolBooks, after: PoolBooks) -> bool {
    healthy(before) ==> {
        &&& healthy(after)
        &&& unowned_shares(after) == unowned_shares(before)
        &&& price_not_lower(before.stake, after.stake)
        &&& guarantee(before) - 1 <= guarantee(after) <= guarantee(before)
    }
}

/// Staking never lowers the price of a share. It charges at most the amount asked for,
/// and the guarantee fund adds at most one yocto.
pub proof fn law_stake_keeps_share_price(stake: Stake, account: Account, amount: nat)
    requires
        stake.staked(account, amount as int) is Ok,
    ensures
        ({
            let (after, charged) = stake.staked(account, amount as int)->Ok_0;
            let paid = account.unstaked - charged.unstaked;
            &&& price_not_lower(stake, after)
            &&& paid <= amount
            &&& paid <= after.total_staked_balance - stake.total_staked_balance <= paid + 1
        }),
{
    let t = stake.total_staked_balance as int;
    let n = stake.total_stake_shares as int;
    let a = amount as int;
    let b = stake.shares_down(a);
    if n == 0 {
        assert(n * a == 0) by (nonlinear_arith)
            requires
                n == 0,
        ;
        vstd::arithmetic::div_mod::lemma_div_basics(t);
        assert(false);
    }
    let down = stake.amount_down(b);
    let up = stake.amount_up(b);
    lemma_quotient(n * a, t);
    lemma_quotient(t * b, n);
    lemma_quotient(t * b + n - 1, n);
    assert((t + up) * n >= t * (n + b)) by (nonlinear_arith)
        requires
            t * b + n - 1 < up * n + n,
    ;
    assert(down <= up <= down + 1) by (nonlinear_arith)
        requires
            n > 0,
            down * n <= t * b < down * n + n,
            up * n <= t * b + n - 1 < up * n + n,
    ;
    assert(t * b <= a * n) by (nonlinear_arith)
        requires
            b * t <= n * a,
    ;
    lemma_quotient_at_most(t * b, n, a);
}

/// Unstaking never lowers the price of a share. It gives at least the amount asked for,
/// and the guarantee fund adds at most one yocto.
pub proof fn law_unstake_keeps_share_price(
    stake: Stake,
    account: Account,
    amount: nat,
    epoch_height: nat,
)
    requires
        stake.unstaked(account, amount as int, epoch_height as int) is Ok,
    ensures
        ({
            let (after, credited) = stake.unstaked(
                account,
                amount as int,
                epoch_height as int,
            )->Ok_0;
            let received = credited.unstaked - account.unstaked;
            &&& price_not_lower(stake, after)
            &&& received >= amount
            &&& received - 1 <= stake.total_staked_balance - after.total_staked_balance <= received
        }),
{
    let t = stake.total_staked_balance as int;
    let n = stake.total_stake_shares as int;
    let a = amount as int;
    let b = stake.shares_up(a);
    let down = stake.amount_down(b);
    let up = stake.amount_up(b);
    lemma_quotient(n * a + t - 1, t);
    lemma_quotient(t * b, n);
    lemma_quotient(t * b + n - 1, n);
    assert((t - down) * n >= t * (n - b)) by (nonlinear_arith)
        requires
            down * n <= t * b,
    ;
    assert(down <= up <= down + 1) by (nonlinear_arith)
        requires
            n > 0,
            down * n <= t * b < down * n + n,
            up * n <= t * b + n - 1 < up * n + n,
    ;
    assert(t * b + n - 1 >= a * n) by (nonlinear_arith)
        requires
            n > 0,
            n * a + t - 1 < b * t + t,
    ;
    lemma_quotient_at_least(t * b + n - 1, n, a);
}

/// Sharing out rewards never lowers the price of a share.
pub proof fn law_ping_keeps_share_price(
    stake: Stake,
    fraction: RewardFeeFraction,
    owner_account: Account,
    call: &PoolCall,
)
    requires
        fraction.valid(),
        stake.pinged(fraction, owner_account, call) is Ok,
    ensures
        price_not_lower(stake, stake.pinged(fraction, owner_account, call)->Ok_0.stake),
{
    let t = stake.total_staked_balance as int;
    let n = stake.total_stake_shares as int;
    let balance = call.account_locked_balance + call.account_balance - call.attached_deposit;
    let reward = balance - stake.last_total_balance;
    if stake.last_epoch_height != call.epoch_height && reward > 0 {
        let fee = fraction.of(reward);
        lemma_fraction_at_most_all(fraction, reward);
        let raised = t + reward - fee;
        let bought = n * fee / raised;
        lemma_quotient(n * fee, raised);
        assert(n * fee >= 0) by (nonlinear_arith)
            requires
                n >= 0,
                fee >= 0,
        ;
        lemma_quotient_at_least(n * fee, raised, 0);
        assert((t + reward) * n >= t * (n + bought)) by (nonlinear_arith)
            requires
                bought * raised <= n * fee,
                t <= raised,
                0 <= bought,
                fee <= reward,
                0 <= n,
        ;
    }
}

/// Unstaking all asks for what the delegator's shares are worth, and never for more
/// shares than it has.
pub proof fn law_unstake_all_has_enough(stake: Stake, account: Account)
    requires
        stake.total_stake_shares > 0,
        stake.total_staked_balance > 0,
    ensures
        stake.shares_up(stake.amount_down(account.stake_shares as int)) <= account.stake_shares,
{
    let t = stake.total_staked_balance as int;
    let n = stake.total_stake_shares as int;
    let owned = account.stake_shares as int;
    let a = stake.amount_down(owned);
    lemma_quotient(t * owned, n);
    lemma_quotient(n * a + t - 1, t);
    assert(stake.shares_up(a) <= owned) by (nonlinear_arith)
        requires
            t > 0,
            a * n <= t * owned,
            stake.shares_up(a) * t <= n * a + t - 1,
    ;
}

/// What has been unstaked cannot be withdrawn in the four epochs that follow, and can be
/// withdrawn afterwards, as far as the pool holds it.
pub proof fn law_unstaked_is_locked_for_four_epochs(
    stake: Stake,
    account: Account,
    amount: nat,
    epoch_height: nat,
    asked: nat,
    later: Stake,
    later_epoch: nat,
)
    requires
        stake.unstaked(account, amount as int, epoch_height as int) is Ok,
        0 < asked <= stake.unstaked(account, amount as int, epoch_height as int)->Ok_0.1.unstaked,
    ensures
        ({
            let credited = stake.unstaked(account, amount as int, epoch_height as int)->Ok_0.1;
            let paid = later.withdrawn(credited, asked as int, later_epoch as int);
            &&& later_epoch < epoch_height + NUM_EPOCHS_TO_UNLOCK ==> paid == Err::<
                (Stake, Account),
                ContractError,
            >(
                ContractError::UnstakedNotAvailable {
                    unlock_epoch: (epoch_height + NUM_EPOCHS_TO_UNLOCK) as u64,
                },
            )
            &&& later_epoch >= epoch_height + NUM_EPOCHS_TO_UNLOCK && later.last_total_balance
                >= asked ==> paid is Ok
        }),
{
}

/// Rewards are shared out once per epoch: after that, whoever calls in the same epoch
/// finds nothing to share out.
pub proof fn law_rewards_are_shared_once(
    stake: Stake,
    fraction: RewardFeeFraction,
    owner_account: Account,
    call: &PoolCall,
    other_fraction: RewardFeeFraction,
    other_account: Account,
    other_call: &PoolCall,
)
    requires
        stake.pinged(fraction, owner_account, call) is Ok,
        other_call.epoch_height == call.epoch_height,
    ensures
        ({
            let p = stake.pinged(fraction, owner_account, call)->Ok_0;
            p.stake.pinged(other_fraction, other_account, other_call) == Ok::<
                Pinged,
                ContractError,
            >(Pinged { stake: p.stake, owner_account: None, new_epoch: false })
        }),
{
}

/// Saving one account changes each sum by the difference to what was known of it.
proof fn lemma_with(books: PoolBooks, stake: Stake, id: Seq<char>, account: Account)
    requires
        distinct(books.accounts),
    ensures
        ({
            let after = books.with(stake, id, account);
            let known = books.account(id);
            &&& distinct(after.accounts)
            &&& sum_shares(after.accounts) == sum_shares(books.accounts) + account.stake_shares
                - known.stake_shares
            &&& sum_unstaked(after.accounts) == sum_unstaked(books.accounts) + account.unstaked
                - known.unstaked
        }),
{
    let accounts = books.accounts;
    let m1 = |a: Account| a.stake_shares as int;
    let m2 = |a: Account| a.unstaked as int;
    if account.unstaked > 0 || account.stake_shares > 0 {
        lemma_filed(accounts, id, account);
        lemma_total_filed(accounts, id, account, m1);
        lemma_total_filed(accounts, id, account, m2);
    } else {
        lemma_withdrawn(accounts, id);
        lemma_total_withdrawn(accounts, id, m1);
        lemma_total_withdrawn(accounts, id, m2);
    }
}

proof fn lemma_sum_shares_nonnegative(accounts: Seq<(Seq<char>, Account)>)
    ensures
        sum_shares(accounts) >= 0,
    decreases accounts.len(),
{
    if accounts.len() > 0 {
        lemma_sum_shares_nonnegative(accounts.drop_last());
    }
}

/// A healthy pool has shares.
pub proof fn lemma_shares_exist(books: PoolBooks)
    requires
        healthy(books),
    ensures
        books.stake.total_stake_shares > 0,
{
    lemma_sum_shares_nonnegative(books.accounts);
}

/// Where the price of a share does not fall, a share that was worth at least one stays
/// so.
proof fn lemma_price_stays_at_least_one(before: Stake, after: Stake)
    requires
        price_not_lower(before, after),
        before.total_stake_shares > 0,
        before.total_staked_balance >= before.total_stake_shares,
    ensures
        after.total_staked_balance >= after.total_stake_shares,
{
    let t = before.total_staked_balance as int;
    let n = before.total_stake_shares as int;
    let t2 = after.total_staked_balance as int;
    let n2 = after.total_stake_shares as int;
    assert(t2 >= n2) by (nonlinear_arith)
        requires
            t2 * n >= t * n2,
            t >= n,
            n > 0,
            n2 >= 0,
    ;
}

/// Sharing out rewards keeps a pool healthy, leaves the shares that belong to nobody and
/// does not touch the guarantee fund.
pub proof fn law_ping_keeps_books(
    books: PoolBooks,
    fraction: RewardFeeFraction,
    owner: Seq<char>,
    call: &PoolCall,
)
    requires
        fraction.valid(),
        books.stake.pinged(fraction, books.account(owner), call) is Ok,
        healthy(books),
    ensures
        ({
            let p = books.stake.pinged(fraction, books.account(owner), call)->Ok_0;
            let after = books.after(p, owner);
            &&& healthy(after)
            &&& unowned_shares(after) == unowned_shares(books)
            &&& price_not_lower(books.stake, after.stake)
            &&& guarantee(after) == guarantee(books)
        }),
{
    let p = books.stake.pinged(fraction, books.account(owner), call)->Ok_0;
    law_ping_keeps_share_price(books.stake, fraction, books.account(owner), call);
    lemma_sum_shares_nonnegative(books.accounts);
    lemma_price_stays_at_least_one(books.stake, p.stake);
    if p.owner_account is Some {
        lemma_with(books, p.stake, owner, p.owner_account->0);
    }
}

/// A movement of one account keeps a pool healthy if it changes the shares of the pool
/// as those of the account, does not lower the price, and takes at most one yocto from
/// the guarantee fund.
proof fn lemma_movement_keeps_books(
    books: PoolBooks,
    stake: Stake,
    id: Seq<char>,
    account: Account,
)
    requires
        healthy(books),
        price_not_lower(books.stake, stake),
        stake.total_stake_shares - books.stake.total_stake_shares == account.stake_shares
            - books.account(id).stake_shares,
        ({
            let paid = (stake.total_staked_balance - books.stake.total_staked_balance) + (
            account.unstaked - books.account(id).unstaked) - (stake.last_total_balance
                - books.stake.last_total_balance);
            0 <= paid <= 1
        }),
    ensures
        kept(books, books.with(stake, id, account)),
{
    lemma_sum_shares_nonnegative(books.accounts);
    lemma_price_stays_at_least_one(books.stake, stake);
    lemma_with(books, stake, id, account);
}

/// A deposit keeps the books.
pub proof fn law_deposit_keeps_books(books: PoolBooks, id: Seq<char>, amount: nat)
    requires
        books.stake.deposited(books.account(id), amount as int) is Ok,
    ensures
        ({
            let (stake, account) = books.stake.deposited(books.account(id), amount as int)->Ok_0;
            kept(books, books.with(stake, id, account))
        }),
{
    let (stake, account) = books.stake.deposited(books.account(id), amount as int)->Ok_0;
    if healthy(books) {
        lemma_movement_keeps_books(books, stake, id, account);
    }
}

/// Staking keeps the books.
pub proof fn law_stake_keeps_books(books: PoolBooks, id: Seq<char>, amount: nat)
    requires
        books.stake.staked(books.account(id), amount as int) is Ok,
    ensures
        ({
            let (stake, account) = books.stake.staked(books.account(id), amount as int)->Ok_0;
            kept(books, books.with(stake, id, account))
        }),
{
    let (stake, account) = books.stake.staked(books.account(id), amount as int)->Ok_0;
    if healthy(books) {
        law_stake_keeps_share_price(books.stake, books.account(id), amount);
        lemma_movement_keeps_books(books, stake, id, account);
    }
}

/// A deposit that is staked right away keeps the books.
pub proof fn law_deposit_and_stake_keeps_books(books: PoolBooks, id: Seq<char>, amount: nat)
    requires
        ({
            let deposited = books.stake.deposited(books.account(id), amount as int);
            &&& deposited is Ok
            &&& deposited->Ok_0.0.staked(deposited->Ok_0.1, amount as int) is Ok
        }),
    ensures
        ({
            let (stake, account) = books.stake.deposited(books.account(id), amount as int)->Ok_0;
            let (stake, account) = stake.staked(account, amount as int)->Ok_0;
            kept(books, books.with(stake, id, account))
        }),
{
    let (deposited, credited) = books.stake.deposited(books.account(id), amount as int)->Ok_0;
    let (stake, account) = deposited.staked(credited, amount as int)->Ok_0;
    if healthy(books) {
        law_stake_keeps_share_price(deposited, credited, amount);
        lemma_movement_keeps_books(books, stake, id, account);
    }
}

/// Unstaking keeps the books.
pub proof fn law_unstake_keeps_books(
    books: PoolBooks,
    id: Seq<char>,
    amount: nat,
    epoch_height: nat,
)
    requires
        books.stake.unstaked(books.account(id), amount as int, epoch_height as int) is Ok,
    ensures
        ({
            let (stake, account) = books.stake.unstaked(
                books.account(id),
                amount as int,
                epoch_height as int,
            )->Ok_0;
            kept(books, books.with(stake, id, account))
        }),
{
    let (stake, account) = books.stake.unstaked(
        books.account(id),
        amount as int,
        epoch_height as int,
    )->Ok_0;
    if healthy(books) {
        law_unstake_keeps_share_price(books.stake, books.account(id), amount, epoch_height);
        lemma_movement_keeps_books(books, stake, id, account);
    }
}

/// Withdrawing keeps the books.
pub proof fn law_withdraw_keeps_books(
    books: PoolBooks,
    id: Seq<char>,
    amount: nat,
    epoch_height: nat,
)
    requires
        books.stake.withdrawn(books.account(id), amount as int, epoch_height as int) is Ok,
    ensures
        ({
            let (stake, account) = books.stake.withdrawn(
                books.account(id),
                amount as int,
                epoch_height as int,
            )->Ok_0;
            kept(books, books.with(stake, id, account))
        }),
{
    let (stake, account) = books.stake.withdrawn(
        books.account(id),
        amount as int,
        epoch_height as int,
    )->Ok_0;
    if healthy(books) {
        lemma_movement_keeps_books(books, stake, id, account);
    }
}

/// What keeps the books after rewards have been shared out keeps them altogether.
pub proof fn law_call_keeps_books(
    books: PoolBooks,
    fraction: RewardFeeFraction,
    owner: Seq<char>,
    call: &PoolCall,
    after: PoolBooks,
)
    requires
        fraction.valid(),
        books.stake.pinged(fraction, books.account(owner), call) is Ok,
        ({
            let p = books.stake.pinged(fraction, books.account(owner), call)->Ok_0;
            kept(books.after(p, owner), after)
        }),
    ensures
        kept(books, after),
{
    if healthy(books) {
        let p = books.stake.pinged(fraction, books.account(owner), call)->Ok_0;
        let middle = books.after(p, owner);
        law_ping_keeps_books(books, fraction, owner, call);
        lemma_sum_shares_nonnegative(middle.accounts);
        let (t, n) = (
            books.stake.total_staked_balance as int,
            books.stake.total_stake_shares as int,
        );
        let (t1, n1) = (
            middle.stake.total_staked_balance as int,
            middle.stake.total_stake_shares as int,
        );
        let (t2, n2) = (
            after.stake.total_staked_balance as int,
            after.stake.total_stake_shares as int,
        );
        assert(t2 * n >= t * n2) by (nonlinear_arith)
            requires
                t1 * n >= t * n1,
                t2 * n1 >= t1 * n2,
                n1 > 0,
                n >= 0,
                n2 >= 0,
        ;
    }
}

} // verus!
