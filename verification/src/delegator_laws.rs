//! What each call to a staking pool does, in figures: what a delegator pays and gets, by
//! products instead of quotients, and that nothing else changes.

use vstd::prelude::*;

use crate::account_map::{distinct, lemma_filed, lemma_withdrawn, lookup};
use crate::ledger::lemma_quotient_nonnegative;
use crate::reward_fee::lemma_fraction_at_most_all;
use crate::stake::{Account, Pinged, PoolBooks, PoolCall, Stake};
use crate::staking_contract::StakingContract;
use crate::types::{ContractError, RewardFeeFraction};
use crate::utils::{lemma_quotient, lemma_quotient_above};

verus! {

/// After saving an account, the books hold it, or nothing if it owns nothing, and every
/// other account as before.
pub proof fn law_saving_leaves_others(
    books: PoolBooks,
    stake: Stake,
    id: Seq<char>,
    account: Account,
)
    requires
        distinct(books.accounts),
    ensures
        ({
            let after = books.with(stake, id, account);
            &&& after.stake == stake
            &&& distinct(after.accounts)
            &&& account.unstaked > 0 || account.stake_shares > 0 ==> after.account(id) == account
            &&& account.unstaked == 0 && account.stake_shares == 0 ==> after.account(id) == (
            Account { unstaked: 0, stake_shares: 0, unstaked_available_epoch_height: 0 })
            &&& forall|other: Seq<char>|
                other != id ==> #[trigger] after.account(other) == books.account(other)
        }),
{
    let after = books.with(stake, id, account);
    if account.unstaked > 0 || account.stake_shares > 0 {
        lemma_filed(books.accounts, id, account);
    } else {
        lemma_withdrawn(books.accounts, id);
    }
    assert forall|other: Seq<char>| other != id implies #[trigger] after.account(other)
        == books.account(other) by {
        assert(lookup(after.accounts, other) == lookup(books.accounts, other));
    }
}

/// What a deposit does: the delegator has exactly that much more unstaked, and the pool
/// holds exactly that much more.
pub proof fn law_deposit_in_figures(stake: Stake, account: Account, amount: nat)
    requires
        stake.deposited(account, amount as int) is Ok,
    ensures
        ({
            let (s2, a2) = stake.deposited(account, amount as int)->Ok_0;
            &&& s2 == (Stake { last_total_balance: s2.last_total_balance, ..stake })
            &&& s2.last_total_balance == stake.last_total_balance + amount
            &&& a2 == (Account { unstaked: a2.unstaked, ..account })
            &&& a2.unstaked == account.unstaked + amount
        }),
{
}

/// What staking does: the delegator gets the shares that the amount is worth, rounded
/// down; it pays what these shares are worth, rounded down; and the stake grows by what
/// they are worth, rounded up.
pub proof fn law_stake_in_figures(stake: Stake, account: Account, amount: nat)
    requires
        stake.staked(account, amount as int) is Ok,
    ensures
        ({
            let (s2, a2) = stake.staked(account, amount as int)->Ok_0;
            let (t, n) = (stake.total_staked_balance as int, stake.total_stake_shares as int);
            let shares = a2.stake_shares - account.stake_shares;
            let paid = account.unstaked - a2.unstaked;
            let grown = s2.total_staked_balance - stake.total_staked_balance;
            &&& shares > 0 && paid > 0
            &&& shares * t <= n * amount < shares * t + t
            &&& paid * n <= t * shares < paid * n + n
            &&& grown * n - n < t * shares <= grown * n
            &&& s2 == (Stake {
                total_staked_balance: s2.total_staked_balance,
                total_stake_shares: s2.total_stake_shares,
                ..stake
            })
            &&& s2.total_stake_shares == stake.total_stake_shares + shares
            &&& a2 == (Account {
                unstaked: a2.unstaked,
                stake_shares: a2.stake_shares,
                ..account
            })
        }),
{
    let (t, n) = (stake.total_staked_balance as int, stake.total_stake_shares as int);
    let b = stake.shares_down(amount as int);
    lemma_quotient(n * amount, t);
    if n == 0 {
        assert(n * amount == 0) by (nonlinear_arith)
            requires
                n == 0,
        ;
        vstd::arithmetic::div_mod::lemma_div_basics(t);
        assert(false);
    }
    lemma_quotient(t * b, n);
    lemma_quotient(t * b + n - 1, n);
}

/// What unstaking does: the delegator gives up the shares that the amount is worth,
/// rounded up; it gets what these shares are worth, rounded up, which it can withdraw in
/// four epochs; and the stake shrinks by what they are worth, rounded down.
pub proof fn law_unstake_in_figures(
    stake: Stake,
    account: Account,
    amount: nat,
    epoch_height: nat,
)
    requires
        stake.unstaked(account, amount as int, epoch_height as int) is Ok,
    ensures
        ({
            let (s2, a2) = stake.unstaked(account, amount as int, epoch_height as int)->Ok_0;
            let (t, n) = (stake.total_staked_balance as int, stake.total_stake_shares as int);
            let shares = account.stake_shares - a2.stake_shares;
            let got = a2.unstaked - account.unstaked;
            let shrunk = stake.total_staked_balance - s2.total_staked_balance;
            &&& shares > 0
            &&& shares * t - t < n * amount <= shares * t
            &&& got * n - n < t * shares <= got * n
            &&& shrunk * n <= t * shares < shrunk * n + n
            &&& a2.unstaked_available_epoch_height == epoch_height + 4
            &&& s2 == (Stake {
                total_staked_balance: s2.total_staked_balance,
                total_stake_shares: s2.total_stake_shares,
                ..stake
            })
            &&& s2.total_stake_shares == stake.total_stake_shares - shares
        }),
{
    let (t, n) = (stake.total_staked_balance as int, stake.total_stake_shares as int);
    let b = stake.shares_up(amount as int);
    lemma_quotient(n * amount + t - 1, t);
    lemma_quotient(t * b, n);
    lemma_quotient(t * b + n - 1, n);
}

/// What a withdrawal does: exactly the amount leaves the unstaked balance of the
/// delegator, whose epoch has come, and what the pool holds.
pub proof fn law_withdraw_in_figures(
    stake: Stake,
    account: Account,
    amount: nat,
    epoch_height: nat,
)
    requires
        stake.withdrawn(account, amount as int, epoch_height as int) is Ok,
    ensures
        ({
            let (s2, a2) = stake.withdrawn(account, amount as int, epoch_height as int)->Ok_0;
            &&& amount > 0
            &&& epoch_height >= account.unstaked_available_epoch_height
            &&& s2 == (Stake { last_total_balance: s2.last_total_balance, ..stake })
            &&& s2.last_total_balance == stake.last_total_balance - amount
            &&& a2 == (Account { unstaked: a2.unstaked, ..account })
            &&& a2.unstaked == account.unstaked - amount
        }),
{
}

/// What sharing out rewards does. In a new epoch, what the account holds beyond what it
/// held at the last time is the reward. `fee` is the owner's fraction of it, rounded
/// down. The stake grows by the whole reward, and the owner gets the shares that the fee
/// buys once the rest of the reward has raised the price, rounded down: they are worth
/// the fee at the price afterwards, up to one share. In the same epoch nothing happens.
pub proof fn law_ping_in_figures(
    stake: Stake,
    fraction: RewardFeeFraction,
    owner_account: Account,
    call: &PoolCall,
    fee: int,
)
    requires
        0 < fraction.denominator && fraction.numerator <= fraction.denominator,
        stake.pinged(fraction, owner_account, call) is Ok,
        ({
            let reward = call.account_locked_balance + call.account_balance
                - call.attached_deposit - stake.last_total_balance;
            fee * fraction.denominator <= fraction.numerator * reward < fee * fraction.denominator
                + fraction.denominator
        }),
    ensures
        ({
            let p = stake.pinged(fraction, owner_account, call)->Ok_0;
            let held = call.account_locked_balance + call.account_balance - call.attached_deposit;
            let reward = held - stake.last_total_balance;
            let (t, n) = (stake.total_staked_balance as int, stake.total_stake_shares as int);
            let bought = p.stake.total_stake_shares - stake.total_stake_shares;
            let raised = t + reward - fee;
            &&& call.epoch_height == stake.last_epoch_height ==> {
                &&& p.stake == stake
                &&& p.owner_account is None
                &&& !p.new_epoch
            }
            &&& call.epoch_height != stake.last_epoch_height ==> {
                &&& p.new_epoch
                &&& reward >= 0
                &&& p.stake.last_epoch_height == call.epoch_height
                &&& p.stake.last_total_balance == held
                &&& p.stake.total_staked_balance == t + reward
                &&& reward == 0 ==> bought == 0
                &&& reward > 0 ==> bought * raised <= n * fee < bought * raised + raised
                &&& reward > 0 ==> bought * p.stake.total_staked_balance <= fee
                    * p.stake.total_stake_shares < bought * p.stake.total_staked_balance + raised
                &&& bought == 0 ==> p.owner_account is None
                &&& bought > 0 ==> p.owner_account == Some(
                    Account {
                        stake_shares: (owner_account.stake_shares + bought) as u128,
                        ..owner_account
                    },
                ) && owner_account.stake_shares + bought <= u128::MAX
            }
        }),
{
    let (t, n) = (stake.total_staked_balance as int, stake.total_stake_shares as int);
    let held = call.account_locked_balance + call.account_balance - call.attached_deposit;
    let reward = held - stake.last_total_balance;
    if call.epoch_height != stake.last_epoch_height && reward > 0 {
        let q = fraction.of(reward);
        let d = fraction.denominator as int;
        lemma_quotient(fraction.numerator * reward, d);
        assert(q == fee) by (nonlinear_arith)
            requires
                d > 0,
                q * d <= fraction.numerator * reward < q * d + d,
                fee * d <= fraction.numerator * reward < fee * d + d,
        ;
        lemma_fraction_at_most_all(fraction, reward);
        let raised = t + reward - fee;
        lemma_quotient(n * fee, raised);
        let bought = n * fee / raised;
        assert(n * fee >= 0) by (nonlinear_arith)
            requires
                n >= 0,
                fee >= 0,
        ;
        lemma_quotient_nonnegative(n * fee, raised);
        assert(bought * (t + reward) <= fee * (n + bought) < bought * (t + reward) + raised)
            by (nonlinear_arith)
            requires
                bought * raised <= n * fee < bought * raised + raised,
                raised == t + reward - fee,
        ;
    }
}

/// What a share is worth: the stake over the shares, rounded down.
pub proof fn law_share_value_in_figures(stake: Stake, shares: u128)
    ensures
        stake.total_stake_shares == 0 ==> stake.value_of(shares) == Err::<u128, ContractError>(
            ContractError::NoPrice,
        ),
        stake.total_stake_shares > 0 ==> match stake.value_of(shares) {
            Ok(value) => value * stake.total_stake_shares <= stake.total_staked_balance * shares
                < value * stake.total_stake_shares + stake.total_stake_shares,
            Err(e) => e == ContractError::Overflow && stake.total_staked_balance * shares
                > u128::MAX * stake.total_stake_shares,
        },
{
    let n = stake.total_stake_shares as int;
    let x = stake.total_staked_balance * shares;
    if n > 0 {
        lemma_quotient(x, n);
        lemma_quotient_above(x, n, u128::MAX as int);
        assert(x >= 0) by (nonlinear_arith)
            requires
                x == stake.total_staked_balance * shares,
        ;
        lemma_quotient_nonnegative(x, n);
    }
}

/// After rewards have been shared out, the figures are the new ones, the owner has its
/// new account if it got shares, and every other account is as before.
pub proof fn law_sharing_out_leaves_others(books: PoolBooks, pinged: Pinged, owner: Seq<char>)
    requires
        distinct(books.accounts),
        pinged.owner_account is Some ==> pinged.owner_account->0.stake_shares > 0,
    ensures
        ({
            let after = books.after(pinged, owner);
            &&& after.stake == pinged.stake
            &&& distinct(after.accounts)
            &&& pinged.owner_account is Some ==> after.account(owner) == pinged.owner_account->0
            &&& pinged.owner_account is None ==> after.account(owner) == books.account(owner)
            &&& forall|other: Seq<char>|
                other != owner ==> #[trigger] after.account(other) == books.account(other)
        }),
{
    if pinged.owner_account is Some {
        law_saving_leaves_others(books, pinged.stake, owner, pinged.owner_account->0);
    }
}

/// A call acts on the books in which the rewards have been shared out: it fails as its
/// movement fails there, and else leaves the figures and the account that the movement
/// gives, and every other account as it was then. It asks to stake the new total where
/// that is needed and staking is not paused.
pub proof fn law_call_acts_after_sharing_out(
    contract: StakingContract,
    call: &PoolCall,
    id: Seq<char>,
    movement: spec_fn(PoolBooks) -> Result<(Stake, Account), ContractError>,
    always_restake: bool,
    pinged: Pinged,
)
    requires
        contract.wf(),
        contract.pinged(call) == Ok::<Pinged, ContractError>(pinged),
    ensures
        ({
            let shared = contract@.after(pinged, contract.owner_id@);
            let outcome = contract.moving(call, id, movement, always_restake);
            match movement(shared) {
                Err(e) => outcome == Err::<(PoolBooks, Option<u128>), ContractError>(e),
                Ok((stake, account)) => {
                    &&& outcome is Ok
                    &&& outcome->Ok_0.0.stake == stake
                    &&& account.unstaked > 0 || account.stake_shares > 0
                        ==> outcome->Ok_0.0.account(id) == account
                    &&& account.unstaked == 0 && account.stake_shares == 0
                        ==> outcome->Ok_0.0.account(id).unstaked == 0
                        && outcome->Ok_0.0.account(id).stake_shares == 0
                    &&& forall|other: Seq<char>|
                        other != id ==> #[trigger] outcome->Ok_0.0.account(other) == shared.account(
                            other,
                        )
                    &&& outcome->Ok_0.1 == (if contract.paused || !(always_restake
                        || call.epoch_height != contract.last_epoch_height) {
                        None
                    } else {
                        Some(stake.total_staked_balance)
                    })
                },
            }
        }),
{
    let shared = contract@.after(pinged, contract.owner_id@);
    law_sharing_out_leaves_others(contract@, pinged, contract.owner_id@);
    if movement(shared) is Ok {
        let (stake, account) = movement(shared)->Ok_0;
        law_saving_leaves_others(shared, stake, id, account);
    }
}

/// Where a share is worth at least one, unstaking what all shares of a delegator are
/// worth takes exactly all of them.
pub proof fn law_unstake_all_takes_all(stake: Stake, account: Account)
    requires
        0 < stake.total_stake_shares <= stake.total_staked_balance,
    ensures
        stake.shares_up(stake.amount_down(account.stake_shares as int)) == account.stake_shares,
{
    let (t, n) = (stake.total_staked_balance as int, stake.total_stake_shares as int);
    let owned = account.stake_shares as int;
    let a = stake.amount_down(owned);
    let b = stake.shares_up(a);
    lemma_quotient(t * owned, n);
    lemma_quotient(n * a + t - 1, t);
    assert(b == owned) by (nonlinear_arith)
        requires
            0 < n <= t,
            a * n <= t * owned < a * n + n,
            b * t <= n * a + t - 1 < b * t + t,
    ;
}

} // verus!
