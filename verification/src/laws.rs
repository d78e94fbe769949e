//! What every call keeps true of the books, and what calls mean for each other.

use vstd::prelude::*;

use crate::account::{empty_account, Account};
use crate::account_map::{
    distinct, lemma_filed, lemma_total_filed, lemma_total_withdrawn, lemma_withdrawn, lookup,
    on_file, position, total,
};
use crate::books::Books;
use crate::ledger::Totals;
use crate::liquidity::SwapTerms;
use crate::metapool::{key_accounts_differ, MetaPool};
use crate::staking_pools::sum_waiting;
use crate::types::{developers_id, nslp_id, ContractError, ONE_MILLI_NEAR};
use crate::utils::close;

verus! {

/// What all accounts have available.
pub open spec fn sum_available(accounts: Seq<(Seq<char>, Account)>) -> int {
    total(accounts, |a: Account| a.available as int)
}

/// The stNEAR of all accounts.
pub open spec fn sum_stake_shares(accounts: Seq<(Seq<char>, Account)>) -> int {
    total(accounts, |a: Account| a.stake_shares as int)
}

/// The unstaked NEAR of all accounts.
pub open spec fn sum_unstaked(accounts: Seq<(Seq<char>, Account)>) -> int {
    total(accounts, |a: Account| a.unstaked as int)
}

/// The shares of the liquidity pool in all entries, with the pool's own entry.
pub open spec fn sum_nslp_shares(accounts: Seq<(Seq<char>, Account)>) -> int {
    total(accounts, |a: Account| a.nslp_shares as int)
}

/// Whether every account that is kept owns something.
pub open spec fn all_own_something(accounts: Seq<(Seq<char>, Account)>) -> bool {
    forall|i: int| 0 <= i < accounts.len() ==> !(#[trigger] accounts[i]).1.owns_nothing()
}

/// Whether the totals are the sums over the accounts: of what is available, of stNEAR
/// and of claims; whether the entry of the liquidity pool holds as many of its shares
/// as all other accounts together; and whether no account is kept in vain.
pub open spec fn sound(books: Books) -> bool {
    &&& distinct(books.accounts)
    &&& all_own_something(books.accounts)
    &&& books.totals.total_available == sum_available(books.accounts)
    &&& books.totals.total_stake_shares == sum_stake_shares(books.accounts)
    &&& books.totals.total_unstake_claims == sum_unstaked(books.accounts)
    &&& books.account(nslp_id()).nslp_shares == sum_nslp_shares(books.accounts) - books.account(
        nslp_id(),
    ).nslp_shares
}

/// The NEAR in the contract that is neither available to an account, nor reserved for
/// a claim, nor on its way to be staked.
pub open spec fn unassigned(totals: Totals) -> int {
    totals.contract_account_balance - totals.total_available - totals.retrieved_for_unstake_claims
        - totals.epoch_stake_orders
}

/// What is selected for staking, without the orders of this epoch.
pub open spec fn staked_before_orders(totals: Totals) -> int {
    totals.total_for_staking - totals.epoch_stake_orders + totals.epoch_unstake_orders
}

/// By how much reserves and orders exceed the claims of the accounts.
pub open spec fn claims_surplus(totals: Totals) -> int {
    totals.retrieved_for_unstake_claims + totals.epoch_unstake_orders - totals.total_unstake_claims
}

/// What every movement keeps: sound books, where no NEAR has come up or gone missing.
pub open spec fn kept(before: Books, after: Books) -> bool {
    &&& sound(before) ==> sound(after)
    &&& unassigned(after.totals) == unassigned(before.totals)
    &&& staked_before_orders(after.totals) == staked_before_orders(before.totals)
    &&& claims_surplus(after.totals) == claims_surplus(before.totals)
}

/// Saving one account changes each sum by the difference to what was known of it.
proof fn lemma_with(books: Books, totals: Totals, id: Seq<char>, account: Account)
    requires
        distinct(books.accounts),
        all_own_something(books.accounts),
    ensures
        ({
            let after = books.with(totals, id, account);
            let known = books.account(id);
            &&& distinct(after.accounts)
            &&& all_own_something(after.accounts)
            &&& sum_available(after.accounts) == sum_available(books.accounts) + account.available
                - known.available
            &&& sum_stake_shares(after.accounts) == sum_stake_shares(books.accounts)
                + account.stake_shares - known.stake_shares
            &&& sum_unstaked(after.accounts) == sum_unstaked(books.accounts) + account.unstaked
                - known.unstaked
            &&& sum_nslp_shares(after.accounts) == sum_nslp_shares(books.accounts)
                + account.nslp_shares - known.nslp_shares
            &&& after.account(id) == (if account.owns_nothing() {
                empty_account()
            } else {
                account
            })
            &&& forall|other: Seq<char>|
                other != id ==> #[trigger] after.account(other) == books.account(other)
        }),
{
    let accounts = books.accounts;
    let after = books.with(totals, id, account);
    let m1 = |a: Account| a.available as int;
    let m2 = |a: Account| a.stake_shares as int;
    let m3 = |a: Account| a.unstaked as int;
    let m4 = |a: Account| a.nslp_shares as int;
    if on_file(accounts, id) {
        let p = position(accounts, id);
        assert(0 <= p < accounts.len() && accounts[p].0 == id);
    }
    if account.owns_nothing() {
        lemma_withdrawn(accounts, id);
        lemma_total_withdrawn(accounts, id, m1);
        lemma_total_withdrawn(accounts, id, m2);
        lemma_total_withdrawn(accounts, id, m3);
        lemma_total_withdrawn(accounts, id, m4);
    } else {
        lemma_filed(accounts, id, account);
        lemma_total_filed(accounts, id, account, m1);
        lemma_total_filed(accounts, id, account, m2);
        lemma_total_filed(accounts, id, account, m3);
        lemma_total_filed(accounts, id, account, m4);
    }
    assert forall|other: Seq<char>| other != id implies #[trigger] after.account(other)
        == books.account(other) by {
        assert(lookup(after.accounts, other) == lookup(accounts, other));
    }
}

/// The pool starts with sound books.
pub proof fn law_empty_books_are_sound(books: Books)
    requires
        books.accounts.len() == 0,
        books.totals.total_available == 0,
        books.totals.total_stake_shares == 0,
        books.totals.total_unstake_claims == 0,
    ensures
        sound(books),
{
    assert(!on_file(books.accounts, nslp_id()));
}

/// Withdrawing keeps the books.
pub proof fn law_withdraw_keeps_books(books: Books, id: Seq<char>, amount: nat, epoch_height: nat)
    requires
        books.withdraw(id, amount as int, epoch_height as int) is Ok,
    ensures
        kept(books, books.withdraw(id, amount as int, epoch_height as int)->Ok_0),
{
    let (totals, account) = books.totals.withdrawn(
        books.account(id),
        amount as int,
        epoch_height as int,
    )->Ok_0;
    if sound(books) {
        lemma_with(books, totals, id, account);
    }
}

/// Unstaking keeps the books.
pub proof fn law_unstake_keeps_books(
    books: Books,
    id: Seq<char>,
    shares: nat,
    amount: nat,
    unlock_epoch: nat,
)
    requires
        books.unstake(id, shares as int, amount as int, unlock_epoch as int) is Ok,
    ensures
        kept(books, books.unstake(id, shares as int, amount as int, unlock_epoch as int)->Ok_0),
{
    let (totals, account) = books.totals.unstaked(
        books.account(id),
        shares as int,
        amount as int,
        unlock_epoch as int,
    )->Ok_0;
    if sound(books) {
        lemma_with(books, totals, id, account);
    }
}

/// Staking what an account has available keeps the books.
pub proof fn law_stake_keeps_books(books: Books, id: Seq<char>, amount: nat)
    requires
        books.stake(id, amount as int) is Ok,
    ensures
        kept(books, books.stake(id, amount as int)->Ok_0),
{
    let s = books.totals.staked(books.account(id), amount as int)->Ok_0;
    if sound(books) {
        lemma_with(books, s.totals, id, s.account);
    }
}

/// Staking a deposit, with the exchange that the liquidity pool makes of it, keeps the
/// books.
pub proof fn law_deposit_and_stake_keeps_books(
    books: Books,
    id: Seq<char>,
    amount: u128,
    min_deposit_amount: u128,
)
    requires
        id != nslp_id(),
        books.deposit_and_stake(id, amount, min_deposit_amount) is Ok,
    ensures
        kept(books, books.deposit_and_stake(id, amount, min_deposit_amount)->Ok_0.0),
{
    let nslp = books.account(nslp_id());
    let (totals, account) = books.totals.deposited(books.account(id), amount as int)->Ok_0;
    let s = totals.staked(account, amount as int)->Ok_0;
    let (cleared, pool) = s.totals.cleared(nslp, s.amount as int)->Ok_0;
    if sound(books) {
        let middle = books.with(s.totals, id, s.account);
        lemma_with(books, s.totals, id, s.account);
        assert(middle.account(nslp_id()) == nslp);
        lemma_with(middle, cleared, nslp_id(), pool);
    }
}

/// Adding liquidity keeps the books.
pub proof fn law_add_liquidity_keeps_books(
    books: Books,
    id: Seq<char>,
    amount: u128,
    min_deposit_amount: u128,
)
    requires
        id != nslp_id(),
        books.add_liquidity(id, amount, min_deposit_amount) is Ok,
    ensures
        kept(books, books.add_liquidity(id, amount, min_deposit_amount)->Ok_0.0),
{
    let nslp = books.account(nslp_id());
    let (totals, account) = books.totals.deposited(books.account(id), amount as int)->Ok_0;
    let l = totals.liquidity_added(account, nslp, amount as int)->Ok_0;
    if sound(books) {
        let middle = books.with(l.totals, id, l.account);
        lemma_with(books, l.totals, id, l.account);
        assert(middle.account(nslp_id()) == nslp);
        lemma_with(middle, l.totals, nslp_id(), l.nslp);
    }
}

/// Removing liquidity keeps the books.
pub proof fn law_remove_liquidity_keeps_books(books: Books, id: Seq<char>, amount: nat)
    requires
        id != nslp_id(),
        books.remove_liquidity(id, amount as int) is Ok,
    ensures
        kept(books, books.remove_liquidity(id, amount as int)->Ok_0.0),
{
    let nslp = books.account(nslp_id());
    let l = books.totals.liquidity_removed(books.account(id), nslp, amount as int)->Ok_0;
    if sound(books) {
        let middle = books.with(l.totals, id, l.account);
        lemma_with(books, l.totals, id, l.account);
        assert(middle.account(nslp_id()) == nslp);
        lemma_with(middle, l.totals, nslp_id(), l.nslp);
    }
}

/// A swap keeps the books: all stNEAR that the seller gives up arrives at the
/// liquidity pool, the treasury, the operator and the developers.
pub proof fn law_swap_keeps_books(
    books: Books,
    terms: SwapTerms,
    id: Seq<char>,
    treasury: Seq<char>,
    operator: Seq<char>,
    st_near_to_burn: nat,
    min_expected_near: u128,
)
    requires
        id != nslp_id(),
        treasury != nslp_id(),
        operator != nslp_id(),
        treasury != operator,
        treasury != developers_id(),
        operator != developers_id(),
        books.swap(terms, id, treasury, operator, st_near_to_burn as int, min_expected_near) is Ok,
    ensures
        kept(
            books,
            books.swap(
                terms,
                id,
                treasury,
                operator,
                st_near_to_burn as int,
                min_expected_near,
            )->Ok_0.0,
        ),
{
    reveal_strlit("developers.near");
    reveal_strlit("..NSLP..");
    assert(developers_id() != nslp_id()) by {
        assert(developers_id().len() != nslp_id().len());
    }
    let user = books.account(id);
    let nslp = books.account(nslp_id());
    let quote = books.totals.quoted(
        terms,
        user,
        nslp,
        st_near_to_burn as int,
        min_expected_near,
    )->Ok_0;
    let s = books.totals.settled(
        terms,
        quote,
        user,
        nslp,
        books.account(treasury),
        books.account(operator),
        books.account(developers_id()),
    )->Ok_0;
    if sound(books) {
        let b1 = books.with(s.totals, treasury, s.treasury);
        let b2 = b1.with(s.totals, operator, s.operator);
        let b3 = b2.with(s.totals, developers_id(), s.developers);
        let b4 = b3.with(s.totals, nslp_id(), s.nslp);
        lemma_with(books, s.totals, treasury, s.treasury);
        assert(b1.account(operator) == books.account(operator));
        assert(b1.account(developers_id()) == books.account(developers_id()));
        assert(b1.account(nslp_id()) == nslp);
        assert(b1.account(id) == user);
        lemma_with(b1, s.totals, operator, s.operator);
        assert(b2.account(developers_id()) == books.account(developers_id()));
        assert(b2.account(nslp_id()) == nslp);
        assert(b2.account(id) == user);
        lemma_with(b2, s.totals, developers_id(), s.developers);
        assert(b3.account(nslp_id()) == nslp);
        assert(b3.account(id) == user);
        lemma_with(b3, s.totals, nslp_id(), s.nslp);
        assert(b4.account(id) == user);
        lemma_with(b4, s.totals, id, s.user);
    }
}

/// Whether the books of a pool are in order: they are sound, the claims of users who
/// unstaked are covered by what was retrieved, what waits in the staking pools and what
/// is still to be unstaked, and the total of what waits is the sum over the staking
/// pools.
pub open spec fn in_order(pool: MetaPool) -> bool {
    &&& sound(pool@)
    &&& pool.retrieved_for_unstake_claims + pool.total_unstaked_and_waiting
        + pool.epoch_unstake_orders >= pool.total_unstake_claims
    &&& pool.total_unstaked_and_waiting == sum_waiting(pool.staking_pools@)
}

/// Whether all accounts that take part in a swap, apart from the seller, are
/// different.
pub open spec fn roles_differ(pool: MetaPool) -> bool {
    &&& key_accounts_differ(
        pool.owner_account_id@,
        pool.operator_account_id@,
        pool.treasury_account_id@,
    )
    &&& pool.operator_account_id@ != nslp_id()
    &&& pool.treasury_account_id@ != nslp_id()
}

/// Unstaking an amount leaves no dust: the account keeps no stNEAR, or stNEAR that was
/// worth at least a thousandth of a NEAR more than what it asked for.
pub proof fn law_unstake_leaves_no_dust(books: Books, id: Seq<char>, amount: nat)
    requires
        books.unstake_request_refusal(id, amount as int) is None,
    ensures
        ({
            let owned = books.account(id).stake_shares;
            let value = books.totals.stake_value(owned as int);
            let (shares, near) = books.unstake_request(id, amount as int);
            &&& owned == shares || value - amount >= ONE_MILLI_NEAR
            &&& close(amount as int, value) ==> owned == shares && near == value
        }),
{
}

/// What has been unstaked cannot be withdrawn before its epoch has come.
pub proof fn law_unstaked_is_locked(
    books: Books,
    id: Seq<char>,
    shares: nat,
    amount: nat,
    unlock_epoch: nat,
    asked: nat,
    epoch_height: nat,
)
    requires
        distinct(books.accounts),
        amount > 0,
        books.unstake(id, shares as int, amount as int, unlock_epoch as int) is Ok,
        epoch_height < unlock_epoch,
    ensures
        books.unstake(id, shares as int, amount as int, unlock_epoch as int)->Ok_0.withdraw(
            id,
            asked as int,
            epoch_height as int,
        ) == Err::<Books, ContractError>(
            ContractError::UnstakedNotAvailable { unlock_epoch: unlock_epoch as u64 },
        ),
{
    let (totals, account) = books.totals.unstaked(
        books.account(id),
        shares as int,
        amount as int,
        unlock_epoch as int,
    )->Ok_0;
    lemma_filed(books.accounts, id, account);
}

/// What has been unstaked can be withdrawn, all of it at once, as soon as its epoch
/// has come and the NEAR for it is in the contract.
pub proof fn law_unstaked_can_be_withdrawn(
    books: Books,
    id: Seq<char>,
    shares: nat,
    amount: nat,
    unlock_epoch: nat,
    epoch_height: nat,
)
    requires
        sound(books),
        amount > 0,
        books.unstake(id, shares as int, amount as int, unlock_epoch as int) is Ok,
        epoch_height >= unlock_epoch,
        books.totals.retrieved_for_unstake_claims >= books.account(id).unstaked + amount,
        books.totals.contract_account_balance >= books.account(id).unstaked + amount,
    ensures
        ({
            let after = books.unstake(
                id,
                shares as int,
                amount as int,
                unlock_epoch as int,
            )->Ok_0;
            let claim = after.account(id).unstaked;
            let paid = after.withdraw(id, claim as int, epoch_height as int);
            &&& claim == books.account(id).unstaked + amount
            &&& paid is Ok
            &&& paid->Ok_0.account(id).unstaked == 0
        }),
{
    let (totals, account) = books.totals.unstaked(
        books.account(id),
        shares as int,
        amount as int,
        unlock_epoch as int,
    )->Ok_0;
    let after = books.with(totals, id, account);
    lemma_filed(books.accounts, id, account);
    law_unstake_keeps_books(books, id, shares, amount, unlock_epoch);
    lemma_sum_at_least(after.accounts, position(after.accounts, id));
    let (totals2, account2) = totals.withdrawn(
        account,
        account.unstaked as int,
        epoch_height as int,
    )->Ok_0;
    lemma_with(after, totals2, id, account2);
}

/// The claims of all accounts are at least those of one of them.
proof fn lemma_sum_at_least(accounts: Seq<(Seq<char>, Account)>, p: int)
    requires
        0 <= p < accounts.len(),
    ensures
        sum_unstaked(accounts) >= accounts[p].1.unstaked,
    decreases accounts.len(),
{
    lemma_sum_nonnegative(accounts.drop_last());
    if p < accounts.len() - 1 {
        lemma_sum_at_least(accounts.drop_last(), p);
    }
}

proof fn lemma_sum_nonnegative(accounts: Seq<(Seq<char>, Account)>)
    ensures
        sum_unstaked(accounts) >= 0,
    decreases accounts.len(),
{
    if accounts.len() > 0 {
        lemma_sum_nonnegative(accounts.drop_last());
    }
}

/// A seller that has nothing available is paid exactly what the pool named as the
/// price of the stNEAR sold.
pub proof fn law_swap_pays_the_named_price(
    pool: MetaPool,
    id: Seq<char>,
    st_near_to_burn: u128,
    min_expected_near: u128,
)
    requires
        pool@.account(id).available == 0,
        pool.liquid_unstaking(id, st_near_to_burn, min_expected_near) is Ok,
    ensures
        ({
            let sold = Totals::st_near_sold(
                st_near_to_burn as int,
                pool@.account(id).stake_shares as int,
            );
            pool.liquid_unstaking(id, st_near_to_burn, min_expected_near)->Ok_0.1.near
                == pool.sale_price(pool@.totals.stake_value(sold))
        }),
{
}

} // verus!
