//! A staking pool: it stakes what its delegators deposit with one validator and
//! shares the rewards among them.

use vstd::prelude::*;

use crate::account::fits;
use crate::account_map::{lemma_filed, lemma_position, AccountMap};
use crate::delegator_laws::{
    law_saving_leaves_others, law_stake_in_figures, law_unstake_all_takes_all,
    law_unstake_in_figures,
};
use crate::ids::{is_valid_account_id, valid_account_id};
use crate::ledger::or_overflow;
use crate::stake::{Account, Pinged, PoolBooks, PoolCall, Stake};
use crate::staking_laws::{
    guarantee, healthy, kept, law_call_keeps_books, law_deposit_and_stake_keeps_books,
    law_deposit_keeps_books, law_ping_keeps_books, law_stake_keeps_books, law_unstake_keeps_books,
    law_withdraw_keeps_books, lemma_shares_exist,
};
use crate::types::{
    ContractError, HumanReadableAccount, PromiseResult, RewardFeeFraction, Transfer,
};
use crate::users::unless;
use crate::utils::is_promise_success;
use crate::views::{end_of_window, saturating, window_end};

verus! {

/// What the contract keeps back so that the share price never decreases. It pays for
/// the rounding when shares are converted to amounts.
pub const STAKE_SHARE_PRICE_GUARANTEE_FUND: u128 = 1_000_000_000_000;

/// What a withdrawal leaves to be done on the chain.
pub struct Withdrawal {
    pub transfer: Transfer,
    /// The amount to stake from now on, if that has to be done again.
    pub restake: Option<u128>,
}

/// A staking pool with one validator.
pub struct StakingContract {
    /// The account that runs the validator. It sets the key and the fee.
    pub owner_id: String,
    /// The key of the validator.
    pub stake_public_key: String,
    /// The epoch in which the rewards were last shared out.
    pub last_epoch_height: u64,
    /// What the account held then, staked and not.
    pub last_total_balance: u128,
    /// All shares.
    pub total_stake_shares: u128,
    /// What all shares stand for.
    pub total_staked_balance: u128,
    /// The part of the rewards that goes to the owner.
    pub reward_fee_fraction: RewardFeeFraction,
    pub accounts: AccountMap<Account>,
    /// While this is set, nothing is staked.
    pub paused: bool,
}

impl View for StakingContract {
    type V = PoolBooks;

    open spec fn view(&self) -> PoolBooks {
        PoolBooks {
            stake: Stake {
                last_epoch_height: self.last_epoch_height,
                last_total_balance: self.last_total_balance,
                total_stake_shares: self.total_stake_shares,
                total_staked_balance: self.total_staked_balance,
            },
            accounts: self.accounts@,
        }
    }
}

/// Whether two states differ at most in their books.
pub open spec fn same_but_books(before: StakingContract, after: StakingContract) -> bool {
    after == (StakingContract {
        last_epoch_height: after.last_epoch_height,
        last_total_balance: after.last_total_balance,
        total_stake_shares: after.total_stake_shares,
        total_staked_balance: after.total_staked_balance,
        accounts: after.accounts,
        ..before
    })
}

/// Whether a call has come out as it should: refused and without any effect, or
/// answered with the books changed and nothing else.
pub open spec fn settles<T>(
    before: StakingContract,
    after: StakingContract,
    answer: Result<T, ContractError>,
    outcome: Result<(PoolBooks, T), ContractError>,
) -> bool {
    match outcome {
        Err(e) => answer == Err::<T, ContractError>(e) && after == before,
        Ok((books, t)) => {
            &&& answer == Ok::<T, ContractError>(t)
            &&& after@ == books
            &&& same_but_books(before, after)
        },
    }
}

/// The amount to stake from now on; nothing while staking is paused.
pub open spec fn restake(paused: bool, books: PoolBooks) -> Option<u128> {
    if paused {
        None
    } else {
        Some(books.stake.total_staked_balance)
    }
}

/// Attaches to changed books the amount to stake from now on, if that has to be done
/// again.
pub open spec fn then_restake(
    outcome: Result<PoolBooks, ContractError>,
    needed: bool,
    paused: bool,
) -> Result<(PoolBooks, Option<u128>), ContractError> {
    match outcome {
        Err(e) => Err(e),
        Ok(books) => Ok(
            (
                books,
                if needed {
                    restake(paused, books)
                } else {
                    None
                },
            ),
        ),
    }
}

/// A delegator as it is shown.
pub open spec fn human_readable(
    stake: Stake,
    account: Account,
    account_id: String,
    epoch_height: u64,
) -> Result<HumanReadableAccount, ContractError> {
    match stake.value_of(account.stake_shares) {
        Err(e) => Err(e),
        Ok(value) => Ok(
            HumanReadableAccount {
                account_id,
                unstaked_balance: account.unstaked,
                staked_balance: value,
                can_withdraw: account.unstaked_available_epoch_height <= epoch_height,
            },
        ),
    }
}

impl StakingContract {
    /// No delegator is kept twice, and the fee is a fraction of the rewards.
    pub open spec fn wf(&self) -> bool {
        self.accounts.wf() && self.reward_fee_fraction.valid()
    }

    /// Starts a staking pool. All that the account holds, but for the guarantee fund,
    /// is staked in shares that belong to nobody. Gives the pool and the amount to
    /// stake.
    pub fn new(
        owner_id: String,
        stake_public_key: String,
        reward_fee_fraction: RewardFeeFraction,
        state_exists: bool,
        account_balance: u128,
        account_locked_balance: u128,
        epoch_height: u64,
    ) -> (r: Result<(StakingContract, Option<u128>), ContractError>)
        ensures
            ({
                let staked = account_balance - STAKE_SHARE_PRICE_GUARANTEE_FUND;
                let refusal = if state_exists {
                    Some(ContractError::AlreadyInitialized)
                } else if reward_fee_fraction.denominator == 0 {
                    Some(ContractError::ZeroDenominator)
                } else if reward_fee_fraction.numerator > reward_fee_fraction.denominator {
                    Some(ContractError::FeeAboveOne)
                } else if !valid_account_id(owner_id@) {
                    Some(ContractError::InvalidAccountId)
                } else if staked < 0 {
                    Some(ContractError::Overflow)
                } else if account_locked_balance != 0 {
                    Some(ContractError::AlreadyStaking)
                } else {
                    None
                };
                match r {
                    Err(e) => refusal == Some(e),
                    Ok((c, amount)) => {
                        &&& refusal is None
                        &&& c.wf()
                        &&& c.accounts@.len() == 0
                        &&& c == (StakingContract {
                            owner_id,
                            stake_public_key,
                            last_epoch_height: epoch_height,
                            last_total_balance: account_balance,
                            total_staked_balance: staked as u128,
                            total_stake_shares: staked as u128,
                            reward_fee_fraction,
                            accounts: c.accounts,
                            paused: false,
                        })
                        &&& amount == Some(staked as u128)
                        &&& c.total_staked_balance == account_balance - 1_000_000_000_000
                        &&& c.total_stake_shares == account_balance - 1_000_000_000_000
                        &&& amount == Some(c.total_staked_balance)
                        &&& guarantee(c@) == STAKE_SHARE_PRICE_GUARANTEE_FUND
                        &&& staked > 0 ==> healthy(c@)
                    },
                }
            }),
    {
        if state_exists {
            return Err(ContractError::AlreadyInitialized);
        }
        reward_fee_fraction.assert_valid()?;
        if !is_valid_account_id(&owner_id) {
            return Err(ContractError::InvalidAccountId);
        }
        if account_balance < STAKE_SHARE_PRICE_GUARANTEE_FUND {
            return Err(ContractError::Overflow);
        }
        let total_staked_balance: u128 = account_balance - STAKE_SHARE_PRICE_GUARANTEE_FUND;
        if account_locked_balance != 0 {
            return Err(ContractError::AlreadyStaking);
        }
        let this = StakingContract {
            owner_id,
            stake_public_key,
            last_epoch_height: epoch_height,
            last_total_balance: account_balance,
            total_staked_balance,
            total_stake_shares: total_staked_balance,
            reward_fee_fraction,
            accounts: AccountMap::new(),
            paused: false,
        };
        let amount = this.internal_restake();
        Ok((this, amount))
    }

    /// The amount to stake from now on; nothing while staking is paused.
    fn internal_restake(&self) -> (r: Option<u128>)
        ensures
            r == restake(self.paused, self@),
    {
        if self.paused {
            None
        } else {
            Some(self.total_staked_balance)
        }
    }

    fn stake_figures(&self) -> (r: Stake)
        ensures
            r == self@.stake,
    {
        Stake {
            last_epoch_height: self.last_epoch_height,
            last_total_balance: self.last_total_balance,
            total_stake_shares: self.total_stake_shares,
            total_staked_balance: self.total_staked_balance,
        }
    }

    fn internal_get_account(&self, account_id: &String) -> (r: Account)
        requires
            self.wf(),
        ensures
            r == self@.account(account_id@),
    {
        match self.accounts.get(account_id) {
            Some(a) => a,
            None => Account::default(),
        }
    }

    /// What a call finds to be shared out before anything else.
    pub open spec fn pinged(&self, call: &PoolCall) -> Result<Pinged, ContractError> {
        self@.stake.pinged(self.reward_fee_fraction, self@.account(self.owner_id@), call)
    }

    /// The books after the rewards of a new epoch have been shared out.
    pub open spec fn books_after(&self, pinged: Pinged) -> PoolBooks {
        self@.after(pinged, self.owner_id@)
    }

    fn internal_ping(&self, call: &PoolCall) -> (r: Result<Pinged, ContractError>)
        requires
            self.wf(),
        ensures
            r == self.pinged(call),
            r is Ok && r->Ok_0.owner_account is Some ==> r->Ok_0.owner_account->0.stake_shares > 0,
            r is Ok ==> r->Ok_0.new_epoch == (call.epoch_height != self.last_epoch_height),
            r is Ok && call.epoch_height == self.last_epoch_height ==> r->Ok_0.stake == self@.stake
                && r->Ok_0.owner_account is None,
    {
        let owner_account = self.internal_get_account(&self.owner_id);
        self.stake_figures().ping(&self.reward_fee_fraction, &owner_account, call)
    }

    fn account_after(&self, pinged: &Pinged, account_id: &String) -> (r: Account)
        requires
            self.wf(),
            pinged.owner_account is Some ==> pinged.owner_account->0.stake_shares > 0,
        ensures
            r == self.books_after(*pinged).account(account_id@),
            account_id@ != self.owner_id@ || pinged.owner_account is None ==> r == self@.account(
                account_id@,
            ),
    {
        match pinged.owner_account {
            Some(a) => {
                proof {
                    lemma_filed(self.accounts@, self.owner_id@, a);
                }
                if *account_id == self.owner_id {
                    a
                } else {
                    self.internal_get_account(account_id)
                }
            },
            None => self.internal_get_account(account_id),
        }
    }

    fn save(&mut self, stake: Stake, account_id: &String, account: &Account)
        requires
            old(self).wf(),
        ensures
            final(self)@ == old(self)@.with(stake, account_id@, *account),
            same_but_books(*old(self), *final(self)),
            final(self).wf(),
    {
        self.set_figures(stake);
        if account.unstaked > 0 || account.stake_shares > 0 {
            self.accounts.insert(account_id, *account);
        } else {
            self.accounts.remove(account_id);
        }
    }

    fn set_figures(&mut self, stake: Stake)
        requires
            old(self).wf(),
        ensures
            final(self)@ == (PoolBooks { stake, ..old(self)@ }),
            same_but_books(*old(self), *final(self)),
            final(self).accounts == old(self).accounts,
            final(self).wf(),
    {
        self.last_epoch_height = stake.last_epoch_height;
        self.last_total_balance = stake.last_total_balance;
        self.total_stake_shares = stake.total_stake_shares;
        self.total_staked_balance = stake.total_staked_balance;
    }

    fn commit_ping(&mut self, pinged: &Pinged)
        requires
            old(self).wf(),
        ensures
            final(self)@ == old(self).books_after(*pinged),
            same_but_books(*old(self), *final(self)),
            final(self).wf(),
    {
        match pinged.owner_account {
            Some(a) => {
                let owner_id = self.owner_id.clone();
                self.save(pinged.stake, &owner_id, &a);
            },
            None => {
                self.set_figures(pinged.stake);
            },
        }
    }

    /// Shares out the rewards of a new epoch, and says whether there is one.
    fn share_out(&mut self, call: &PoolCall) -> (r: Result<bool, ContractError>)
        requires
            old(self).wf(),
        ensures
            match old(self).pinged(call) {
                Err(e) => r == Err::<bool, ContractError>(e) && *final(self) == *old(self),
                Ok(p) => {
                    &&& r == Ok::<bool, ContractError>(p.new_epoch)
                    &&& final(self)@ == old(self).books_after(p)
                    &&& same_but_books(*old(self), *final(self))
                },
            },
            final(self).wf(),
            kept(old(self)@, final(self)@),
    {
        let pinged = self.internal_ping(call)?;
        proof {
            if healthy(self@) {
                law_ping_keeps_books(
                    self@,
                    self.reward_fee_fraction,
                    self.owner_id@,
                    call,
                );
            }
        }
        self.commit_ping(&pinged);
        Ok(pinged.new_epoch)
    }

    /// The outcome of a call that first shares out rewards and then moves one account.
    pub open spec fn moving(
        &self,
        call: &PoolCall,
        id: Seq<char>,
        movement: spec_fn(PoolBooks) -> Result<(Stake, Account), ContractError>,
        always_restake: bool,
    ) -> Result<(PoolBooks, Option<u128>), ContractError> {
        match self.pinged(call) {
            Err(e) => Err(e),
            Ok(p) => then_restake(
                self.books_after(p).moved(id, movement(self.books_after(p))),
                always_restake || p.new_epoch,
                self.paused,
            ),
        }
    }

    fn commit(
        &mut self,
        pinged: &Pinged,
        stake: Stake,
        account_id: &String,
        account: &Account,
        always_restake: bool,
    ) -> (r: Option<u128>)
        requires
            old(self).wf(),
        ensures
            final(self)@ == old(self).books_after(*pinged).with(stake, account_id@, *account),
            same_but_books(*old(self), *final(self)),
            final(self).wf(),
            r == (if always_restake || pinged.new_epoch {
                restake(old(self).paused, final(self)@)
            } else {
                None
            }),
            r == (if old(self).paused || !(always_restake || pinged.new_epoch) {
                None
            } else {
                Some(stake.total_staked_balance)
            }),
            final(self)@.stake == stake,
            final(self)@.account(account_id@).unstaked == account.unstaked,
            final(self)@.account(account_id@).stake_shares == account.stake_shares,
    {
        proof {
            let books = self.books_after(*pinged);
            if pinged.owner_account is Some {
                let a = pinged.owner_account->0;
                law_saving_leaves_others(self@, pinged.stake, self.owner_id@, a);
            }
            law_saving_leaves_others(books, stake, account_id@, *account);
        }
        self.commit_ping(pinged);
        self.save(stake, account_id, account);
        if always_restake || pinged.new_epoch {
            self.internal_restake()
        } else {
            None
        }
    }

    /// Shares out the rewards of a new epoch. Gives the amount to stake from now on, if
    /// that has to be done again.
    pub fn ping(&mut self, call: &PoolCall) -> (r: Result<Option<u128>, ContractError>)
        requires
            old(self).wf(),
        ensures
            settles(
                *old(self),
                *final(self),
                r,
                match old(self).pinged(call) {
                    Err(e) => Err(e),
                    Ok(p) => then_restake(
                        Ok(old(self).books_after(p)),
                        p.new_epoch,
                        old(self).paused,
                    ),
                },
            ),
            final(self).wf(),
            kept(old(self)@, final(self)@),
            r is Ok ==> r->Ok_0 == (if old(self).paused || call.epoch_height
                == old(self).last_epoch_height {
                None
            } else {
                Some(final(self).total_staked_balance)
            }),
    {
        let new_epoch = self.share_out(call)?;
        if new_epoch {
            Ok(self.internal_restake())
        } else {
            Ok(None)
        }
    }

    /// Credits the attached deposit to the caller.
    pub fn deposit(&mut self, call: &PoolCall) -> (r: Result<Option<u128>, ContractError>)
        requires
            old(self).wf(),
        ensures
            settles(
                *old(self),
                *final(self),
                r,
                old(self).moving(
                    call,
                    call.predecessor@,
                    |b: PoolBooks|
                        b.stake.deposited(
                            b.account(call.predecessor@),
                            call.attached_deposit as int,
                        ),
                    false,
                ),
            ),
            final(self).wf(),
            kept(old(self)@, final(self)@),
            r is Ok && (call.predecessor@ != old(self).owner_id@ || call.epoch_height
                == old(self).last_epoch_height) ==> ({
                let before = old(self)@.account(call.predecessor@);
                let after = final(self)@.account(call.predecessor@);
                &&& after.unstaked == before.unstaked + call.attached_deposit
                &&& after.stake_shares == before.stake_shares
            }),
            r is Ok ==> r->Ok_0 == (if old(self).paused || call.epoch_height
                == old(self).last_epoch_height {
                None
            } else {
                Some(final(self).total_staked_balance)
            }),
    {
        let pinged = self.internal_ping(call)?;
        let account = self.account_after(&pinged, &call.predecessor);
        let (stake, account) = pinged.stake.deposit(&account, call.attached_deposit)?;
        proof {
            let books = self.books_after(pinged);
            law_deposit_keeps_books(books, call.predecessor@, call.attached_deposit as nat);
            law_call_keeps_books(
                self@,
                self.reward_fee_fraction,
                self.owner_id@,
                call,
                books.with(stake, call.predecessor@, account),
            );
        }
        Ok(self.commit(&pinged, stake, &call.predecessor, &account, false))
    }

    /// Credits the attached deposit to the caller and stakes it.
    pub fn deposit_and_stake(&mut self, call: &PoolCall) -> (r: Result<
        Option<u128>,
        ContractError,
    >)
        requires
            old(self).wf(),
        ensures
            settles(
                *old(self),
                *final(self),
                r,
                old(self).moving(
                    call,
                    call.predecessor@,
                    |b: PoolBooks|
                        match b.stake.deposited(
                            b.account(call.predecessor@),
                            call.attached_deposit as int,
                        ) {
                            Err(e) => Err(e),
                            Ok((stake, account)) => stake.staked(
                                account,
                                call.attached_deposit as int,
                            ),
                        },
                    true,
                ),
            ),
            final(self).wf(),
            kept(old(self)@, final(self)@),
            r is Ok && call.epoch_height == old(self).last_epoch_height ==> ({
                let (t, n) = (
                    old(self).total_staked_balance as int,
                    old(self).total_stake_shares as int,
                );
                let before = old(self)@.account(call.predecessor@);
                let after = final(self)@.account(call.predecessor@);
                let shares = after.stake_shares - before.stake_shares;
                let paid = before.unstaked + call.attached_deposit - after.unstaked;
                let grown = final(self).total_staked_balance - t;
                &&& shares > 0
                &&& shares * t <= n * call.attached_deposit < shares * t + t
                &&& paid * n <= t * shares < paid * n + n
                &&& grown * n - n < t * shares <= grown * n
                &&& final(self).total_stake_shares == n + shares
            }),
            r is Ok ==> r->Ok_0 == (if old(self).paused {
                None
            } else {
                Some(final(self).total_staked_balance)
            }),
    {
        let pinged = self.internal_ping(call)?;
        let account = self.account_after(&pinged, &call.predecessor);
        let (stake, account) = pinged.stake.deposit(&account, call.attached_deposit)?;
        let (stake, account) = stake.stake(&account, call.attached_deposit)?;
        proof {
            let books = self.books_after(pinged);
            law_stake_in_figures(
                pinged.stake.deposited(
                    books.account(call.predecessor@),
                    call.attached_deposit as int,
                )->Ok_0.0,
                pinged.stake.deposited(
                    books.account(call.predecessor@),
                    call.attached_deposit as int,
                )->Ok_0.1,
                call.attached_deposit as nat,
            );
            law_deposit_and_stake_keeps_books(
                books,
                call.predecessor@,
                call.attached_deposit as nat,
            );
            law_call_keeps_books(
                self@,
                self.reward_fee_fraction,
                self.owner_id@,
                call,
                books.with(stake, call.predecessor@, account),
            );
        }
        Ok(self.commit(&pinged, stake, &call.predecessor, &account, true))
    }

    /// A withdrawal with what it leaves to be done on the chain.
    pub open spec fn withdrawing(
        &self,
        call: &PoolCall,
        amount: spec_fn(PoolBooks) -> u128,
    ) -> Result<(PoolBooks, Withdrawal), ContractError> {
        match self.pinged(call) {
            Err(e) => Err(e),
            Ok(p) => {
                let books = self.books_after(p);
                match self.moving(
                    call,
                    call.predecessor@,
                    |b: PoolBooks|
                        b.stake.withdrawn(
                            b.account(call.predecessor@),
                            amount(b) as int,
                            call.epoch_height as int,
                        ),
                    false,
                ) {
                    Err(e) => Err(e),
                    Ok((after, restake)) => Ok(
                        (
                            after,
                            Withdrawal {
                                transfer: Transfer {
                                    receiver_id: call.predecessor,
                                    amount: amount(books),
                                },
                                restake,
                            },
                        ),
                    ),
                }
            },
        }
    }

    /// Withdraws the whole unstaked balance of the caller. That is allowed only if it
    /// has not unstaked in the four most recent epochs.
    pub fn withdraw_all(&mut self, call: &PoolCall) -> (r: Result<Withdrawal, ContractError>)
        requires
            old(self).wf(),
        ensures
            settles(
                *old(self),
                *final(self),
                r,
                old(self).withdrawing(
                    call,
                    |b: PoolBooks| b.account(call.predecessor@).unstaked,
                ),
            ),
            final(self).wf(),
            kept(old(self)@, final(self)@),
            r is Ok ==> {
                &&& r->Ok_0.transfer.receiver_id@ == call.predecessor@
                &&& r->Ok_0.restake == (if old(self).paused || call.epoch_height
                    == old(self).last_epoch_height {
                    None
                } else {
                    Some(final(self).total_staked_balance)
                })
            },
            r is Ok && (call.predecessor@ != old(self).owner_id@ || call.epoch_height
                == old(self).last_epoch_height) ==> ({
                let before = old(self)@.account(call.predecessor@);
                let after = final(self)@.account(call.predecessor@);
                &&& after.unstaked == before.unstaked - r->Ok_0.transfer.amount
                &&& after.stake_shares == before.stake_shares
                &&& call.epoch_height >= before.unstaked_available_epoch_height
            }),
            r is Ok ==> final(self)@.account(call.predecessor@).unstaked == 0,
    {
        let pinged = self.internal_ping(call)?;
        let account = self.account_after(&pinged, &call.predecessor);
        let amount: u128 = account.unstaked;
        let (stake, account) = pinged.stake.withdraw(&account, amount, call.epoch_height)?;
        proof {
            let books = self.books_after(pinged);
            law_withdraw_keeps_books(
                books,
                call.predecessor@,
                amount as nat,
                call.epoch_height as nat,
            );
            law_call_keeps_books(
                self@,
                self.reward_fee_fraction,
                self.owner_id@,
                call,
                books.with(stake, call.predecessor@, account),
            );
        }
        let restake = self.commit(&pinged, stake, &call.predecessor, &account, false);
        Ok(
            Withdrawal {
                transfer: Transfer { receiver_id: call.predecessor.clone(), amount },
                restake,
            },
        )
    }

    /// Withdraws `amount` of the unstaked balance of the caller. That is allowed only if
    /// it has not unstaked in the four most recent epochs.
    pub fn withdraw(&mut self, call: &PoolCall, amount: u128) -> (r: Result<
        Withdrawal,
        ContractError,
    >)
        requires
            old(self).wf(),
        ensures
            settles(
                *old(self),
                *final(self),
                r,
                old(self).withdrawing(call, |b: PoolBooks| amount),
            ),
            final(self).wf(),
            kept(old(self)@, final(self)@),
            r is Ok ==> r->Ok_0.transfer.amount == amount,
            r is Ok ==> {
                &&& r->Ok_0.transfer.receiver_id@ == call.predecessor@
                &&& r->Ok_0.restake == (if old(self).paused || call.epoch_height
                    == old(self).last_epoch_height {
                    None
                } else {
                    Some(final(self).total_staked_balance)
                })
            },
            r is Ok && (call.predecessor@ != old(self).owner_id@ || call.epoch_height
                == old(self).last_epoch_height) ==> ({
                let before = old(self)@.account(call.predecessor@);
                let after = final(self)@.account(call.predecessor@);
                &&& after.unstaked == before.unstaked - r->Ok_0.transfer.amount
                &&& after.stake_shares == before.stake_shares
                &&& call.epoch_height >= before.unstaked_available_epoch_height
            }),
    {
        let pinged = self.internal_ping(call)?;
        let account = self.account_after(&pinged, &call.predecessor);
        let (stake, account) = pinged.stake.withdraw(&account, amount, call.epoch_height)?;
        proof {
            let books = self.books_after(pinged);
            law_withdraw_keeps_books(
                books,
                call.predecessor@,
                amount as nat,
                call.epoch_height as nat,
            );
            law_call_keeps_books(
                self@,
                self.reward_fee_fraction,
                self.owner_id@,
                call,
                books.with(stake, call.predecessor@, account),
            );
        }
        let restake = self.commit(&pinged, stake, &call.predecessor, &account, false);
        Ok(
            Withdrawal {
                transfer: Transfer { receiver_id: call.predecessor.clone(), amount },
                restake,
            },
        )
    }

    /// Stakes the whole unstaked balance of the caller.
    pub fn stake_all(&mut self, call: &PoolCall) -> (r: Result<Option<u128>, ContractError>)
        requires
            old(self).wf(),
        ensures
            settles(
                *old(self),
                *final(self),
                r,
                old(self).moving(
                    call,
                    call.predecessor@,
                    |b: PoolBooks|
                        b.stake.staked(
                            b.account(call.predecessor@),
                            b.account(call.predecessor@).unstaked as int,
                        ),
                    true,
                ),
            ),
            final(self).wf(),
            kept(old(self)@, final(self)@),
            r is Ok && call.epoch_height == old(self).last_epoch_height ==> ({
                let (t, n) = (
                    old(self).total_staked_balance as int,
                    old(self).total_stake_shares as int,
                );
                let before = old(self)@.account(call.predecessor@);
                let after = final(self)@.account(call.predecessor@);
                let shares = after.stake_shares - before.stake_shares;
                let paid = before.unstaked - after.unstaked;
                let grown = final(self).total_staked_balance - t;
                &&& shares > 0
                &&& shares * t <= n * old(self)@.account(call.predecessor@).unstaked < shares * t + t
                &&& paid * n <= t * shares < paid * n + n
                &&& grown * n - n < t * shares <= grown * n
                &&& final(self).total_stake_shares == n + shares
            }),
            r is Ok ==> r->Ok_0 == (if old(self).paused {
                None
            } else {
                Some(final(self).total_staked_balance)
            }),
    {
        let pinged = self.internal_ping(call)?;
        let account = self.account_after(&pinged, &call.predecessor);
        let (stake, account) = pinged.stake.stake(&account, account.unstaked)?;
        proof {
            let books = self.books_after(pinged);
            law_stake_in_figures(
                pinged.stake,
                books.account(call.predecessor@),
                books.account(call.predecessor@).unstaked as nat,
            );
            law_stake_keeps_books(
                books,
                call.predecessor@,
                books.account(call.predecessor@).unstaked as nat,
            );
            law_call_keeps_books(
                self@,
                self.reward_fee_fraction,
                self.owner_id@,
                call,
                books.with(stake, call.predecessor@, account),
            );
        }
        Ok(self.commit(&pinged, stake, &call.predecessor, &account, true))
    }

    /// Stakes `amount` of the unstaked balance of the caller.
    pub fn stake(&mut self, call: &PoolCall, amount: u128) -> (r: Result<
        Option<u128>,
        ContractError,
    >)
        requires
            old(self).wf(),
        ensures
            settles(
                *old(self),
                *final(self),
                r,
                old(self).moving(
                    call,
                    call.predecessor@,
                    |b: PoolBooks| b.stake.staked(b.account(call.predecessor@), amount as int),
                    true,
                ),
            ),
            final(self).wf(),
            kept(old(self)@, final(self)@),
            r is Ok && call.epoch_height == old(self).last_epoch_height ==> ({
                let (t, n) = (
                    old(self).total_staked_balance as int,
                    old(self).total_stake_shares as int,
                );
                let before = old(self)@.account(call.predecessor@);
                let after = final(self)@.account(call.predecessor@);
                let shares = after.stake_shares - before.stake_shares;
                let paid = before.unstaked - after.unstaked;
                let grown = final(self).total_staked_balance - t;
                &&& shares > 0
                &&& shares * t <= n * amount < shares * t + t
                &&& paid * n <= t * shares < paid * n + n
                &&& grown * n - n < t * shares <= grown * n
                &&& final(self).total_stake_shares == n + shares
            }),
            r is Ok ==> r->Ok_0 == (if old(self).paused {
                None
            } else {
                Some(final(self).total_staked_balance)
            }),
    {
        let pinged = self.internal_ping(call)?;
        let account = self.account_after(&pinged, &call.predecessor);
        let (stake, account) = pinged.stake.stake(&account, amount)?;
        proof {
            let books = self.books_after(pinged);
            law_stake_in_figures(
                pinged.stake,
                books.account(call.predecessor@),
                amount as nat,
            );
            law_stake_keeps_books(books, call.predecessor@, amount as nat);
            law_call_keeps_books(
                self@,
                self.reward_fee_fraction,
                self.owner_id@,
                call,
                books.with(stake, call.predecessor@, account),
            );
        }
        Ok(self.commit(&pinged, stake, &call.predecessor, &account, true))
    }

    /// Unstakes the whole staked balance of the caller. It can be withdrawn in four
    /// epochs.
    pub fn unstake_all(&mut self, call: &PoolCall) -> (r: Result<Option<u128>, ContractError>)
        requires
            old(self).wf(),
        ensures
            settles(
                *old(self),
                *final(self),
                r,
                old(self).moving(
                    call,
                    call.predecessor@,
                    |b: PoolBooks|
                        match b.stake.value_of(b.account(call.predecessor@).stake_shares) {
                            Err(e) => Err(e),
                            Ok(amount) => b.stake.unstaked(
                                b.account(call.predecessor@),
                                amount as int,
                                call.epoch_height as int,
                            ),
                        },
                    true,
                ),
            ),
            final(self).wf(),
            kept(old(self)@, final(self)@),
            r is Ok && healthy(old(self)@) ==> final(self)@.account(call.predecessor@).stake_shares
                == 0,
            r is Ok ==> r->Ok_0 == (if old(self).paused {
                None
            } else {
                Some(final(self).total_staked_balance)
            }),
    {
        let pinged = self.internal_ping(call)?;
        let account = self.account_after(&pinged, &call.predecessor);
        let amount = pinged.stake.staked_amount_from_num_shares_rounded_down(
            account.stake_shares,
        )?;
        let (stake, account) = pinged.stake.unstake(&account, amount, call.epoch_height)?;
        proof {
            let books = self.books_after(pinged);
            if healthy(self@) {
                law_ping_keeps_books(
                    self@,
                    self.reward_fee_fraction,
                    self.owner_id@,
                    call,
                );
                lemma_shares_exist(books);
                law_unstake_all_takes_all(pinged.stake, books.account(call.predecessor@));
            }
            law_unstake_keeps_books(
                books,
                call.predecessor@,
                amount as nat,
                call.epoch_height as nat,
            );
            law_call_keeps_books(
                self@,
                self.reward_fee_fraction,
                self.owner_id@,
                call,
                books.with(stake, call.predecessor@, account),
            );
        }
        Ok(self.commit(&pinged, stake, &call.predecessor, &account, true))
    }

    /// Unstakes `amount` of the staked balance of the caller. It can be withdrawn in four
    /// epochs.
    pub fn unstake(&mut self, call: &PoolCall, amount: u128) -> (r: Result<
        Option<u128>,
        ContractError,
    >)
        requires
            old(self).wf(),
        ensures
            settles(
                *old(self),
                *final(self),
                r,
                old(self).moving(
                    call,
                    call.predecessor@,
                    |b: PoolBooks|
                        b.stake.unstaked(
                            b.account(call.predecessor@),
                            amount as int,
                            call.epoch_height as int,
                        ),
                    true,
                ),
            ),
            final(self).wf(),
            kept(old(self)@, final(self)@),
            r is Ok && call.epoch_height == old(self).last_epoch_height ==> ({
                let (t, n) = (
                    old(self).total_staked_balance as int,
                    old(self).total_stake_shares as int,
                );
                let before = old(self)@.account(call.predecessor@);
                let after = final(self)@.account(call.predecessor@);
                let shares = before.stake_shares - after.stake_shares;
                let got = after.unstaked - before.unstaked;
                let shrunk = t - final(self).total_staked_balance;
                &&& shares > 0
                &&& shares * t - t < n * amount <= shares * t
                &&& got * n - n < t * shares <= got * n
                &&& shrunk * n <= t * shares < shrunk * n + n
                &&& final(self).total_stake_shares == n - shares
            }),
            r is Ok ==> r->Ok_0 == (if old(self).paused {
                None
            } else {
                Some(final(self).total_staked_balance)
            }),
    {
        let pinged = self.internal_ping(call)?;
        let account = self.account_after(&pinged, &call.predecessor);
        let (stake, account) = pinged.stake.unstake(&account, amount, call.epoch_height)?;
        proof {
            let books = self.books_after(pinged);
            law_unstake_in_figures(
                pinged.stake,
                books.account(call.predecessor@),
                amount as nat,
                call.epoch_height as nat,
            );
            law_unstake_keeps_books(
                books,
                call.predecessor@,
                amount as nat,
                call.epoch_height as nat,
            );
            law_call_keeps_books(
                self@,
                self.reward_fee_fraction,
                self.owner_id@,
                call,
                books.with(stake, call.predecessor@, account),
            );
        }
        Ok(self.commit(&pinged, stake, &call.predecessor, &account, true))
    }

    /// The unstaked balance of a delegator.
    pub fn get_account_unstaked_balance(&self, account_id: &String) -> (r: Result<
        u128,
        ContractError,
    >)
        requires
            self.wf(),
        ensures
            ({
                let account = self@.account(account_id@);
                r == (match self@.stake.value_of(account.stake_shares) {
                    Err(e) => Err(e),
                    Ok(_) => Ok(account.unstaked),
                })
            }),
    {
        let shown = self.get_account(account_id.clone(), 0)?;
        Ok(shown.unstaked_balance)
    }

    /// The staked balance of a delegator: what its shares are worth now.
    pub fn get_account_staked_balance(&self, account_id: &String) -> (r: Result<
        u128,
        ContractError,
    >)
        requires
            self.wf(),
        ensures
            r == self@.stake.value_of(self@.account(account_id@).stake_shares),
    {
        let account = self.internal_get_account(account_id);
        self.stake_figures().staked_amount_from_num_shares_rounded_down(account.stake_shares)
    }

    /// The staked and the unstaked balance of a delegator together.
    pub fn get_account_total_balance(&self, account_id: &String) -> (r: Result<
        u128,
        ContractError,
    >)
        requires
            self.wf(),
        ensures
            ({
                let account = self@.account(account_id@);
                r == (match self@.stake.value_of(account.stake_shares) {
                    Err(e) => Err(e),
                    Ok(value) => if fits(account.unstaked + value) {
                        Ok((account.unstaked + value) as u128)
                    } else {
                        Err(ContractError::Overflow)
                    },
                })
            }),
    {
        let account = self.internal_get_account(account_id);
        let staked = self.stake_figures().staked_amount_from_num_shares_rounded_down(
            account.stake_shares,
        )?;
        or_overflow(account.unstaked.checked_add(staked))
    }

    /// Whether a delegator can withdraw in this epoch.
    pub fn is_account_unstaked_balance_available(&self, account_id: &String, epoch_height: u64) -> (r:
        Result<bool, ContractError>)
        requires
            self.wf(),
        ensures
            ({
                let account = self@.account(account_id@);
                r == (match self@.stake.value_of(account.stake_shares) {
                    Err(e) => Err(e),
                    Ok(_) => Ok(account.unstaked_available_epoch_height <= epoch_height),
                })
            }),
    {
        let shown = self.get_account(account_id.clone(), epoch_height)?;
        Ok(shown.can_withdraw)
    }

    /// What all shares stand for.
    pub fn get_total_staked_balance(&self) -> (r: u128)
        ensures
            r == self.total_staked_balance,
    {
        self.total_staked_balance
    }

    /// The account of the owner.
    pub fn get_owner_id(&self) -> (r: String)
        ensures
            r == self.owner_id,
    {
        self.owner_id.clone()
    }

    /// The part of the rewards that goes to the owner.
    pub fn get_reward_fee_fraction(&self) -> (r: RewardFeeFraction)
        ensures
            r == self.reward_fee_fraction,
    {
        self.reward_fee_fraction
    }

    /// The key of the validator.
    pub fn get_staking_key(&self) -> (r: String)
        ensures
            r == self.stake_public_key,
    {
        self.stake_public_key.clone()
    }

    /// Whether staking is paused.
    pub fn is_staking_paused(&self) -> (r: bool)
        ensures
            r == self.paused,
    {
        self.paused
    }

    /// A delegator as it is shown.
    pub fn get_account(&self, account_id: String, epoch_height: u64) -> (r: Result<
        HumanReadableAccount,
        ContractError,
    >)
        requires
            self.wf(),
        ensures
            r == human_readable(
                self@.stake,
                self@.account(account_id@),
                account_id,
                epoch_height,
            ),
    {
        let account = self.internal_get_account(&account_id);
        let staked_balance = self.stake_figures().staked_amount_from_num_shares_rounded_down(
            account.stake_shares,
        )?;
        Ok(
            HumanReadableAccount {
                account_id,
                unstaked_balance: account.unstaked,
                staked_balance,
                can_withdraw: account.unstaked_available_epoch_height <= epoch_height,
            },
        )
    }

    /// The number of delegators that own something.
    pub fn get_number_of_accounts(&self) -> (r: u64)
        ensures
            r == self.accounts@.len(),
    {
        self.accounts.len() as u64
    }

    /// Up to `limit` delegators from `from_index` on.
    pub fn get_accounts(&self, from_index: u64, limit: u64, epoch_height: u64) -> (r: Result<
        Vec<HumanReadableAccount>,
        ContractError,
    >)
        requires
            self.wf(),
        ensures
            ({
                let end = window_end(from_index as int, limit as int, self.accounts@.len() as int);
                match r {
                    Err(e) => {
                        ||| from_index + limit > u64::MAX && e == ContractError::Overflow
                        ||| from_index + limit <= u64::MAX && exists|i: int|
                            {
                                &&& from_index <= i < end
                                &&& #[trigger] self@.stake.value_of(
                                    self.accounts@[i].1.stake_shares,
                                ) == Err::<u128, ContractError>(e)
                                &&& forall|j: int|
                                    from_index <= j < i ==> #[trigger] self@.stake.value_of(
                                        self.accounts@[j].1.stake_shares,
                                    ) is Ok
                            }
                    },
                    Ok(list) => {
                        &&& from_index + limit <= u64::MAX
                        &&& list@.len() == saturating(end, from_index as int)
                        &&& forall|k: int|
                            0 <= k < list@.len() ==> {
                                &&& (#[trigger] list@[k]).account_id@ == self.accounts@[from_index
                                    + k].0
                                &&& human_readable(
                                    self@.stake,
                                    self.accounts@[from_index + k].1,
                                    list@[k].account_id,
                                    epoch_height,
                                ) == Ok::<_, ContractError>(list@[k])
                            }
                    },
                }
            }),
    {
        let len: usize = self.accounts.len();
        let end = end_of_window(from_index, limit, len as u64)?;
        let mut list: Vec<HumanReadableAccount> = Vec::new();
        let mut i: u64 = from_index;
        while i < end
            invariant
                self.wf(),
                from_index <= i,
                i <= end || i == from_index,
                len == self.accounts@.len(),
                end <= len,
                end == window_end(from_index as int, limit as int, self.accounts@.len() as int),
                list@.len() == i - from_index,
                from_index + limit <= u64::MAX,
                forall|j: int|
                    from_index <= j < i ==> #[trigger] self@.stake.value_of(
                        self.accounts@[j].1.stake_shares,
                    ) is Ok,
                forall|k: int|
                    0 <= k < list@.len() ==> {
                        &&& (#[trigger] list@[k]).account_id@ == self.accounts@[from_index + k].0
                        &&& human_readable(
                            self@.stake,
                            self.accounts@[from_index + k].1,
                            list@[k].account_id,
                            epoch_height,
                        ) == Ok::<_, ContractError>(list@[k])
                    },
            decreases end - i,
        {
            proof {
                lemma_position(self.accounts@, i as int);
            }
            let id = self.accounts.key_at(i as usize);
            let shown = self.get_account(id, epoch_height)?;
            list.push(shown);
            i = i + 1;
        }
        Ok(list)
    }

    /// Looks at what a staking action came to. Gives the amount to stake from now on, if
    /// something has to be done: if the action failed while something is staked, all has
    /// to be unstaked.
    pub fn on_stake_action(
        &self,
        current_account_id: &String,
        call: &PoolCall,
        results: &Vec<PromiseResult>,
    ) -> (r: Result<Option<u128>, ContractError>)
        ensures
            r == (if call.predecessor@ != current_account_id@ {
                Err(ContractError::NotACallback)
            } else if results@.len() != 1 {
                Err(ContractError::NotOneResult)
            } else if !(results@[0] is Successful) && call.account_locked_balance > 0 {
                Ok(Some(0u128))
            } else {
                Ok(None)
            }),
    {
        if !(call.predecessor == *current_account_id) {
            return Err(ContractError::NotACallback);
        }
        let stake_action_succeeded = is_promise_success(results)?;
        if !stake_action_succeeded && call.account_locked_balance > 0 {
            Ok(Some(0))
        } else {
            Ok(None)
        }
    }

    /// Why a call is refused that only the owner may make.
    pub open spec fn owner_only(&self, call: &PoolCall) -> Result<(), ContractError> {
        if call.predecessor@ == self.owner_id@ {
            Ok(())
        } else {
            Err(ContractError::NotOwner)
        }
    }

    fn assert_owner(&self, call: &PoolCall) -> (r: Result<(), ContractError>)
        ensures
            r == self.owner_only(call),
    {
        if call.predecessor == self.owner_id {
            Ok(())
        } else {
            Err(ContractError::NotOwner)
        }
    }

    /// Sets the key of the validator. Gives the amount to stake from now on.
    pub fn update_staking_key(&mut self, call: &PoolCall, stake_public_key: String) -> (r: Result<
        Option<u128>,
        ContractError,
    >)
        requires
            old(self).wf(),
        ensures
            match unless(old(self).owner_only(call), old(self).pinged(call)) {
                Err(e) => r == Err::<Option<u128>, ContractError>(e) && *final(self) == *old(self),
                Ok(p) => {
                    &&& r == Ok::<_, ContractError>(restake(old(self).paused, final(self)@))
                    &&& final(self)@ == old(self).books_after(p)
                    &&& same_but_books(
                        (StakingContract { stake_public_key, ..*old(self) }),
                        *final(self),
                    )
                },
            },
            final(self).wf(),
            kept(old(self)@, final(self)@),
            r is Ok ==> call.predecessor@ == old(self).owner_id@ && r->Ok_0 == (if old(
                self,
            ).paused {
                None
            } else {
                Some(final(self).total_staked_balance)
            }),
    {
        self.assert_owner(call)?;
        let _ = self.share_out(call)?;
        self.stake_public_key = stake_public_key;
        Ok(self.internal_restake())
    }

    /// Sets the part of the rewards that goes to the owner. Rewards that came in before
    /// are shared out at the old fraction.
    pub fn update_reward_fee_fraction(
        &mut self,
        call: &PoolCall,
        reward_fee_fraction: RewardFeeFraction,
    ) -> (r: Result<Option<u128>, ContractError>)
        requires
            old(self).wf(),
        ensures
            match unless(
                old(self).owner_only(call),
                if reward_fee_fraction.denominator == 0 {
                    Err(ContractError::ZeroDenominator)
                } else if reward_fee_fraction.numerator > reward_fee_fraction.denominator {
                    Err(ContractError::FeeAboveOne)
                } else {
                    old(self).pinged(call)
                },
            ) {
                Err(e) => r == Err::<Option<u128>, ContractError>(e) && *final(self) == *old(self),
                Ok(p) => {
                    &&& r == Ok::<_, ContractError>(
                        if p.new_epoch {
                            restake(old(self).paused, final(self)@)
                        } else {
                            None
                        },
                    )
                    &&& final(self)@ == old(self).books_after(p)
                    &&& same_but_books(
                        (StakingContract { reward_fee_fraction, ..*old(self) }),
                        *final(self),
                    )
                },
            },
            final(self).wf(),
            kept(old(self)@, final(self)@),
            r is Ok ==> call.predecessor@ == old(self).owner_id@ && r->Ok_0 == (if old(
                self,
            ).paused || call.epoch_height == old(self).last_epoch_height {
                None
            } else {
                Some(final(self).total_staked_balance)
            }),
    {
        self.assert_owner(call)?;
        reward_fee_fraction.assert_valid()?;
        let new_epoch = self.share_out(call)?;
        self.reward_fee_fraction = reward_fee_fraction;
        if new_epoch {
            Ok(self.internal_restake())
        } else {
            Ok(None)
        }
    }

    /// Pauses staking. Gives the amount to stake from now on, which is nothing.
    pub fn pause_staking(&mut self, call: &PoolCall) -> (r: Result<u128, ContractError>)
        requires
            old(self).wf(),
        ensures
            match unless(
                old(self).owner_only(call),
                if old(self).paused {
                    Err(ContractError::AlreadyPaused)
                } else {
                    old(self).pinged(call)
                },
            ) {
                Err(e) => r == Err::<u128, ContractError>(e) && *final(self) == *old(self),
                Ok(p) => {
                    &&& r == Ok::<u128, ContractError>(0)
                    &&& final(self)@ == old(self).books_after(p)
                    &&& same_but_books(
                        (StakingContract { paused: true, ..*old(self) }),
                        *final(self),
                    )
                },
            },
            final(self).wf(),
            kept(old(self)@, final(self)@),
            r is Ok ==> call.predecessor@ == old(self).owner_id@ && !old(self).paused,
    {
        self.assert_owner(call)?;
        if self.paused {
            return Err(ContractError::AlreadyPaused);
        }
        let _ = self.share_out(call)?;
        self.paused = true;
        Ok(0)
    }

    /// Resumes staking. Gives the amount to stake from now on.
    pub fn resume_staking(&mut self, call: &PoolCall) -> (r: Result<Option<u128>, ContractError>)
        requires
            old(self).wf(),
        ensures
            match unless(
                old(self).owner_only(call),
                if !old(self).paused {
                    Err(ContractError::NotPaused)
                } else {
                    old(self).pinged(call)
                },
            ) {
                Err(e) => r == Err::<Option<u128>, ContractError>(e) && *final(self) == *old(self),
                Ok(p) => {
                    &&& r == Ok::<_, ContractError>(
                        Some(old(self).books_after(p).stake.total_staked_balance),
                    )
                    &&& final(self)@ == old(self).books_after(p)
                    &&& same_but_books(
                        (StakingContract { paused: false, ..*old(self) }),
                        *final(self),
                    )
                },
            },
            final(self).wf(),
            kept(old(self)@, final(self)@),
            r is Ok ==> call.predecessor@ == old(self).owner_id@ && old(self).paused && r->Ok_0
                == Some(final(self).total_staked_balance),
    {
        self.assert_owner(call)?;
        if !self.paused {
            return Err(ContractError::NotPaused);
        }
        let _ = self.share_out(call)?;
        self.paused = false;
        Ok(self.internal_restake())
    }
}

} // verus!
