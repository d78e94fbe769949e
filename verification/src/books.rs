//! The pool's books as a mathematical value: the totals and all accounts, and what
//! each kind of call makes of them.

use vstd::prelude::*;

use crate::account::{empty_account, fits, Account};
use crate::account_map::{filed, lookup, withdrawn};
use crate::ledger::{LiquidityRemoved, Totals};
use crate::liquidity::{SwapQuote, SwapTerms};
use crate::types::{developers_id, nslp_id, ContractError};
use crate::utils::close;

verus! {

/// The totals and all accounts.
#[verifier::ext_equal]
pub struct Books {
    pub totals: Totals,
    pub accounts: Seq<(Seq<char>, Account)>,
}

/// What is known of an account in a list of accounts.
pub open spec fn account_of(accounts: Seq<(Seq<char>, Account)>, id: Seq<char>) -> Account {
    match lookup(accounts, id) {
        Some(a) => a,
        None => empty_account(),
    }
}

/// Saving an account: one that owns nothing is not kept.
pub open spec fn saved(
    accounts: Seq<(Seq<char>, Account)>,
    id: Seq<char>,
    account: Account,
) -> Seq<(Seq<char>, Account)> {
    if account.owns_nothing() {
        withdrawn(accounts, id)
    } else {
        filed(accounts, id, account)
    }
}

impl Books {
    /// What is known of an account.
    pub open spec fn account(self, id: Seq<char>) -> Account {
        account_of(self.accounts, id)
    }

    /// The books with other totals and one account saved.
    pub open spec fn with(self, totals: Totals, id: Seq<char>, account: Account) -> Books {
        Books { totals, accounts: saved(self.accounts, id, account) }
    }

    /// `amount` NEAR come with a call of `id` and are staked for it; the liquidity
    /// pool exchanges what stNEAR it has for that NEAR. Gives the shares minted.
    pub open spec fn deposit_and_stake(
        self,
        id: Seq<char>,
        amount: u128,
        min_deposit_amount: u128,
    ) -> Result<(Books, u128), ContractError> {
        if amount < min_deposit_amount {
            Err(ContractError::BelowMinDeposit { min_deposit_amount })
        } else {
            match self.totals.deposited(self.account(id), amount as int) {
                Err(e) => Err(e),
                Ok((totals, account)) => match totals.staked(account, amount as int) {
                    Err(e) => Err(e),
                    Ok(s) => {
                        let nslp = self.account(nslp_id());
                        let books = self.with(s.totals, id, s.account);
                        match s.totals.cleared(nslp, s.amount as int) {
                            Err(e) => Err(e),
                            Ok((cleared, pool)) => if nslp.stake_shares == 0 {
                                Ok((books, s.shares))
                            } else {
                                Ok((books.with(cleared, nslp_id(), pool), s.shares))
                            },
                        }
                    },
                },
            }
        }
    }

    /// An account stakes `amount` of the NEAR that it has available.
    pub open spec fn stake(self, id: Seq<char>, amount: int) -> Result<Books, ContractError> {
        match self.totals.staked(self.account(id), amount) {
            Err(e) => Err(e),
            Ok(s) => Ok(self.with(s.totals, id, s.account)),
        }
    }

    /// An account gives up `shares` stNEAR for a claim to `amount` NEAR.
    pub open spec fn unstake(
        self,
        id: Seq<char>,
        shares: int,
        amount: int,
        unlock_epoch: int,
    ) -> Result<Books, ContractError> {
        match self.totals.unstaked(self.account(id), shares, amount, unlock_epoch) {
            Err(e) => Err(e),
            Ok((totals, account)) => Ok(self.with(totals, id, account)),
        }
    }

    /// How many stNEAR an account gives up, and for how much NEAR, when it asks to
    /// unstake `amount`: everything, if that is close.
    pub open spec fn unstake_request(self, id: Seq<char>, amount: int) -> (int, int) {
        let owned = self.account(id).stake_shares as int;
        let value = self.totals.stake_value(owned);
        if close(amount, value) {
            (owned, value)
        } else {
            (self.totals.stake_shares_for(amount), amount)
        }
    }

    /// Why a request to unstake `amount` is refused before any stNEAR is given up.
    pub open spec fn unstake_request_refusal(self, id: Seq<char>, amount: int) -> Option<
        ContractError,
    > {
        let value = self.totals.stake_value(self.account(id).stake_shares as int);
        if !fits(value) {
            Some(ContractError::Overflow)
        } else if !close(amount, value) && value < amount {
            Some(ContractError::NotEnoughStaked { staked: value as u128 })
        } else if !fits(self.unstake_request(id, amount).0) {
            Some(ContractError::Overflow)
        } else {
            None
        }
    }

    /// An account withdraws unstaked NEAR.
    pub open spec fn withdraw(self, id: Seq<char>, amount: int, epoch_height: int) -> Result<
        Books,
        ContractError,
    > {
        match self.totals.withdrawn(self.account(id), amount, epoch_height) {
            Err(e) => Err(e),
            Ok((totals, account)) => Ok(self.with(totals, id, account)),
        }
    }

    /// `amount` NEAR come with a call of `id` and are put into the liquidity pool.
    /// Gives the part of the pool that the account owns, in basis points.
    pub open spec fn add_liquidity(
        self,
        id: Seq<char>,
        amount: u128,
        min_deposit_amount: u128,
    ) -> Result<(Books, u16), ContractError> {
        if amount < min_deposit_amount {
            Err(ContractError::BelowMinDeposit { min_deposit_amount })
        } else {
            match self.totals.deposited(self.account(id), amount as int) {
                Err(e) => Err(e),
                Ok((totals, account)) => match totals.liquidity_added(
                    account,
                    self.account(nslp_id()),
                    amount as int,
                ) {
                    Err(e) => Err(e),
                    Ok(l) => Ok(
                        (
                            self.with(l.totals, id, l.account).with(l.totals, nslp_id(), l.nslp),
                            l.share_bp,
                        ),
                    ),
                },
            }
        }
    }

    /// An account takes liquidity worth `amount` NEAR out of the liquidity pool.
    pub open spec fn remove_liquidity(self, id: Seq<char>, amount: int) -> Result<
        (Books, LiquidityRemoved),
        ContractError,
    > {
        match self.totals.liquidity_removed(self.account(id), self.account(nslp_id()), amount) {
            Err(e) => Err(e),
            Ok(l) => Ok(
                (self.with(l.totals, id, l.account).with(l.totals, nslp_id(), l.nslp), l),
            ),
        }
    }

    /// An account sells stNEAR to the liquidity pool. Gives what is transferred to
    /// it, and what the swap came to.
    pub open spec fn swap(
        self,
        terms: SwapTerms,
        id: Seq<char>,
        treasury: Seq<char>,
        operator: Seq<char>,
        st_near_to_burn: int,
        min_expected_near: u128,
    ) -> Result<(Books, u128, SwapQuote), ContractError> {
        let user = self.account(id);
        let nslp = self.account(nslp_id());
        match self.totals.quoted(terms, user, nslp, st_near_to_burn, min_expected_near) {
            Err(e) => Err(e),
            Ok(quote) => if id == treasury {
                Err(ContractError::TreasuryAccount)
            } else if id == operator {
                Err(ContractError::OperatorAccount)
            } else if id == developers_id() {
                Err(ContractError::DevelopersAccount)
            } else {
                match self.totals.settled(
                    terms,
                    quote,
                    user,
                    nslp,
                    self.account(treasury),
                    self.account(operator),
                    self.account(developers_id()),
                ) {
                    Err(e) => Err(e),
                    Ok(s) => Ok(
                        (
                            self.with(s.totals, treasury, s.treasury).with(
                                s.totals,
                                operator,
                                s.operator,
                            ).with(s.totals, developers_id(), s.developers).with(
                                s.totals,
                                nslp_id(),
                                s.nslp,
                            ).with(s.totals, id, s.user),
                            s.transfer,
                            quote,
                        ),
                    ),
                }
            },
        }
    }
}

} // verus!
