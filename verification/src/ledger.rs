//! The movements of the pool's books: each takes the totals and the accounts that
//! it touches and gives them back as they stand afterwards.

use vstd::prelude::*;

use crate::account::{fits, Account};
use crate::types::ContractError;
use crate::utils::{
    amount_for, checked_amount_from_shares, checked_shares_from_amount, close, is_close, shares_for,
};
use crate::wide::mul_div;

verus! {

/// The totals that follow the balances of the accounts.
#[derive(Clone, Copy, Debug, PartialEq, Eq, Structural)]
pub struct Totals {
    pub contract_account_balance: u128,
    pub retrieved_for_unstake_claims: u128,
    pub total_available: u128,
    pub epoch_stake_orders: u128,
    pub epoch_unstake_orders: u128,
    pub total_for_staking: u128,
    pub total_stake_shares: u128,
    pub total_unstake_claims: u128,
}

/// The books after an account has staked.
pub struct Staked {
    pub totals: Totals,
    pub account: Account,
    /// What was staked.
    pub amount: u128,
    /// What was minted for it.
    pub shares: u128,
}

/// The books after liquidity has been added.
pub struct LiquidityAdded {
    pub totals: Totals,
    pub account: Account,
    pub nslp: Account,
    /// The part of the liquidity pool that the account owns now, in basis points.
    pub share_bp: u16,
}

/// The books after liquidity has been removed.
pub struct LiquidityRemoved {
    pub totals: Totals,
    pub account: Account,
    pub nslp: Account,
    /// What is to be transferred to the user.
    pub near: u128,
    /// What was moved from the liquidity pool to the account.
    pub st_near: u128,
}

/// Turns a figure that does not fit into the error that says so.
pub fn or_overflow<T>(figure: Option<T>) -> (r: Result<T, ContractError>)
    ensures
        r == (match figure {
            Some(v) => Ok::<T, ContractError>(v),
            None => Err(ContractError::Overflow),
        }),
{
    match figure {
        Some(v) => Ok(v),
        None => Err(ContractError::Overflow),
    }
}

impl Totals {
    /// What `shares` stNEAR are worth in NEAR.
    pub open spec fn stake_value(self, shares: int) -> int {
        amount_for(shares, self.total_for_staking as int, self.total_stake_shares as int)
    }

    /// How many stNEAR `amount` NEAR buys.
    pub open spec fn stake_shares_for(self, amount: int) -> int {
        shares_for(amount, self.total_for_staking as int, self.total_stake_shares as int)
    }

    /// What the liquidity pool is worth in NEAR.
    pub open spec fn nslp_value(self, nslp: Account) -> int {
        nslp.available + self.stake_value(nslp.stake_shares as int)
    }

    /// What `shares` shares of the liquidity pool are worth in NEAR.
    pub open spec fn nslp_amount_for(self, shares: int, nslp: Account) -> int {
        amount_for(shares, self.nslp_value(nslp), nslp.nslp_shares as int)
    }

    /// How many shares of the liquidity pool `amount` NEAR buys.
    pub open spec fn nslp_shares_for(self, amount: int, nslp: Account) -> int {
        shares_for(amount, self.nslp_value(nslp), nslp.nslp_shares as int)
    }

    /// What `shares` stNEAR are worth in NEAR.
    pub fn amount_from_stake_shares(&self, shares: u128) -> (r: Result<u128, ContractError>)
        ensures
            r == (if fits(self.stake_value(shares as int)) {
                Ok(self.stake_value(shares as int) as u128)
            } else {
                Err(ContractError::Overflow)
            }),
    {
        proof {
            lemma_nonnegative(
                shares as int,
                self.total_for_staking as int,
                self.total_stake_shares as int,
            );
        }
        or_overflow(
            checked_amount_from_shares(shares, self.total_for_staking, self.total_stake_shares),
        )
    }

    /// How many stNEAR `amount` NEAR buys.
    pub fn stake_shares_from_amount(&self, amount: u128) -> (r: Result<u128, ContractError>)
        ensures
            r == (if fits(self.stake_shares_for(amount as int)) {
                Ok(self.stake_shares_for(amount as int) as u128)
            } else {
                Err(ContractError::Overflow)
            }),
    {
        proof {
            lemma_nonnegative(
                amount as int,
                self.total_for_staking as int,
                self.total_stake_shares as int,
            );
        }
        or_overflow(
            checked_shares_from_amount(amount, self.total_for_staking, self.total_stake_shares),
        )
    }

    /// What the liquidity pool is worth in NEAR.
    pub fn value_of_nslp(&self, nslp: &Account) -> (r: Result<u128, ContractError>)
        ensures
            r == (if fits(self.nslp_value(*nslp)) {
                Ok(self.nslp_value(*nslp) as u128)
            } else {
                Err(ContractError::Overflow)
            }),
    {
        proof {
            lemma_nonnegative(
                nslp.stake_shares as int,
                self.total_for_staking as int,
                self.total_stake_shares as int,
            );
        }
        let staked = self.amount_from_stake_shares(nslp.stake_shares)?;
        or_overflow(nslp.available.checked_add(staked))
    }

    /// What `shares` shares of the liquidity pool are worth in NEAR.
    pub fn amount_from_nslp_shares(&self, shares: u128, nslp: &Account) -> (r: Result<
        u128,
        ContractError,
    >)
        ensures
            r == (if fits(self.nslp_value(*nslp)) && fits(
                self.nslp_amount_for(shares as int, *nslp),
            ) {
                Ok(self.nslp_amount_for(shares as int, *nslp) as u128)
            } else {
                Err(ContractError::Overflow)
            }),
    {
        let value = self.value_of_nslp(nslp)?;
        proof {
            lemma_nonnegative(shares as int, value as int, nslp.nslp_shares as int);
        }
        or_overflow(checked_amount_from_shares(shares, value, nslp.nslp_shares))
    }

    /// How many shares of the liquidity pool `amount` NEAR buys.
    pub fn nslp_shares_from_amount(&self, amount: u128, nslp: &Account) -> (r: Result<
        u128,
        ContractError,
    >)
        ensures
            r == (if fits(self.nslp_value(*nslp)) && fits(
                self.nslp_shares_for(amount as int, *nslp),
            ) {
                Ok(self.nslp_shares_for(amount as int, *nslp) as u128)
            } else {
                Err(ContractError::Overflow)
            }),
    {
        let value = self.value_of_nslp(nslp)?;
        proof {
            lemma_nonnegative(amount as int, value as int, nslp.nslp_shares as int);
        }
        or_overflow(checked_shares_from_amount(amount, value, nslp.nslp_shares))
    }

    /// The books after NEAR that came with a call is credited to an account.
    pub open spec fn deposited(self, account: Account, amount: int) -> Result<
        (Totals, Account),
        ContractError,
    > {
        if fits(account.available + amount) && fits(self.total_available + amount) && fits(
            self.contract_account_balance + amount,
        ) {
            Ok(
                (
                    Totals {
                        total_available: (self.total_available + amount) as u128,
                        contract_account_balance: (self.contract_account_balance + amount) as u128,
                        ..self
                    },
                    Account { available: (account.available + amount) as u128, ..account },
                ),
            )
        } else {
            Err(ContractError::Overflow)
        }
    }

    /// Credits NEAR that came with a call to an account.
    pub fn deposit(&self, account: &Account, amount: u128) -> (r: Result<
        (Totals, Account),
        ContractError,
    >)
        ensures
            r == self.deposited(*account, amount as int),
    {
        let available = or_overflow(account.available.checked_add(amount))?;
        let total_available = or_overflow(self.total_available.checked_add(amount))?;
        let contract_account_balance = or_overflow(
            self.contract_account_balance.checked_add(amount),
        )?;
        Ok(
            (
                Totals { total_available, contract_account_balance, ..*self },
                Account { available, ..*account },
            ),
        )
    }

    /// How much is taken when `amount` is asked of what an account has available:
    /// all of it, if that is close.
    pub open spec fn amount_taken(account: Account, amount: int) -> int {
        if close(amount, account.available as int) {
            account.available as int
        } else {
            amount
        }
    }

    /// The books after available NEAR has been taken from an account, and how much.
    pub open spec fn taken(self, account: Account, amount: int) -> Result<
        (Totals, Account, u128),
        ContractError,
    > {
        let taken = Totals::amount_taken(account, amount);
        if account.available < taken {
            Err(ContractError::NotEnoughAvailable { available: account.available })
        } else if !fits(self.total_available - taken) {
            Err(ContractError::Overflow)
        } else {
            Ok(
                (
                    Totals { total_available: (self.total_available - taken) as u128, ..self },
                    Account { available: (account.available - taken) as u128, ..account },
                    taken as u128,
                ),
            )
        }
    }

    /// Takes available NEAR from an account.
    pub fn take_from_available(&self, account: &Account, amount: u128) -> (r: Result<
        (Totals, Account, u128),
        ContractError,
    >)
        ensures
            r == self.taken(*account, amount as int),
    {
        let taken: u128 = if is_close(amount, account.available) {
            account.available
        } else {
            amount
        };
        if account.available < taken {
            return Err(ContractError::NotEnoughAvailable { available: account.available });
        }
        let total_available = or_overflow(self.total_available.checked_sub(taken))?;
        Ok(
            (
                Totals { total_available, ..*self },
                Account { available: account.available - taken, ..*account },
                taken,
            ),
        )
    }

    /// The books after NEAR has left the contract.
    pub open spec fn paid_out(self, amount: int) -> Result<Totals, ContractError> {
        if fits(self.contract_account_balance - amount) {
            Ok(
                Totals {
                    contract_account_balance: (self.contract_account_balance - amount) as u128,
                    ..self
                },
            )
        } else {
            Err(ContractError::Overflow)
        }
    }

    /// Registers that NEAR leaves the contract.
    pub fn native_transfer(&self, amount: u128) -> (r: Result<Totals, ContractError>)
        ensures
            r == self.paid_out(amount as int),
    {
        let contract_account_balance = or_overflow(
            self.contract_account_balance.checked_sub(amount),
        )?;
        Ok(Totals { contract_account_balance, ..*self })
    }

    /// The books after an account has staked NEAR that it has available.
    pub open spec fn staked(self, account: Account, amount: int) -> Result<Staked, ContractError> {
        match self.taken(account, amount) {
            Err(e) => Err(e),
            Ok((totals, rest, taken)) => {
                let shares = self.stake_shares_for(taken as int);
                if !fits(shares) {
                    Err(ContractError::Overflow)
                } else if shares == 0 {
                    Err(ContractError::NoShares)
                } else if rest.plus_shares(shares, taken as int) is None || !fits(
                    self.total_stake_shares + shares,
                ) || !fits(self.total_for_staking + taken) || !fits(
                    self.epoch_stake_orders + taken,
                ) {
                    Err(ContractError::Overflow)
                } else {
                    Ok(
                        Staked {
                            totals: Totals {
                                total_stake_shares: (self.total_stake_shares + shares) as u128,
                                total_for_staking: (self.total_for_staking + taken) as u128,
                                epoch_stake_orders: (self.epoch_stake_orders + taken) as u128,
                                ..totals
                            },
                            account: rest.plus_shares(shares, taken as int)->0,
                            amount: taken,
                            shares: shares as u128,
                        },
                    )
                }
            },
        }
    }

    /// Stakes NEAR that an account has available: shares are minted for it at the
    /// current price, and a stake order is noted.
    pub fn stake(&self, account: &Account, amount: u128) -> (r: Result<Staked, ContractError>)
        ensures
            r == self.staked(*account, amount as int),
    {
        let (totals, rest, taken) = self.take_from_available(account, amount)?;
        let shares = self.stake_shares_from_amount(taken)?;
        if shares == 0 {
            return Err(ContractError::NoShares);
        }
        let account = or_overflow(rest.add_stake_shares(shares, taken))?;
        let total_stake_shares = or_overflow(self.total_stake_shares.checked_add(shares))?;
        let total_for_staking = or_overflow(self.total_for_staking.checked_add(taken))?;
        let epoch_stake_orders = or_overflow(self.epoch_stake_orders.checked_add(taken))?;
        Ok(
            Staked {
                totals: Totals {
                    total_stake_shares,
                    total_for_staking,
                    epoch_stake_orders,
                    ..totals
                },
                account,
                amount: taken,
                shares,
            },
        )
    }

    /// The books after an account has given up `shares` stNEAR for a claim to
    /// `amount` NEAR.
    pub open spec fn unstaked(
        self,
        account: Account,
        shares: int,
        amount: int,
        unlock_epoch: int,
    ) -> Result<(Totals, Account), ContractError> {
        if shares == 0 {
            Err(ContractError::NoShares)
        } else if account.stake_shares < shares {
            Err(ContractError::NotEnoughStaked { staked: account.stake_shares })
        } else if account.minus_shares(shares, amount) is None || !fits(account.unstaked + amount)
            || unlock_epoch > u64::MAX || !fits(self.total_stake_shares - shares) || !fits(
            self.total_for_staking - amount,
        ) || !fits(self.epoch_unstake_orders + amount) || !fits(
            self.total_unstake_claims + amount,
        ) {
            Err(ContractError::Overflow)
        } else {
            Ok(
                (
                    Totals {
                        total_stake_shares: (self.total_stake_shares - shares) as u128,
                        total_for_staking: (self.total_for_staking - amount) as u128,
                        epoch_unstake_orders: (self.epoch_unstake_orders + amount) as u128,
                        total_unstake_claims: (self.total_unstake_claims + amount) as u128,
                        ..self
                    },
                    Account {
                        unstaked: (account.unstaked + amount) as u128,
                        unstaked_requested_unlock_epoch: unlock_epoch as u64,
                        ..account.minus_shares(shares, amount)->0
                    },
                ),
            )
        }
    }

    /// Burns `shares` stNEAR of an account for a claim to `amount` NEAR that can be
    /// withdrawn `delay` epochs from `epoch_height`.
    pub fn unstake(
        &self,
        account: &Account,
        shares: u128,
        amount: u128,
        epoch_height: u64,
        delay: u64,
    ) -> (r: Result<(Totals, Account), ContractError>)
        ensures
            r == self.unstaked(*account, shares as int, amount as int, epoch_height + delay),
    {
        if shares == 0 {
            return Err(ContractError::NoShares);
        }
        if account.stake_shares < shares {
            return Err(ContractError::NotEnoughStaked { staked: account.stake_shares });
        }
        let left = or_overflow(account.sub_stake_shares(shares, amount))?;
        let unstaked = or_overflow(account.unstaked.checked_add(amount))?;
        let unlock_epoch = or_overflow(epoch_height.checked_add(delay))?;
        let total_stake_shares = or_overflow(self.total_stake_shares.checked_sub(shares))?;
        let total_for_staking = or_overflow(self.total_for_staking.checked_sub(amount))?;
        let epoch_unstake_orders = or_overflow(self.epoch_unstake_orders.checked_add(amount))?;
        let total_unstake_claims = or_overflow(self.total_unstake_claims.checked_add(amount))?;
        Ok(
            (
                Totals {
                    total_stake_shares,
                    total_for_staking,
                    epoch_unstake_orders,
                    total_unstake_claims,
                    ..*self
                },
                Account { unstaked, unstaked_requested_unlock_epoch: unlock_epoch, ..left },
            ),
        )
    }

    /// The books after an account has withdrawn unstaked NEAR.
    pub open spec fn withdrawn(self, account: Account, amount: int, epoch_height: int) -> Result<
        (Totals, Account),
        ContractError,
    > {
        if epoch_height < account.unstaked_requested_unlock_epoch {
            Err(
                ContractError::UnstakedNotAvailable {
                    unlock_epoch: account.unstaked_requested_unlock_epoch,
                },
            )
        } else if account.unstaked < amount {
            Err(ContractError::NotEnoughUnstaked { unstaked: account.unstaked })
        } else if self.retrieved_for_unstake_claims < amount {
            Err(ContractError::ClaimsNotRetrieved)
        } else if !fits(self.total_unstake_claims - amount) || !fits(
            self.contract_account_balance - amount,
        ) {
            Err(ContractError::Overflow)
        } else {
            Ok(
                (
                    Totals {
                        retrieved_for_unstake_claims: (self.retrieved_for_unstake_claims
                            - amount) as u128,
                        total_unstake_claims: (self.total_unstake_claims - amount) as u128,
                        contract_account_balance: (self.contract_account_balance - amount) as u128,
                        ..self
                    },
                    Account { unstaked: (account.unstaked - amount) as u128, ..account },
                ),
            )
        }
    }

    /// Withdraws unstaked NEAR of an account once its waiting time is over.
    pub fn withdraw(&self, account: &Account, amount: u128, epoch_height: u64) -> (r: Result<
        (Totals, Account),
        ContractError,
    >)
        ensures
            r == self.withdrawn(*account, amount as int, epoch_height as int),
    {
        if epoch_height < account.unstaked_requested_unlock_epoch {
            return Err(
                ContractError::UnstakedNotAvailable {
                    unlock_epoch: account.unstaked_requested_unlock_epoch,
                },
            );
        }
        if account.unstaked < amount {
            return Err(ContractError::NotEnoughUnstaked { unstaked: account.unstaked });
        }
        if self.retrieved_for_unstake_claims < amount {
            return Err(ContractError::ClaimsNotRetrieved);
        }
        let total_unstake_claims = or_overflow(self.total_unstake_claims.checked_sub(amount))?;
        let totals = self.native_transfer(amount)?;
        Ok(
            (
                Totals {
                    retrieved_for_unstake_claims: self.retrieved_for_unstake_claims - amount,
                    total_unstake_claims,
                    ..totals
                },
                Account { unstaked: account.unstaked - amount, ..*account },
            ),
        )
    }

    /// The stNEAR that the liquidity pool gives up, and the NEAR that it gets for it,
    /// when `amount` NEAR has just come in for staking.
    pub open spec fn clearing(self, nslp: Account, amount: int) -> (int, int) {
        if amount >= self.stake_value(nslp.stake_shares as int) {
            (nslp.stake_shares as int, self.stake_value(nslp.stake_shares as int))
        } else {
            (self.stake_shares_for(amount), amount)
        }
    }

    /// The books after the liquidity pool has exchanged stNEAR for NEAR that has
    /// just come in for staking.
    pub open spec fn cleared(self, nslp: Account, amount: int) -> Result<
        (Totals, Account),
        ContractError,
    > {
        let (shares, near) = self.clearing(nslp, amount);
        if nslp.stake_shares == 0 {
            Ok((self, nslp))
        } else if !fits(self.stake_value(nslp.stake_shares as int)) || !fits(shares)
            || nslp.minus_shares(shares, near) is None || !fits(nslp.available + near) || !fits(
            self.total_available + near,
        ) || !fits(self.total_for_staking - near) || !fits(self.total_stake_shares - shares)
            || !fits(self.epoch_stake_orders - near) {
            Err(ContractError::Overflow)
        } else {
            Ok(
                (
                    Totals {
                        total_available: (self.total_available + near) as u128,
                        total_for_staking: (self.total_for_staking - near) as u128,
                        total_stake_shares: (self.total_stake_shares - shares) as u128,
                        epoch_stake_orders: (self.epoch_stake_orders - near) as u128,
                        ..self
                    },
                    Account {
                        available: (nslp.available + near) as u128,
                        ..nslp.minus_shares(shares, near)->0
                    },
                ),
            )
        }
    }

    /// Lets the liquidity pool exchange stNEAR for NEAR that has just come in for
    /// staking: its stNEAR is burned, and that much less has to be staked.
    pub fn clear(&self, nslp: &Account, amount: u128) -> (r: Result<
        (Totals, Account),
        ContractError,
    >)
        ensures
            r == self.cleared(*nslp, amount as int),
    {
        if nslp.stake_shares == 0 {
            return Ok((*self, *nslp));
        }
        let value = self.amount_from_stake_shares(nslp.stake_shares)?;
        let mut shares: u128 = nslp.stake_shares;
        let mut near: u128 = value;
        if amount < value {
            shares = self.stake_shares_from_amount(amount)?;
            near = amount;
        }
        let left = or_overflow(nslp.sub_stake_shares(shares, near))?;
        let available = or_overflow(nslp.available.checked_add(near))?;
        let total_available = or_overflow(self.total_available.checked_add(near))?;
        let total_for_staking = or_overflow(self.total_for_staking.checked_sub(near))?;
        let total_stake_shares = or_overflow(self.total_stake_shares.checked_sub(shares))?;
        let epoch_stake_orders = or_overflow(self.epoch_stake_orders.checked_sub(near))?;
        Ok(
            (
                Totals {
                    total_available,
                    total_for_staking,
                    total_stake_shares,
                    epoch_stake_orders,
                    ..*self
                },
                Account { available, ..left },
            ),
        )
    }

    /// The part of the liquidity pool that an account owns, in basis points.
    pub open spec fn nslp_share_bp(account: Account, nslp: Account) -> int {
        10_000 * account.nslp_shares / (nslp.nslp_shares as int)
    }

    /// The books after an account has put NEAR into the liquidity pool.
    pub open spec fn liquidity_added(self, account: Account, nslp: Account, amount: int) -> Result<
        LiquidityAdded,
        ContractError,
    > {
        match self.taken(account, amount) {
            Err(e) => Err(e),
            Ok((totals, rest, taken)) => {
                let shares = self.nslp_shares_for(taken as int, nslp);
                if !fits(self.nslp_value(nslp)) || !fits(shares) {
                    Err(ContractError::Overflow)
                } else if shares == 0 {
                    Err(ContractError::NoShares)
                } else {
                    let after = Account {
                        nslp_shares: (rest.nslp_shares + shares) as u128,
                        lp_meter: rest.lp_meter.staked(taken as int)->0,
                        ..rest
                    };
                    let pool = Account {
                        available: (nslp.available + taken) as u128,
                        nslp_shares: (nslp.nslp_shares + shares) as u128,
                        ..nslp
                    };
                    if rest.lp_meter.staked(taken as int) is None || !fits(
                        rest.nslp_shares + shares,
                    ) || !fits(nslp.available + taken) || !fits(nslp.nslp_shares + shares) || !fits(
                        totals.total_available + taken,
                    ) || !fits(Totals::nslp_share_bp(after, pool)) {
                        Err(ContractError::Overflow)
                    } else {
                        Ok(
                            LiquidityAdded {
                                totals: Totals {
                                    total_available: (totals.total_available + taken) as u128,
                                    ..totals
                                },
                                account: after,
                                nslp: pool,
                                share_bp: (Totals::nslp_share_bp(after, pool) as u128) as u16,
                            },
                        )
                    }
                }
            },
        }
    }

    /// Moves NEAR that an account has available into the liquidity pool: the account
    /// gets shares of the pool for it.
    pub fn add_liquidity(&self, account: &Account, nslp: &Account, amount: u128) -> (r: Result<
        LiquidityAdded,
        ContractError,
    >)
        ensures
            r == self.liquidity_added(*account, *nslp, amount as int),
    {
        let (totals, rest, taken) = self.take_from_available(account, amount)?;
        let shares = self.nslp_shares_from_amount(taken, nslp)?;
        if shares == 0 {
            return Err(ContractError::NoShares);
        }
        let lp_meter = or_overflow(rest.lp_meter.stake(taken))?;
        let nslp_shares = or_overflow(rest.nslp_shares.checked_add(shares))?;
        let pool_available = or_overflow(nslp.available.checked_add(taken))?;
        let pool_shares = or_overflow(nslp.nslp_shares.checked_add(shares))?;
        let total_available = or_overflow(totals.total_available.checked_add(taken))?;
        let account = Account { nslp_shares, lp_meter, ..rest };
        let nslp = Account { available: pool_available, nslp_shares: pool_shares, ..*nslp };
        let share_bp = or_overflow(mul_div(10_000, account.nslp_shares, nslp.nslp_shares))?;
        proof {
            lemma_quotient_nonnegative(
                10_000 * account.nslp_shares,
                nslp.nslp_shares as int,
            );
        }
        Ok(
            LiquidityAdded {
                totals: Totals { total_available, ..totals },
                account,
                nslp,
                share_bp: share_bp as u16,
            },
        )
    }
}

/// Prices and share counts are not negative.
pub proof fn lemma_nonnegative(x: int, total_amount: int, total_shares: int)
    requires
        x >= 0,
        total_amount >= 0,
        total_shares >= 0,
    ensures
        amount_for(x, total_amount, total_shares) >= 0,
        shares_for(x, total_amount, total_shares) >= 0,
{
    if total_shares > 0 {
        assert(x * total_amount >= 0) by (nonlinear_arith)
            requires
                x >= 0,
                total_amount >= 0,
        ;
        lemma_quotient_nonnegative(x * total_amount, total_shares);
        if total_amount > 0 {
            assert(total_shares * x >= 0) by (nonlinear_arith)
                requires
                    x >= 0,
                    total_shares >= 0,
            ;
            lemma_quotient_nonnegative(total_shares * x, total_amount);
        }
    }
}

/// A quotient of numbers that are not negative is not negative.
pub proof fn lemma_quotient_nonnegative(n: int, d: int)
    requires
        n >= 0,
        d > 0,
    ensures
        n / d >= 0,
{
    vstd::arithmetic::div_mod::lemma_div_pos_is_pos(n, d);
}

} // verus!
