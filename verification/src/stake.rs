//! The figures of a staking pool with one validator, and how each movement changes them.

use vstd::prelude::*;

use crate::account::fits;
use crate::account_map::{filed, lookup, withdrawn};
use crate::ledger::{lemma_quotient_nonnegative, or_overflow};
use crate::reward_fee::lemma_fraction_at_most_all;
use crate::types::{ContractError, RewardFeeFraction, NUM_EPOCHS_TO_UNLOCK};
use crate::wide::{mul_div, mul_div_up};

verus! {

/// What the contract keeps about one delegator.
#[derive(Clone, Copy, Debug, PartialEq, Eq, Structural)]
pub struct Account {
    /// What can be staked or withdrawn.
    pub unstaked: u128,
    /// Shares of the total that is staked.
    pub stake_shares: u128,
    /// The first epoch in which the unstaked balance can be withdrawn.
    pub unstaked_available_epoch_height: u64,
}

/// A delegator of whom nothing is known.
pub open spec fn empty_account() -> Account {
    Account { unstaked: 0, stake_shares: 0, unstaked_available_epoch_height: 0 }
}

impl Default for Account {
    fn default() -> (r: Self)
        ensures
            r == empty_account(),
    {
        Account { unstaked: 0, stake_shares: 0, unstaked_available_epoch_height: 0 }
    }
}

/// What the chain tells about a call and about the contract's account.
#[derive(Debug)]
pub struct PoolCall {
    /// The account that makes the call.
    pub predecessor: String,
    pub attached_deposit: u128,
    pub epoch_height: u64,
    /// What is not staked, with the attached deposit.
    pub account_balance: u128,
    /// What is staked.
    pub account_locked_balance: u128,
}

/// The figures of the pool.
#[derive(Clone, Copy, Debug, PartialEq, Eq, Structural)]
pub struct Stake {
    pub last_epoch_height: u64,
    pub last_total_balance: u128,
    pub total_stake_shares: u128,
    pub total_staked_balance: u128,
}

/// The figures after the rewards of a new epoch have been shared out.
pub struct Pinged {
    pub stake: Stake,
    /// The owner's account, if it got shares for the fee.
    pub owner_account: Option<Account>,
    /// Whether there is a new epoch.
    pub new_epoch: bool,
}

/// The figures and all accounts.
#[verifier::ext_equal]
pub struct PoolBooks {
    pub stake: Stake,
    pub accounts: Seq<(Seq<char>, Account)>,
}

impl Stake {
    /// How many shares `amount` is, rounded down.
    pub open spec fn shares_down(self, amount: int) -> int {
        self.total_stake_shares * amount / (self.total_staked_balance as int)
    }

    /// How many shares `amount` is, rounded up.
    pub open spec fn shares_up(self, amount: int) -> int {
        (self.total_stake_shares * amount + self.total_staked_balance - 1) / (
        self.total_staked_balance as int)
    }

    /// What `shares` are worth, rounded down.
    pub open spec fn amount_down(self, shares: int) -> int {
        self.total_staked_balance * shares / (self.total_stake_shares as int)
    }

    /// What `shares` are worth, rounded up.
    pub open spec fn amount_up(self, shares: int) -> int {
        (self.total_staked_balance * shares + self.total_stake_shares - 1) / (
        self.total_stake_shares as int)
    }

    fn num_shares_from_staked_amount_rounded_down(&self, amount: u128) -> (r: Result<
        u128,
        ContractError,
    >)
        ensures
            r == (if self.total_staked_balance == 0 {
                Err(ContractError::NoPrice)
            } else if fits(self.shares_down(amount as int)) {
                Ok(self.shares_down(amount as int) as u128)
            } else {
                Err(ContractError::Overflow)
            }),
    {
        if self.total_staked_balance == 0 {
            return Err(ContractError::NoPrice);
        }
        proof {
            lemma_product_nonnegative(self.total_stake_shares as int, amount as int);
            lemma_quotient_nonnegative(
                self.total_stake_shares * amount,
                self.total_staked_balance as int,
            );
        }
        or_overflow(mul_div(self.total_stake_shares, amount, self.total_staked_balance))
    }

    fn num_shares_from_staked_amount_rounded_up(&self, amount: u128) -> (r: Result<
        u128,
        ContractError,
    >)
        ensures
            r == (if self.total_staked_balance == 0 {
                Err(ContractError::NoPrice)
            } else if fits(self.shares_up(amount as int)) {
                Ok(self.shares_up(amount as int) as u128)
            } else {
                Err(ContractError::Overflow)
            }),
    {
        if self.total_staked_balance == 0 {
            return Err(ContractError::NoPrice);
        }
        proof {
            lemma_product_nonnegative(self.total_stake_shares as int, amount as int);
            lemma_quotient_nonnegative(
                self.total_stake_shares * amount + self.total_staked_balance - 1,
                self.total_staked_balance as int,
            );
        }
        or_overflow(mul_div_up(self.total_stake_shares, amount, self.total_staked_balance))
    }

    /// What shares are worth, rounded down.
    pub(crate) fn staked_amount_from_num_shares_rounded_down(&self, num_shares: u128) -> (r: Result<
        u128,
        ContractError,
    >)
        ensures
            r == self.value_of(num_shares),
    {
        if self.total_stake_shares == 0 {
            return Err(ContractError::NoPrice);
        }
        proof {
            lemma_product_nonnegative(self.total_staked_balance as int, num_shares as int);
            lemma_quotient_nonnegative(
                self.total_staked_balance * num_shares,
                self.total_stake_shares as int,
            );
        }
        or_overflow(mul_div(self.total_staked_balance, num_shares, self.total_stake_shares))
    }

    fn staked_amount_from_num_shares_rounded_up(&self, num_shares: u128) -> (r: Result<
        u128,
        ContractError,
    >)
        ensures
            r == (if self.total_stake_shares == 0 {
                Err(ContractError::NoPrice)
            } else if fits(self.amount_up(num_shares as int)) {
                Ok(self.amount_up(num_shares as int) as u128)
            } else {
                Err(ContractError::Overflow)
            }),
    {
        if self.total_stake_shares == 0 {
            return Err(ContractError::NoPrice);
        }
        proof {
            lemma_product_nonnegative(self.total_staked_balance as int, num_shares as int);
            lemma_quotient_nonnegative(
                self.total_staked_balance * num_shares + self.total_stake_shares - 1,
                self.total_stake_shares as int,
            );
        }
        or_overflow(mul_div_up(self.total_staked_balance, num_shares, self.total_stake_shares))
    }

    /// What `shares` are worth, rounded down, if there is a price.
    pub open spec fn value_of(self, num_shares: u128) -> Result<u128, ContractError> {
        if self.total_stake_shares == 0 {
            Err(ContractError::NoPrice)
        } else if fits(self.amount_down(num_shares as int)) {
            Ok(self.amount_down(num_shares as int) as u128)
        } else {
            Err(ContractError::Overflow)
        }
    }

    /// The figures once the reward that came in since the last epoch has been shared
    /// out: a fraction goes to the owner in shares at the new price, the rest raises
    /// the price.
    pub open spec fn pinged(
        self,
        fraction: RewardFeeFraction,
        owner_account: Account,
        call: &PoolCall,
    ) -> Result<Pinged, ContractError> {
        let balance = call.account_locked_balance + call.account_balance - call.attached_deposit;
        let reward = balance - self.last_total_balance;
        let fee = fraction.of(reward);
        let raised = Stake {
            total_staked_balance: (self.total_staked_balance + reward - fee) as u128,
            ..self
        };
        let bought = raised.shares_down(fee);
        if self.last_epoch_height == call.epoch_height {
            Ok(Pinged { stake: self, owner_account: None, new_epoch: false })
        } else if !fits(call.account_locked_balance + call.account_balance) || !fits(balance) {
            Err(ContractError::Overflow)
        } else if reward < 0 {
            Err(ContractError::BalanceDecreased)
        } else if reward == 0 {
            Ok(
                Pinged {
                    stake: Stake { last_epoch_height: call.epoch_height, ..self },
                    owner_account: None,
                    new_epoch: true,
                },
            )
        } else if !fits(self.total_staked_balance + reward) {
            Err(ContractError::Overflow)
        } else if raised.total_staked_balance == 0 {
            Err(ContractError::NoPrice)
        } else if !fits(bought) || !fits(owner_account.stake_shares + bought) || !fits(
            self.total_stake_shares + bought,
        ) {
            Err(ContractError::Overflow)
        } else {
            Ok(
                Pinged {
                    stake: Stake {
                        last_epoch_height: call.epoch_height,
                        last_total_balance: balance as u128,
                        total_stake_shares: (self.total_stake_shares + bought) as u128,
                        total_staked_balance: (self.total_staked_balance + reward) as u128,
                    },
                    owner_account: if bought > 0 {
                        Some(
                            Account {
                                stake_shares: (owner_account.stake_shares + bought) as u128,
                                ..owner_account
                            },
                        )
                    } else {
                        None
                    },
                    new_epoch: true,
                },
            )
        }
    }

    /// Shares out the reward that came in since the last epoch.
    pub(crate) fn ping(
        &self,
        fraction: &RewardFeeFraction,
        owner_account: &Account,
        call: &PoolCall,
    ) -> (r: Result<Pinged, ContractError>)
        requires
            fraction.valid(),
        ensures
            r == self.pinged(*fraction, *owner_account, call),
    {
        if self.last_epoch_height == call.epoch_height {
            return Ok(Pinged { stake: *self, owner_account: None, new_epoch: false });
        }
        let gross = or_overflow(call.account_locked_balance.checked_add(call.account_balance))?;
        let total_balance = or_overflow(gross.checked_sub(call.attached_deposit))?;
        if total_balance < self.last_total_balance {
            return Err(ContractError::BalanceDecreased);
        }
        let total_reward: u128 = total_balance - self.last_total_balance;
        if total_reward == 0 {
            return Ok(
                Pinged {
                    stake: Stake { last_epoch_height: call.epoch_height, ..*self },
                    owner_account: None,
                    new_epoch: true,
                },
            );
        }
        proof {
            lemma_fraction_at_most_all(*fraction, total_reward as int);
        }
        let owners_fee = fraction.multiply(total_reward);
        let total_staked_balance = or_overflow(self.total_staked_balance.checked_add(total_reward))?;
        let raised = Stake {
            total_staked_balance: self.total_staked_balance + (total_reward - owners_fee),
            ..*self
        };
        let num_shares = raised.num_shares_from_staked_amount_rounded_down(owners_fee)?;
        let owner_shares = or_overflow(owner_account.stake_shares.checked_add(num_shares))?;
        let total_stake_shares = or_overflow(self.total_stake_shares.checked_add(num_shares))?;
        let owner_account = if num_shares > 0 {
            Some(Account { stake_shares: owner_shares, ..*owner_account })
        } else {
            None
        };
        Ok(
            Pinged {
                stake: Stake {
                    last_epoch_height: call.epoch_height,
                    last_total_balance: total_balance,
                    total_stake_shares,
                    total_staked_balance,
                },
                owner_account,
                new_epoch: true,
            },
        )
    }

    /// The figures after a deposit.
    pub open spec fn deposited(self, account: Account, amount: int) -> Result<
        (Stake, Account),
        ContractError,
    > {
        if fits(account.unstaked + amount) && fits(self.last_total_balance + amount) {
            Ok(
                (
                    Stake {
                        last_total_balance: (self.last_total_balance + amount) as u128,
                        ..self
                    },
                    Account { unstaked: (account.unstaked + amount) as u128, ..account },
                ),
            )
        } else {
            Err(ContractError::Overflow)
        }
    }

    /// Credits a deposit.
    pub(crate) fn deposit(&self, account: &Account, amount: u128) -> (r: Result<
        (Stake, Account),
        ContractError,
    >)
        ensures
            r == self.deposited(*account, amount as int),
    {
        let unstaked = or_overflow(account.unstaked.checked_add(amount))?;
        let last_total_balance = or_overflow(self.last_total_balance.checked_add(amount))?;
        Ok((Stake { last_total_balance, ..*self }, Account { unstaked, ..*account }))
    }

    /// The figures after a delegator has staked `amount` of its unstaked balance. It is
    /// charged what the shares are worth, rounded down, while the total grows by what
    /// they are worth, rounded up.
    pub open spec fn staked(self, account: Account, amount: int) -> Result<
        (Stake, Account),
        ContractError,
    > {
        let shares = self.shares_down(amount);
        let charged = self.amount_down(shares);
        if amount == 0 {
            Err(ContractError::AmountNotPositive)
        } else if self.total_staked_balance == 0 {
            Err(ContractError::NoPrice)
        } else if !fits(shares) {
            Err(ContractError::Overflow)
        } else if shares == 0 {
            Err(ContractError::NoShares)
        } else if !fits(charged) {
            Err(ContractError::Overflow)
        } else if charged == 0 {
            Err(ContractError::NoShares)
        } else if account.unstaked < charged {
            Err(ContractError::NotEnoughUnstaked { unstaked: account.unstaked })
        } else if !fits(account.stake_shares + shares) || !fits(self.amount_up(shares)) || !fits(
            self.total_staked_balance + self.amount_up(shares),
        ) || !fits(self.total_stake_shares + shares) {
            Err(ContractError::Overflow)
        } else {
            Ok(
                (
                    Stake {
                        total_staked_balance: (self.total_staked_balance + self.amount_up(
                            shares,
                        )) as u128,
                        total_stake_shares: (self.total_stake_shares + shares) as u128,
                        ..self
                    },
                    Account {
                        unstaked: (account.unstaked - charged) as u128,
                        stake_shares: (account.stake_shares + shares) as u128,
                        ..account
                    },
                ),
            )
        }
    }

    /// Stakes `amount` of an unstaked balance.
    pub(crate) fn stake(&self, account: &Account, amount: u128) -> (r: Result<
        (Stake, Account),
        ContractError,
    >)
        ensures
            r == self.staked(*account, amount as int),
    {
        if amount == 0 {
            return Err(ContractError::AmountNotPositive);
        }
        let num_shares = self.num_shares_from_staked_amount_rounded_down(amount)?;
        if num_shares == 0 {
            return Err(ContractError::NoShares);
        }
        proof {
            if self.total_stake_shares == 0 {
                assert(self.total_stake_shares * amount == 0) by (nonlinear_arith)
                    requires
                        self.total_stake_shares == 0,
                ;
                vstd::arithmetic::div_mod::lemma_div_basics(self.total_staked_balance as int);
                assert(false);
            }
        }
        let charge_amount = self.staked_amount_from_num_shares_rounded_down(num_shares)?;
        if charge_amount == 0 {
            return Err(ContractError::NoShares);
        }
        if account.unstaked < charge_amount {
            return Err(ContractError::NotEnoughUnstaked { unstaked: account.unstaked });
        }
        let stake_shares = or_overflow(account.stake_shares.checked_add(num_shares))?;
        let stake_amount = self.staked_amount_from_num_shares_rounded_up(num_shares)?;
        let total_staked_balance = or_overflow(self.total_staked_balance.checked_add(stake_amount))?;
        let total_stake_shares = or_overflow(self.total_stake_shares.checked_add(num_shares))?;
        Ok(
            (
                Stake { total_staked_balance, total_stake_shares, ..*self },
                Account {
                    unstaked: account.unstaked - charge_amount,
                    stake_shares,
                    ..*account
                },
            ),
        )
    }

    /// The figures after a delegator has unstaked `amount`. It gives up the shares,
    /// rounded up, and gets what they are worth, rounded up, while the total shrinks by
    /// what they are worth, rounded down.
    pub open spec fn unstaked(self, account: Account, amount: int, epoch_height: int) -> Result<
        (Stake, Account),
        ContractError,
    > {
        let shares = self.shares_up(amount);
        let received = self.amount_up(shares);
        if amount == 0 {
            Err(ContractError::AmountNotPositive)
        } else if self.total_staked_balance == 0 {
            Err(ContractError::NoPrice)
        } else if !fits(shares) {
            Err(ContractError::Overflow)
        } else if shares == 0 {
            Err(ContractError::NoShares)
        } else if account.stake_shares < shares {
            Err(ContractError::NotEnoughStaked { staked: account.stake_shares })
        } else if self.total_stake_shares == 0 {
            Err(ContractError::NoPrice)
        } else if !fits(received) || !fits(account.unstaked + received) || epoch_height
            + NUM_EPOCHS_TO_UNLOCK > u64::MAX || !fits(self.amount_down(shares)) || !fits(
            self.total_staked_balance - self.amount_down(shares),
        ) || !fits(self.total_stake_shares - shares) {
            Err(ContractError::Overflow)
        } else {
            Ok(
                (
                    Stake {
                        total_staked_balance: (self.total_staked_balance - self.amount_down(
                            shares,
                        )) as u128,
                        total_stake_shares: (self.total_stake_shares - shares) as u128,
                        ..self
                    },
                    Account {
                        unstaked: (account.unstaked + received) as u128,
                        stake_shares: (account.stake_shares - shares) as u128,
                        unstaked_available_epoch_height: (epoch_height
                            + NUM_EPOCHS_TO_UNLOCK) as u64,
                    },
                ),
            )
        }
    }

    /// Unstakes `amount`.
    pub(crate) fn unstake(&self, account: &Account, amount: u128, epoch_height: u64) -> (r: Result<
        (Stake, Account),
        ContractError,
    >)
        ensures
            r == self.unstaked(*account, amount as int, epoch_height as int),
    {
        if amount == 0 {
            return Err(ContractError::AmountNotPositive);
        }
        let num_shares = self.num_shares_from_staked_amount_rounded_up(amount)?;
        if num_shares == 0 {
            return Err(ContractError::NoShares);
        }
        if account.stake_shares < num_shares {
            return Err(ContractError::NotEnoughStaked { staked: account.stake_shares });
        }
        let receive_amount = self.staked_amount_from_num_shares_rounded_up(num_shares)?;
        let unstaked = or_overflow(account.unstaked.checked_add(receive_amount))?;
        let unlock = or_overflow(epoch_height.checked_add(NUM_EPOCHS_TO_UNLOCK))?;
        let unstake_amount = self.staked_amount_from_num_shares_rounded_down(num_shares)?;
        let total_staked_balance = or_overflow(
            self.total_staked_balance.checked_sub(unstake_amount),
        )?;
        let total_stake_shares = or_overflow(self.total_stake_shares.checked_sub(num_shares))?;
        Ok(
            (
                Stake { total_staked_balance, total_stake_shares, ..*self },
                Account {
                    unstaked,
                    stake_shares: account.stake_shares - num_shares,
                    unstaked_available_epoch_height: unlock,
                },
            ),
        )
    }

    /// The figures after a delegator has withdrawn `amount` of its unstaked balance.
    pub open spec fn withdrawn(self, account: Account, amount: int, epoch_height: int) -> Result<
        (Stake, Account),
        ContractError,
    > {
        if amount == 0 {
            Err(ContractError::AmountNotPositive)
        } else if account.unstaked < amount {
            Err(ContractError::NotEnoughUnstaked { unstaked: account.unstaked })
        } else if account.unstaked_available_epoch_height > epoch_height {
            Err(
                ContractError::UnstakedNotAvailable {
                    unlock_epoch: account.unstaked_available_epoch_height,
                },
            )
        } else if !fits(self.last_total_balance - amount) {
            Err(ContractError::Overflow)
        } else {
            Ok(
                (
                    Stake {
                        last_total_balance: (self.last_total_balance - amount) as u128,
                        ..self
                    },
                    Account { unstaked: (account.unstaked - amount) as u128, ..account },
                ),
            )
        }
    }

    /// Withdraws `amount` of an unstaked balance.
    pub(crate) fn withdraw(&self, account: &Account, amount: u128, epoch_height: u64) -> (r: Result<
        (Stake, Account),
        ContractError,
    >)
        ensures
            r == self.withdrawn(*account, amount as int, epoch_height as int),
    {
        if amount == 0 {
            return Err(ContractError::AmountNotPositive);
        }
        if account.unstaked < amount {
            return Err(ContractError::NotEnoughUnstaked { unstaked: account.unstaked });
        }
        if account.unstaked_available_epoch_height > epoch_height {
            return Err(
                ContractError::UnstakedNotAvailable {
                    unlock_epoch: account.unstaked_available_epoch_height,
                },
            );
        }
        let last_total_balance = or_overflow(self.last_total_balance.checked_sub(amount))?;
        Ok(
            (
                Stake { last_total_balance, ..*self },
                Account { unstaked: account.unstaked - amount, ..*account },
            ),
        )
    }
}

/// A product of numbers that are not negative is not negative.
proof fn lemma_product_nonnegative(x: int, y: int)
    by (nonlinear_arith)
    requires
        x >= 0,
        y >= 0,
    ensures
        x * y >= 0,
{
}

/// Saving an account: one that owns nothing is not kept.
pub open spec fn saved(
    accounts: Seq<(Seq<char>, Account)>,
    id: Seq<char>,
    account: Account,
) -> Seq<(Seq<char>, Account)> {
    if account.unstaked > 0 || account.stake_shares > 0 {
        filed(accounts, id, account)
    } else {
        withdrawn(accounts, id)
    }
}

impl PoolBooks {
    /// What is known of a delegator.
    pub open spec fn account(self, id: Seq<char>) -> Account {
        match lookup(self.accounts, id) {
            Some(a) => a,
            None => empty_account(),
        }
    }

    /// The books with other figures and one account saved.
    pub open spec fn with(self, stake: Stake, id: Seq<char>, account: Account) -> PoolBooks {
        PoolBooks { stake, accounts: saved(self.accounts, id, account) }
    }

    /// The books after the rewards of a new epoch have been shared out.
    pub open spec fn after(self, pinged: Pinged, owner: Seq<char>) -> PoolBooks {
        match pinged.owner_account {
            Some(a) => self.with(pinged.stake, owner, a),
            None => PoolBooks { stake: pinged.stake, ..self },
        }
    }

    /// The books with one account moved on from them.
    pub open spec fn moved(
        self,
        id: Seq<char>,
        movement: Result<(Stake, Account), ContractError>,
    ) -> Result<PoolBooks, ContractError> {
        match movement {
            Err(e) => Err(e),
            Ok((stake, account)) => Ok(self.with(stake, id, account)),
        }
    }
}

} // verus!
