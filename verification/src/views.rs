//! What can be asked about accounts and prices.

use vstd::prelude::*;

use crate::account::{fits, Account};
use crate::account_map::lemma_position;
use crate::books::Books;
use crate::ledger::{lemma_quotient_nonnegative, or_overflow, Totals};
use crate::metapool::MetaPool;
use crate::types::{
    nslp_id, ContractError, GetAccountInfoResult, HumanReadableAccount, RewardFeeFraction,
    BP_100_PERCENT, DEVELOPERS_REWARDS_FEE_BASIS_POINTS, ONE_E24,
};
use crate::utils::{checked_apply_pct, lemma_quotient};
use crate::wide::mul_div;

verus! {

/// An account as a staking pool shows it.
pub open spec fn human_readable(
    totals: Totals,
    account: Account,
    account_id: String,
    epoch_height: u64,
) -> Result<HumanReadableAccount, ContractError> {
    let value = totals.stake_value(account.stake_shares as int);
    if fits(value) {
        Ok(
            HumanReadableAccount {
                account_id,
                unstaked_balance: account.unstaked,
                staked_balance: value as u128,
                can_withdraw: epoch_height >= account.unstaked_requested_unlock_epoch,
            },
        )
    } else {
        Err(ContractError::Overflow)
    }
}

/// The end of the window of `limit` entries from `from_index` on, in a list of `len`.
pub open spec fn window_end(from_index: int, limit: int, len: int) -> int {
    if from_index + limit < len {
        from_index + limit
    } else {
        len
    }
}

/// The end of the window of `limit` entries from `from_index` on, in a list of `len`.
pub fn end_of_window(from_index: u64, limit: u64, len: u64) -> (r: Result<u64, ContractError>)
    ensures
        r == (if from_index + limit > u64::MAX {
            Err(ContractError::Overflow)
        } else {
            Ok(window_end(from_index as int, limit as int, len as int) as u64)
        }),
{
    let end = or_overflow(from_index.checked_add(limit))?;
    if end < len {
        Ok(end)
    } else {
        Ok(len)
    }
}

/// What is left after `b` is taken from `a`, at least nothing.
pub open spec fn saturating(a: int, b: int) -> int {
    if a > b {
        a - b
    } else {
        0
    }
}

/// What the account's shares of the liquidity pool are worth, and their part of the
/// pool in basis points.
pub open spec fn nslp_part(totals: Totals, account: Account, nslp: Account) -> Result<
    (u128, u16),
    ContractError,
> {
    let value = totals.nslp_amount_for(account.nslp_shares as int, nslp);
    if account.nslp_shares == 0 {
        Ok((0, 0))
    } else if !fits(totals.nslp_value(nslp)) || !fits(value) {
        Err(ContractError::Overflow)
    } else if nslp.nslp_shares == 0 {
        Err(ContractError::NoPrice)
    } else if !fits(Totals::nslp_share_bp(account, nslp)) {
        Err(ContractError::Overflow)
    } else {
        Ok((value as u128, (Totals::nslp_share_bp(account, nslp) as u128) as u16))
    }
}

/// Why what is known of an account cannot be shown.
pub open spec fn account_info_refusal(books: Books, account: Account) -> Option<ContractError> {
    let value = books.totals.stake_value(account.stake_shares as int);
    if !fits(value) {
        Some(ContractError::Overflow)
    } else {
        match nslp_part(books.totals, account, books.account(nslp_id())) {
            Err(e) => Some(e),
            Ok(_) => if !fits(account.available + value + account.unstaked) || !fits(
                value + account.trip_accum_unstakes,
            ) || account.staking_meter.delta_staked == i128::MIN {
                Some(ContractError::Overflow)
            } else {
                None
            },
        }
    }
}

/// An account with all that is known of it.
pub open spec fn account_info(
    books: Books,
    account: Account,
    account_id: String,
    epoch_height: u64,
) -> Result<GetAccountInfoResult, ContractError> {
    let value = books.totals.stake_value(account.stake_shares as int);
    let delta = account.staking_meter.delta_staked;
    match account_info_refusal(books, account) {
        Some(e) => Err(e),
        None => {
            let (nslp_share_value, nslp_share_bp) = nslp_part(
                books.totals,
                account,
                books.account(nslp_id()),
            )->Ok_0;
            Ok(
                GetAccountInfoResult {
                    account_id,
                    available: account.available,
                    st_near: account.stake_shares,
                    valued_st_near: value as u128,
                    meta: account.realized_meta,
                    realized_meta: account.realized_meta,
                    unstaked: account.unstaked,
                    unstaked_requested_unlock_epoch: account.unstaked_requested_unlock_epoch,
                    unstake_full_epochs_wait_left: (saturating(
                        account.unstaked_requested_unlock_epoch as int,
                        epoch_height as int,
                    ) as u64) as u16,
                    can_withdraw: epoch_height >= account.unstaked_requested_unlock_epoch,
                    total: (account.available + value + account.unstaked) as u128,
                    trip_start: account.trip_start,
                    trip_start_stnear: account.trip_start_stnear,
                    trip_accum_stakes: if delta >= 0 {
                        delta as u128
                    } else {
                        0
                    },
                    trip_accum_unstakes: if delta < 0 {
                        (-delta) as u128
                    } else {
                        0
                    },
                    trip_rewards: saturating(
                        value + account.trip_accum_unstakes,
                        account.trip_accum_stakes as int,
                    ) as u128,
                    nslp_shares: account.nslp_shares,
                    nslp_share_value,
                    nslp_share_bp,
                },
            )
        },
    }
}

impl MetaPool {
    /// The unstaked balance of an account. What its shares are worth has to fit.
    pub fn get_account_unstaked_balance(&self, account_id: &String) -> (r: Result<
        u128,
        ContractError,
    >)
        requires
            self.wf(),
        ensures
            ({
                let account = self@.account(account_id@);
                r == (if fits(self@.totals.stake_value(account.stake_shares as int)) {
                    Ok(account.unstaked)
                } else {
                    Err(ContractError::Overflow)
                })
            }),
    {
        let shown = self.get_account(account_id.clone(), 0)?;
        Ok(shown.unstaked_balance)
    }

    /// The staked balance of an account: what its shares are worth now.
    pub fn get_account_staked_balance(&self, account_id: &String) -> (r: Result<
        u128,
        ContractError,
    >)
        requires
            self.wf(),
        ensures
            ({
                let value = self@.totals.stake_value(
                    self@.account(account_id@).stake_shares as int,
                );
                r == (if fits(value) {
                    Ok(value as u128)
                } else {
                    Err(ContractError::Overflow)
                })
            }),
    {
        let account = self.internal_get_account(account_id);
        self.totals().amount_from_stake_shares(account.stake_shares)
    }

    /// All that an account owns, in NEAR: available, staked and unstaked.
    pub fn get_account_total_balance(&self, account_id: &String) -> (r: Result<
        u128,
        ContractError,
    >)
        requires
            self.wf(),
        ensures
            ({
                let account = self@.account(account_id@);
                let value = self@.totals.stake_value(account.stake_shares as int);
                r == (if fits(value) && fits(account.available + value + account.unstaked) {
                    Ok((account.available + value + account.unstaked) as u128)
                } else {
                    Err(ContractError::Overflow)
                })
            }),
    {
        let account = self.internal_get_account(account_id);
        let value = self.totals().amount_from_stake_shares(account.stake_shares)?;
        let sum = or_overflow(account.available.checked_add(value))?;
        or_overflow(sum.checked_add(account.unstaked))
    }

    /// What an account can withdraw immediately.
    pub fn get_account_available_balance(&self, account_id: &String) -> (r: u128)
        requires
            self.wf(),
        ensures
            r == self@.account(account_id@).available,
    {
        self.internal_get_account(account_id).available
    }

    /// Whether an account can withdraw its unstaked balance in this epoch. What its
    /// shares are worth has to fit.
    pub fn is_account_unstaked_balance_available(&self, account_id: &String, epoch_height: u64) -> (r:
        Result<bool, ContractError>)
        requires
            self.wf(),
        ensures
            ({
                let account = self@.account(account_id@);
                r == (if fits(self@.totals.stake_value(account.stake_shares as int)) {
                    Ok(epoch_height >= account.unstaked_requested_unlock_epoch)
                } else {
                    Err(ContractError::Overflow)
                })
            }),
    {
        let shown = self.get_account(account_id.clone(), epoch_height)?;
        Ok(shown.can_withdraw)
    }

    /// The account of the owner.
    pub fn get_owner_id(&self) -> (r: String)
        ensures
            r == self.owner_account_id,
    {
        self.owner_account_id.clone()
    }

    /// The part of the rewards that is kept as a fee, in basis points.
    pub fn get_reward_fee_bp(&self) -> (r: Result<u16, ContractError>)
        ensures
            ({
                let fee = self.operator_rewards_fee_basis_points
                    + DEVELOPERS_REWARDS_FEE_BASIS_POINTS;
                r == (if fee <= u16::MAX {
                    Ok(fee as u16)
                } else {
                    Err(ContractError::Overflow)
                })
            }),
            r is Ok ==> r->Ok_0 == self.operator_rewards_fee_basis_points + 20,
    {
        or_overflow(
            self.operator_rewards_fee_basis_points.checked_add(
                DEVELOPERS_REWARDS_FEE_BASIS_POINTS,
            ),
        )
    }

    /// The part of the rewards that is kept as a fee, as a fraction.
    pub fn get_reward_fee_fraction(&self) -> (r: Result<RewardFeeFraction, ContractError>)
        ensures
            ({
                let fee = self.operator_rewards_fee_basis_points
                    + DEVELOPERS_REWARDS_FEE_BASIS_POINTS;
                r == (if fee <= u16::MAX {
                    Ok(
                        RewardFeeFraction {
                            numerator: fee as u32,
                            denominator: BP_100_PERCENT as u32,
                        },
                    )
                } else {
                    Err(ContractError::Overflow)
                })
            }),
            r is Ok ==> r->Ok_0.numerator == self.operator_rewards_fee_basis_points + 20
                && r->Ok_0.denominator == 10_000,
    {
        let fee = self.get_reward_fee_bp()?;
        Ok(RewardFeeFraction { numerator: fee as u32, denominator: BP_100_PERCENT as u32 })
    }

    /// Whether staking is paused.
    pub fn is_staking_paused(&self) -> (r: bool)
        ensures
            r == self.staking_paused,
    {
        self.staking_paused
    }

    /// An account as a staking pool shows it.
    pub fn get_account(&self, account_id: String, epoch_height: u64) -> (r: Result<
        HumanReadableAccount,
        ContractError,
    >)
        requires
            self.wf(),
        ensures
            r == human_readable(
                self@.totals,
                self@.account(account_id@),
                account_id,
                epoch_height,
            ),
    {
        let account = self.internal_get_account(&account_id);
        let staked_balance = self.totals().amount_from_stake_shares(account.stake_shares)?;
        Ok(
            HumanReadableAccount {
                account_id,
                unstaked_balance: account.unstaked,
                staked_balance,
                can_withdraw: epoch_height >= account.unstaked_requested_unlock_epoch,
            },
        )
    }

    /// The number of accounts that own something.
    pub fn get_number_of_accounts(&self) -> (r: u64)
        ensures
            r == self.accounts@.len(),
    {
        self.accounts.len() as u64
    }

    /// Up to `limit` accounts from `from_index` on, as a staking pool shows them.
    pub fn get_accounts(&self, from_index: u64, limit: u64, epoch_height: u64) -> (r: Result<
        Vec<HumanReadableAccount>,
        ContractError,
    >)
        requires
            self.wf(),
        ensures
            ({
                let end = window_end(from_index as int, limit as int, self.accounts@.len() as int);
                let readable = |i: int|
                    fits(self@.totals.stake_value(self.accounts@[i].1.stake_shares as int));
                match r {
                    Err(e) => {
                        &&& e == ContractError::Overflow
                        &&& from_index + limit > u64::MAX || exists|i: int|
                            from_index <= i < end && !#[trigger] readable(i)
                    },
                    Ok(list) => {
                        &&& from_index + limit <= u64::MAX
                        &&& list@.len() == saturating(end, from_index as int)
                        &&& forall|k: int|
                            0 <= k < list@.len() ==> {
                                &&& (#[trigger] list@[k]).account_id@ == self.accounts@[from_index
                                    + k].0
                                &&& human_readable(
                                    self@.totals,
                                    self.accounts@[from_index + k].1,
                                    list@[k].account_id,
                                    epoch_height,
                                ) == Ok::<_, ContractError>(list@[k])
                            }
                    },
                }
            }),
    {
        let len: usize = self.accounts.len();
        let end = end_of_window(from_index, limit, len as u64)?;
        let mut list: Vec<HumanReadableAccount> = Vec::new();
        let mut i: u64 = from_index;
        let ghost readable = |i: int|
            fits(self@.totals.stake_value(self.accounts@[i].1.stake_shares as int));
        while i < end
            invariant
                self.wf(),
                from_index <= i,
                i <= end || i == from_index,
                len == self.accounts@.len(),
                end <= len,
                end == window_end(from_index as int, limit as int, self.accounts@.len() as int),
                readable == (|i: int|
                    fits(self@.totals.stake_value(self.accounts@[i].1.stake_shares as int))),
                list@.len() == i - from_index,
                forall|k: int|
                    0 <= k < list@.len() ==> {
                        &&& (#[trigger] list@[k]).account_id@ == self.accounts@[from_index + k].0
                        &&& human_readable(
                            self@.totals,
                            self.accounts@[from_index + k].1,
                            list@[k].account_id,
                            epoch_height,
                        ) == Ok::<_, ContractError>(list@[k])
                    },
            decreases end - i,
        {
            proof {
                lemma_position(self.accounts@, i as int);
            }
            let id = self.accounts.key_at(i as usize);
            match self.get_account(id, epoch_height) {
                Ok(shown) => {
                    list.push(shown);
                },
                Err(e) => {
                    assert(!readable(i as int));
                    return Err(e);
                },
            }
            i = i + 1;
        }
        Ok(list)
    }

    /// An account with all that is known of it.
    pub fn get_account_info(&self, account_id: String, epoch_height: u64) -> (r: Result<
        GetAccountInfoResult,
        ContractError,
    >)
        requires
            self.wf(),
        ensures
            r == account_info(self@, self@.account(account_id@), account_id, epoch_height),
    {
        let account = self.internal_get_account(&account_id);
        let totals = self.totals();
        let staked_near = totals.amount_from_stake_shares(account.stake_shares)?;
        let mut nslp_share_value: u128 = 0;
        let mut nslp_share_bp: u16 = 0;
        if account.nslp_shares != 0 {
            let nslp = self.internal_get_nslp_account();
            nslp_share_value = totals.amount_from_nslp_shares(account.nslp_shares, &nslp)?;
            if nslp.nslp_shares == 0 {
                return Err(ContractError::NoPrice);
            }
            proof {
                lemma_quotient_nonnegative(10_000 * account.nslp_shares, nslp.nslp_shares as int);
            }
            let bp = or_overflow(mul_div(10_000, account.nslp_shares, nslp.nslp_shares))?;
            nslp_share_bp = bp as u16;
        }
        let sum = or_overflow(account.available.checked_add(staked_near))?;
        let total = or_overflow(sum.checked_add(account.unstaked))?;
        let gained = or_overflow(staked_near.checked_add(account.trip_accum_unstakes))?;
        let delta: i128 = account.staking_meter.delta_staked;
        if delta == i128::MIN {
            return Err(ContractError::Overflow);
        }
        Ok(
            GetAccountInfoResult {
                account_id,
                available: account.available,
                st_near: account.stake_shares,
                valued_st_near: staked_near,
                meta: account.total_meta(),
                realized_meta: account.realized_meta,
                unstaked: account.unstaked,
                unstaked_requested_unlock_epoch: account.unstaked_requested_unlock_epoch,
                unstake_full_epochs_wait_left: account.unstaked_requested_unlock_epoch.saturating_sub(
                    epoch_height,
                ) as u16,
                can_withdraw: epoch_height >= account.unstaked_requested_unlock_epoch,
                total,
                trip_start: account.trip_start,
                trip_start_stnear: account.trip_start_stnear,
                trip_accum_stakes: if delta >= 0 {
                    delta as u128
                } else {
                    0
                },
                trip_accum_unstakes: if delta < 0 {
                    (-delta) as u128
                } else {
                    0
                },
                trip_rewards: gained.saturating_sub(account.trip_accum_stakes),
                nslp_shares: account.nslp_shares,
                nslp_share_value,
                nslp_share_bp,
            },
        )
    }

    /// Up to `limit` accounts from `from_index` on, with all that is known of them.
    pub fn get_accounts_info(&self, from_index: u64, limit: u64, epoch_height: u64) -> (r: Result<
        Vec<GetAccountInfoResult>,
        ContractError,
    >)
        requires
            self.wf(),
        ensures
            ({
                let end = window_end(from_index as int, limit as int, self.accounts@.len() as int);
                match r {
                    Err(e) => {
                        ||| from_index + limit > u64::MAX && e == ContractError::Overflow
                        ||| from_index + limit <= u64::MAX && exists|i: int|
                            {
                                &&& from_index <= i < end
                                &&& #[trigger] account_info_refusal(self@, self.accounts@[i].1)
                                    == Some(e)
                                &&& forall|j: int|
                                    from_index <= j < i ==> #[trigger] account_info_refusal(
                                        self@,
                                        self.accounts@[j].1,
                                    ) is None
                            }
                    },
                    Ok(list) => {
                        &&& from_index + limit <= u64::MAX
                        &&& list@.len() == saturating(end, from_index as int)
                        &&& forall|k: int|
                            0 <= k < list@.len() ==> {
                                &&& (#[trigger] list@[k]).account_id@ == self.accounts@[from_index
                                    + k].0
                                &&& account_info(
                                    self@,
                                    self.accounts@[from_index + k].1,
                                    list@[k].account_id,
                                    epoch_height,
                                ) == Ok::<_, ContractError>(list@[k])
                            }
                    },
                }
            }),
    {
        let len: usize = self.accounts.len();
        let end = end_of_window(from_index, limit, len as u64)?;
        let mut list: Vec<GetAccountInfoResult> = Vec::new();
        let mut i: u64 = from_index;
        while i < end
            invariant
                self.wf(),
                from_index <= i,
                i <= end || i == from_index,
                len == self.accounts@.len(),
                end <= len,
                end == window_end(from_index as int, limit as int, self.accounts@.len() as int),
                list@.len() == i - from_index,
                from_index + limit <= u64::MAX,
                forall|j: int|
                    from_index <= j < i ==> #[trigger] account_info_refusal(
                        self@,
                        self.accounts@[j].1,
                    ) is None,
                forall|k: int|
                    0 <= k < list@.len() ==> {
                        &&& (#[trigger] list@[k]).account_id@ == self.accounts@[from_index + k].0
                        &&& account_info(
                            self@,
                            self.accounts@[from_index + k].1,
                            list@[k].account_id,
                            epoch_height,
                        ) == Ok::<_, ContractError>(list@[k])
                    },
            decreases end - i,
        {
            proof {
                lemma_position(self.accounts@, i as int);
            }
            let id = self.accounts.key_at(i as usize);
            let shown = self.get_account_info(id, epoch_height)?;
            list.push(shown);
            i = i + 1;
        }
        Ok(list)
    }

    /// What is paid for stNEAR worth `value` NEAR.
    pub open spec fn sale_price(&self, value: int) -> int {
        value - Totals::swap_fee(
            self.terms(),
            self@.account(nslp_id()).available as int,
            value,
        )
    }

    /// How much NEAR one gets for selling `stnear_to_sell` stNEAR.
    pub fn get_near_amount_sell_stnear(&self, stnear_to_sell: u128) -> (r: Result<
        u128,
        ContractError,
    >)
        requires
            self.wf(),
        ensures
            ({
                let value = self@.totals.stake_value(stnear_to_sell as int);
                r == (if fits(value) && fits(self.sale_price(value)) {
                    Ok(self.sale_price(value) as u128)
                } else {
                    Err(ContractError::Overflow)
                })
            }),
    {
        let nslp = self.internal_get_nslp_account();
        let value = self.totals().amount_from_stake_shares(stnear_to_sell)?;
        let discount = self.swap_terms().discount_basis_points(nslp.available, value);
        proof {
            assert(discount * value >= 0) by (nonlinear_arith)
                requires
                    discount >= 0,
                    value >= 0,
            ;
            lemma_quotient_nonnegative(discount * value, 10_000);
        }
        let fee = or_overflow(checked_apply_pct(discount, value))?;
        or_overflow(value.checked_sub(fee))
    }

    /// The swap fee for an amount, in basis points.
    pub fn nslp_get_discount_basis_points(&self, stnear_to_sell: u128) -> (r: u16)
        requires
            self.wf(),
        ensures
            r == self.terms().discount(
                self@.account(nslp_id()).available as int,
                stnear_to_sell as int,
            ),
    {
        let nslp = self.internal_get_nslp_account();
        self.swap_terms().discount_basis_points(nslp.available, stnear_to_sell)
    }

    /// How many NEAR one stNEAR is worth.
    pub fn get_st_near_price(&self) -> (r: Result<u128, ContractError>)
        ensures
            r == (if fits(self@.totals.stake_value(ONE_E24 as int)) {
                Ok(self@.totals.stake_value(ONE_E24 as int) as u128)
            } else {
                Err(ContractError::Overflow)
            }),
            r is Ok && self.total_stake_shares > 0 ==> r->Ok_0 * self.total_stake_shares
                <= 1_000_000_000_000_000_000_000_000 * self.total_for_staking < r->Ok_0
                * self.total_stake_shares + self.total_stake_shares,
            self.total_stake_shares == 0 ==> r == Ok::<u128, ContractError>(0),
    {
        proof {
            if self.total_stake_shares > 0 {
                lemma_quotient(
                    1_000_000_000_000_000_000_000_000 * self.total_for_staking,
                    self.total_stake_shares as int,
                );
            }
        }
        self.totals().amount_from_stake_shares(ONE_E24)
    }
}

} // verus!
