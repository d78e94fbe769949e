//! What users do: stake, unstake, withdraw, swap, and provide liquidity.

use vstd::prelude::*;

use crate::account::fits;
use crate::books::Books;
use crate::laws::{
    in_order, law_add_liquidity_keeps_books, law_deposit_and_stake_keeps_books,
    law_remove_liquidity_keeps_books, law_stake_keeps_books, law_swap_keeps_books,
    law_unstake_keeps_books, law_withdraw_keeps_books, roles_differ,
};
use crate::metapool::{
    require_lockup_contract_calling, require_not_lockup_account_calling, settles, MetaPool,
};
use crate::movement_laws::{law_deposit_and_stake_in_figures, law_unstake_amount_in_figures};
use crate::staking_pools::{compute_unstaking_delay, unstaking_delay};
use crate::types::{
    developers_account_id, nslp_id, nslp_internal_account_id, Call, CallerKind,
    ContractError, LiquidUnstakeResult, RemoveLiquidityResult, Transfer,
};
use crate::upgrade::{
    enough_gas, gas_for_migration, migration_gas, require_enough_gas, UpgradePlan,
};
use crate::utils::{assert_one_yocto, is_close};

verus! {

/// Puts a refusal that comes first before an outcome.
pub open spec fn unless<T>(
    first: Result<(), ContractError>,
    outcome: Result<T, ContractError>,
) -> Result<T, ContractError> {
    match first {
        Err(e) => Err(e),
        Ok(()) => outcome,
    }
}

/// Calls from accounts whose tokens are locked up are refused.
pub open spec fn not_from_lockup_account(call: &Call) -> Result<(), ContractError> {
    if call.caller == CallerKind::LockupAccount {
        Err(ContractError::LockupAccountCalling)
    } else {
        Ok(())
    }
}

/// Only calls from the contract that acts for locked-up accounts are accepted.
pub open spec fn from_lockup_contract(call: &Call) -> Result<(), ContractError> {
    if call.caller == CallerKind::LockupContract {
        Ok(())
    } else {
        Err(ContractError::NotLockupContract)
    }
}

/// One yocto has to come with the call.
pub open spec fn one_yocto(call: &Call) -> Result<(), ContractError> {
    if call.attached_deposit == 1 {
        Ok(())
    } else {
        Err(ContractError::OneYoctoRequired)
    }
}

/// An outcome whose answer is dropped.
pub open spec fn silent<T>(outcome: Result<(Books, T), ContractError>) -> Result<
    (Books, ()),
    ContractError,
> {
    match outcome {
        Err(e) => Err(e),
        Ok((books, _)) => Ok((books, ())),
    }
}

impl MetaPool {
    /// Withdrawing `amount` of the unstaked NEAR of an account.
    pub open spec fn withdrawal(&self, account_id: String, amount: u128, epoch_height: u64) -> Result<
        (Books, Transfer),
        ContractError,
    > {
        match self@.withdraw(account_id@, amount as int, epoch_height as int) {
            Err(e) => Err(e),
            Ok(books) => Ok((books, Transfer { receiver_id: account_id, amount })),
        }
    }

    fn internal_withdraw_use_unstaked(
        &mut self,
        account_id: &String,
        amount: u128,
        epoch_height: u64,
    ) -> (r: Result<Transfer, ContractError>)
        requires
            old(self).wf(),
        ensures
            settles(
                *old(self),
                *final(self),
                r,
                old(self).withdrawal(*account_id, amount, epoch_height),
            ),
            final(self).wf(),
            in_order(*old(self)) ==> in_order(*final(self)),
    {
        let account = self.internal_get_account(account_id);
        let (totals, account) = self.totals().withdraw(&account, amount, epoch_height)?;
        proof {
            law_withdraw_keeps_books(self@, account_id@, amount as nat, epoch_height as nat);
        }
        self.commit(totals, account_id, &account);
        Ok(Transfer { receiver_id: account_id.clone(), amount })
    }

    /// Nothing has to be done regularly.
    pub fn ping(&mut self)
        ensures
            *final(self) == *old(self),
    {
    }

    /// Withdraws unstaked NEAR of the caller.
    pub fn withdraw(&mut self, call: &Call, amount: u128) -> (r: Result<Transfer, ContractError>)
        requires
            old(self).wf(),
        ensures
            settles(
                *old(self),
                *final(self),
                r,
                unless(
                    not_from_lockup_account(call),
                    old(self).withdrawal(call.predecessor, amount, call.epoch_height),
                ),
            ),
            final(self).wf(),
            in_order(*old(self)) ==> in_order(*final(self)),
    {
        require_not_lockup_account_calling(call)?;
        self.internal_withdraw_use_unstaked(&call.predecessor, amount, call.epoch_height)
    }

    /// Withdraws all unstaked NEAR of the caller.
    pub fn withdraw_all(&mut self, call: &Call) -> (r: Result<Transfer, ContractError>)
        requires
            old(self).wf(),
        ensures
            settles(
                *old(self),
                *final(self),
                r,
                unless(
                    not_from_lockup_account(call),
                    old(self).withdrawal(
                        call.predecessor,
                        old(self)@.account(call.predecessor@).unstaked,
                        call.epoch_height,
                    ),
                ),
            ),
            final(self).wf(),
            in_order(*old(self)) ==> in_order(*final(self)),
    {
        require_not_lockup_account_calling(call)?;
        let account = self.internal_get_account(&call.predecessor);
        self.internal_withdraw_use_unstaked(
            &call.predecessor,
            account.unstaked,
            call.epoch_height,
        )
    }

    /// Withdraws all unstaked NEAR of the caller.
    pub fn withdraw_unstaked(&mut self, call: &Call) -> (r: Result<Transfer, ContractError>)
        requires
            old(self).wf(),
        ensures
            settles(
                *old(self),
                *final(self),
                r,
                unless(
                    not_from_lockup_account(call),
                    old(self).withdrawal(
                        call.predecessor,
                        old(self)@.account(call.predecessor@).unstaked,
                        call.epoch_height,
                    ),
                ),
            ),
            final(self).wf(),
            in_order(*old(self)) ==> in_order(*final(self)),
    {
        self.withdraw_all(call)
    }

    fn internal_deposit_and_stake(&mut self, account_id: &String, amount: u128) -> (r: Result<
        u128,
        ContractError,
    >)
        requires
            old(self).wf(),
        ensures
            settles(
                *old(self),
                *final(self),
                r,
                old(self)@.deposit_and_stake(account_id@, amount, old(self).min_deposit_amount),
            ),
            final(self).wf(),
            in_order(*old(self)) && account_id@ != nslp_id() ==> in_order(*final(self)),
            r is Ok && account_id@ != nslp_id() ==> r->Ok_0 == final(self)@.account(
                account_id@,
            ).stake_shares - old(self)@.account(account_id@).stake_shares,
    {
        if amount < self.min_deposit_amount {
            return Err(
                ContractError::BelowMinDeposit { min_deposit_amount: self.min_deposit_amount },
            );
        }
        let nslp_account_id = nslp_internal_account_id();
        let account = self.internal_get_account(account_id);
        let nslp = self.internal_get_account(&nslp_account_id);
        let (totals, account) = self.totals().deposit(&account, amount)?;
        let staked = totals.stake(&account, amount)?;
        let (cleared, pool) = staked.totals.clear(&nslp, staked.amount)?;
        proof {
            if account_id@ != nslp_id() {
                law_deposit_and_stake_keeps_books(
                    self@,
                    account_id@,
                    amount,
                    self.min_deposit_amount,
                );
                law_deposit_and_stake_in_figures(
                    self@,
                    account_id@,
                    amount,
                    self.min_deposit_amount,
                );
            }
        }
        self.commit(staked.totals, account_id, &staked.account);
        if nslp.stake_shares > 0 {
            self.commit(cleared, &nslp_account_id, &pool);
        }
        Ok(staked.shares)
    }

    /// Stakes the NEAR that comes with the call for the caller, and gives the stNEAR
    /// that was minted for it.
    pub fn deposit_and_stake(&mut self, call: &Call) -> (r: Result<u128, ContractError>)
        requires
            old(self).wf(),
        ensures
            settles(
                *old(self),
                *final(self),
                r,
                unless(
                    not_from_lockup_account(call),
                    old(self)@.deposit_and_stake(
                        call.predecessor@,
                        call.attached_deposit,
                        old(self).min_deposit_amount,
                    ),
                ),
            ),
            final(self).wf(),
            in_order(*old(self)) && call.wf() ==> in_order(*final(self)),
            r is Ok && call.wf() ==> r->Ok_0 == final(self)@.account(
                call.predecessor@,
            ).stake_shares - old(self)@.account(call.predecessor@).stake_shares,
    {
        require_not_lockup_account_calling(call)?;
        self.internal_deposit_and_stake(&call.predecessor, call.attached_deposit)
    }

    /// Unstaking `shares` stNEAR of an account. Gives the NEAR that it has a claim to,
    /// and the epoch from which it can be withdrawn.
    pub open spec fn unstaking_of_shares(
        &self,
        id: Seq<char>,
        shares: int,
        epoch_height: u64,
    ) -> Result<(Books, (u128, u64)), ContractError> {
        let amount = self@.totals.stake_value(shares);
        let unlock_epoch = epoch_height + unstaking_delay(
            self.staking_pools@,
            amount,
            epoch_height as int,
        );
        if !fits(amount) {
            Err(ContractError::Overflow)
        } else {
            match self@.unstake(id, shares, amount, unlock_epoch) {
                Err(e) => Err(e),
                Ok(books) => Ok((books, (amount as u128, unlock_epoch as u64))),
            }
        }
    }

    /// Unstaking `amount` NEAR of an account.
    pub open spec fn unstaking(&self, id: Seq<char>, amount: int, epoch_height: u64) -> Result<
        (Books, ()),
        ContractError,
    > {
        let (shares, near) = self@.unstake_request(id, amount);
        let unlock_epoch = epoch_height + unstaking_delay(
            self.staking_pools@,
            near,
            epoch_height as int,
        );
        match self@.unstake_request_refusal(id, amount) {
            Some(e) => Err(e),
            None => match self@.unstake(id, shares, near, unlock_epoch) {
                Err(e) => Err(e),
                Ok(books) => Ok((books, ())),
            },
        }
    }

    fn internal_unstake_shares(&mut self, account_id: &String, shares: u128, epoch_height: u64) -> (r:
        Result<(u128, u64), ContractError>)
        requires
            old(self).wf(),
        ensures
            settles(
                *old(self),
                *final(self),
                r,
                old(self).unstaking_of_shares(account_id@, shares as int, epoch_height),
            ),
            final(self).wf(),
            in_order(*old(self)) ==> in_order(*final(self)),
    {
        let account = self.internal_get_account(account_id);
        let totals = self.totals();
        let amount = totals.amount_from_stake_shares(shares)?;
        let delay = compute_unstaking_delay(&self.staking_pools, amount, epoch_height);
        let (totals, account) = totals.unstake(&account, shares, amount, epoch_height, delay)?;
        proof {
            law_unstake_keeps_books(
                self@,
                account_id@,
                shares as nat,
                amount as nat,
                (epoch_height + delay) as nat,
            );
        }
        self.commit(totals, account_id, &account);
        Ok((amount, epoch_height + delay))
    }

    /// Unstakes all stNEAR of the caller. The NEAR for it can be withdrawn after the
    /// waiting time.
    pub fn unstake_all(&mut self, call: &Call) -> (r: Result<(), ContractError>)
        requires
            old(self).wf(),
        ensures
            settles(
                *old(self),
                *final(self),
                r,
                unless(
                    not_from_lockup_account(call),
                    silent(
                        old(self).unstaking_of_shares(
                            call.predecessor@,
                            old(self)@.account(call.predecessor@).stake_shares as int,
                            call.epoch_height,
                        ),
                    ),
                ),
            ),
            final(self).wf(),
            in_order(*old(self)) ==> in_order(*final(self)),
    {
        require_not_lockup_account_calling(call)?;
        let account = self.internal_get_account(&call.predecessor);
        let _ = self.internal_unstake_shares(
            &call.predecessor,
            account.stake_shares,
            call.epoch_height,
        )?;
        Ok(())
    }

    /// Unstakes stNEAR of the caller worth `amount` NEAR. The NEAR for it can be
    /// withdrawn after the waiting time.
    pub fn unstake(&mut self, call: &Call, amount: u128) -> (r: Result<(), ContractError>)
        requires
            old(self).wf(),
        ensures
            settles(
                *old(self),
                *final(self),
                r,
                unless(
                    not_from_lockup_account(call),
                    old(self).unstaking(call.predecessor@, amount as int, call.epoch_height),
                ),
            ),
            final(self).wf(),
            in_order(*old(self)) ==> in_order(*final(self)),
            r is Ok ==> ({
                let (t, n) = (
                    old(self).total_for_staking as int,
                    old(self).total_stake_shares as int,
                );
                let before = old(self)@.account(call.predecessor@);
                let after = final(self)@.account(call.predecessor@);
                let burned = before.stake_shares - after.stake_shares;
                ||| after.stake_shares == 0
                ||| after.unstaked == before.unstaked + amount && burned * t <= n * amount < burned
                    * t + t
            }),
    {
        require_not_lockup_account_calling(call)?;
        let account = self.internal_get_account(&call.predecessor);
        let totals = self.totals();
        let value = totals.amount_from_stake_shares(account.stake_shares)?;
        let mut shares: u128 = account.stake_shares;
        let mut near: u128 = value;
        if !is_close(amount, value) {
            if value < amount {
                return Err(ContractError::NotEnoughStaked { staked: value });
            }
            shares = totals.stake_shares_from_amount(amount)?;
            near = amount;
        }
        let delay = compute_unstaking_delay(&self.staking_pools, near, call.epoch_height);
        let (totals, account) = totals.unstake(&account, shares, near, call.epoch_height, delay)?;
        proof {
            law_unstake_keeps_books(
                self@,
                call.predecessor@,
                shares as nat,
                near as nat,
                (call.epoch_height + delay) as nat,
            );
            law_unstake_amount_in_figures(
                *self,
                call.predecessor@,
                amount as nat,
                call.epoch_height,
            );
        }
        self.commit(totals, &call.predecessor, &account);
        Ok(())
    }

    /// Stakes the NEAR that comes with the call for a locked-up account, and gives the
    /// stNEAR that was minted for it.
    pub fn stake_for_lockup(&mut self, call: &Call, lockup_account_id: &String) -> (r: Result<
        u128,
        ContractError,
    >)
        requires
            old(self).wf(),
        ensures
            settles(
                *old(self),
                *final(self),
                r,
                unless(
                    from_lockup_contract(call),
                    old(self)@.deposit_and_stake(
                        lockup_account_id@,
                        call.attached_deposit,
                        old(self).min_deposit_amount,
                    ),
                ),
            ),
            final(self).wf(),
            in_order(*old(self)) && lockup_account_id@ != nslp_id() ==> in_order(*final(self)),
            r is Ok && lockup_account_id@ != nslp_id() ==> r->Ok_0 == final(self)@.account(
                lockup_account_id@,
            ).stake_shares - old(self)@.account(lockup_account_id@).stake_shares,
    {
        require_lockup_contract_calling(call)?;
        self.internal_deposit_and_stake(lockup_account_id, call.attached_deposit)
    }

    /// Unstakes exactly `shares` stNEAR of a locked-up account. Gives the NEAR for it,
    /// and the epoch from which it can be withdrawn.
    pub fn unstake_from_lockup_shares(
        &mut self,
        call: &Call,
        lockup_account_id: &String,
        shares: u128,
    ) -> (r: Result<(u128, u64), ContractError>)
        requires
            old(self).wf(),
        ensures
            settles(
                *old(self),
                *final(self),
                r,
                unless(
                    from_lockup_contract(call),
                    old(self).unstaking_of_shares(
                        lockup_account_id@,
                        shares as int,
                        call.epoch_height,
                    ),
                ),
            ),
            final(self).wf(),
            in_order(*old(self)) ==> in_order(*final(self)),
    {
        require_lockup_contract_calling(call)?;
        self.internal_unstake_shares(lockup_account_id, shares, call.epoch_height)
    }

    /// Withdraws unstaked NEAR of a locked-up account.
    pub fn withdraw_to_lockup(&mut self, call: &Call, lockup_account_id: &String, amount: u128) -> (r:
        Result<Transfer, ContractError>)
        requires
            old(self).wf(),
        ensures
            settles(
                *old(self),
                *final(self),
                r,
                unless(
                    from_lockup_contract(call),
                    old(self).withdrawal(*lockup_account_id, amount, call.epoch_height),
                ),
            ),
            final(self).wf(),
            in_order(*old(self)) ==> in_order(*final(self)),
    {
        require_lockup_contract_calling(call)?;
        self.internal_withdraw_use_unstaked(lockup_account_id, amount, call.epoch_height)
    }

    /// The caller's swap of stNEAR for NEAR.
    pub open spec fn liquid_unstaking(
        &self,
        id: Seq<char>,
        st_near_to_burn: u128,
        min_expected_near: u128,
    ) -> Result<(Books, LiquidUnstakeResult), ContractError> {
        match self@.swap(
            self.terms(),
            id,
            self.treasury_account_id@,
            self.operator_account_id@,
            st_near_to_burn as int,
            min_expected_near,
        ) {
            Err(e) => Err(e),
            Ok((books, transfer, quote)) => Ok(
                (books, LiquidUnstakeResult { near: transfer, fee: quote.fee_st_near, meta: 0 }),
            ),
        }
    }

    /// Swaps stNEAR of the caller for NEAR out of the liquidity pool, at a discount.
    /// What it gives as `near` is to be transferred to the caller.
    pub fn liquid_unstake(&mut self, call: &Call, st_near_to_burn: u128, min_expected_near: u128) -> (r:
        Result<LiquidUnstakeResult, ContractError>)
        requires
            old(self).wf(),
        ensures
            settles(
                *old(self),
                *final(self),
                r,
                unless(
                    old(self).idle(),
                    old(self).liquid_unstaking(
                        call.predecessor@,
                        st_near_to_burn,
                        min_expected_near,
                    ),
                ),
            ),
            final(self).wf(),
            in_order(*old(self)) && call.wf() && roles_differ(*old(self)) ==> in_order(
                *final(self),
            ),
    {
        self.require_not_busy_nor_paused()?;
        let nslp_account_id = nslp_internal_account_id();
        let developers_account_id = developers_account_id();
        let terms = self.swap_terms();
        let totals = self.totals();
        let user = self.internal_get_account(&call.predecessor);
        let nslp = self.internal_get_account(&nslp_account_id);
        let quote = totals.quote_swap(&terms, &user, &nslp, st_near_to_burn, min_expected_near)?;
        if call.predecessor == self.treasury_account_id {
            return Err(ContractError::TreasuryAccount);
        }
        if call.predecessor == self.operator_account_id {
            return Err(ContractError::OperatorAccount);
        }
        if call.predecessor == developers_account_id {
            return Err(ContractError::DevelopersAccount);
        }
        let treasury_account_id = self.treasury_account_id.clone();
        let operator_account_id = self.operator_account_id.clone();
        let treasury = self.internal_get_account(&treasury_account_id);
        let operator = self.internal_get_account(&operator_account_id);
        let developers = self.internal_get_account(&developers_account_id);
        let settled = totals.settle_swap(
            &terms,
            &quote,
            &user,
            &nslp,
            &treasury,
            &operator,
            &developers,
        )?;
        proof {
            if call.wf() && roles_differ(*self) {
                law_swap_keeps_books(
                    self@,
                    self.terms(),
                    call.predecessor@,
                    self.treasury_account_id@,
                    self.operator_account_id@,
                    st_near_to_burn as nat,
                    min_expected_near,
                );
            }
        }
        self.commit(settled.totals, &treasury_account_id, &settled.treasury);
        self.commit(settled.totals, &operator_account_id, &settled.operator);
        self.commit(settled.totals, &developers_account_id, &settled.developers);
        self.commit(settled.totals, &nslp_account_id, &settled.nslp);
        self.commit(settled.totals, &call.predecessor, &settled.user);
        Ok(LiquidUnstakeResult { near: settled.transfer, fee: quote.fee_st_near, meta: 0 })
    }

    /// Puts the NEAR that comes with the call into the liquidity pool. Gives the part
    /// of the pool that the caller owns, in basis points.
    pub fn nslp_add_liquidity(&mut self, call: &Call) -> (r: Result<u16, ContractError>)
        requires
            old(self).wf(),
        ensures
            settles(
                *old(self),
                *final(self),
                r,
                old(self)@.add_liquidity(
                    call.predecessor@,
                    call.attached_deposit,
                    old(self).min_deposit_amount,
                ),
            ),
            final(self).wf(),
            in_order(*old(self)) && call.wf() ==> in_order(*final(self)),
    {
        let amount = call.attached_deposit;
        if amount < self.min_deposit_amount {
            return Err(
                ContractError::BelowMinDeposit { min_deposit_amount: self.min_deposit_amount },
            );
        }
        let nslp_account_id = nslp_internal_account_id();
        let account = self.internal_get_account(&call.predecessor);
        let nslp = self.internal_get_account(&nslp_account_id);
        let (totals, account) = self.totals().deposit(&account, amount)?;
        let added = totals.add_liquidity(&account, &nslp, amount)?;
        proof {
            if call.wf() {
                law_add_liquidity_keeps_books(
                    self@,
                    call.predecessor@,
                    amount,
                    self.min_deposit_amount,
                );
            }
        }
        self.commit(added.totals, &call.predecessor, &added.account);
        self.commit(added.totals, &nslp_account_id, &added.nslp);
        Ok(added.share_bp)
    }

    /// The caller's removal of liquidity.
    pub open spec fn removing_liquidity(&self, id: Seq<char>, amount: u128) -> Result<
        (Books, RemoveLiquidityResult),
        ContractError,
    > {
        match self@.remove_liquidity(id, amount as int) {
            Err(e) => Err(e),
            Ok((books, l)) => Ok(
                (books, RemoveLiquidityResult { near: l.near, st_near: l.st_near }),
            ),
        }
    }

    /// Takes liquidity worth `amount` NEAR out of the liquidity pool: part of it in
    /// stNEAR, the rest in NEAR, which is to be transferred to the caller.
    pub fn nslp_remove_liquidity(&mut self, call: &Call, amount: u128) -> (r: Result<
        RemoveLiquidityResult,
        ContractError,
    >)
        requires
            old(self).wf(),
        ensures
            settles(
                *old(self),
                *final(self),
                r,
                unless(
                    old(self).idle(),
                    old(self).removing_liquidity(call.predecessor@, amount),
                ),
            ),
            final(self).wf(),
            in_order(*old(self)) && call.wf() ==> in_order(*final(self)),
    {
        self.require_not_busy_nor_paused()?;
        let nslp_account_id = nslp_internal_account_id();
        let account = self.internal_get_account(&call.predecessor);
        let nslp = self.internal_get_account(&nslp_account_id);
        let removed = self.totals().remove_liquidity(&account, &nslp, amount)?;
        proof {
            if call.wf() {
                law_remove_liquidity_keeps_books(self@, call.predecessor@, amount as nat);
            }
        }
        self.commit(removed.totals, &call.predecessor, &removed.account);
        self.commit(removed.totals, &nslp_account_id, &removed.nslp);
        Ok(RemoveLiquidityResult { near: removed.near, st_near: removed.st_near })
    }

    /// Staking `amount` NEAR out of the liquidity pool.
    pub open spec fn staking_from_nslp(&self, amount: u128) -> Result<(Books, ()), ContractError> {
        let available = self@.account(nslp_id()).available;
        if available <= amount {
            Err(ContractError::AmountAboveLiquidity)
        } else if available - amount <= self.nslp_liquidity_target {
            Err(ContractError::LiquidityBelowTarget)
        } else {
            match self@.stake(nslp_id(), amount as int) {
                Err(e) => Err(e),
                Ok(books) => Ok((books, ())),
            }
        }
    }

    /// Stakes NEAR out of the liquidity pool, as far as more than its target is left.
    pub fn stake_from_nslp(&mut self, call: &Call, near_amount: u128) -> (r: Result<
        (),
        ContractError,
    >)
        requires
            old(self).wf(),
        ensures
            settles(
                *old(self),
                *final(self),
                r,
                unless(
                    unless(one_yocto(call), old(self).operator_or_owner_only(call)),
                    old(self).staking_from_nslp(near_amount),
                ),
            ),
            final(self).wf(),
            in_order(*old(self)) ==> in_order(*final(self)),
    {
        assert_one_yocto(call.attached_deposit)?;
        self.require_operator_or_owner(call)?;
        let nslp_account_id = nslp_internal_account_id();
        let nslp = self.internal_get_account(&nslp_account_id);
        if nslp.available <= near_amount {
            return Err(ContractError::AmountAboveLiquidity);
        }
        if nslp.available - near_amount <= self.nslp_liquidity_target {
            return Err(ContractError::LiquidityBelowTarget);
        }
        let staked = self.totals().stake(&nslp, near_amount)?;
        proof {
            law_stake_keeps_books(self@, nslp_id(), near_amount as nat);
        }
        self.commit(staked.totals, &nslp_account_id, &staked.account);
        Ok(())
    }

    /// Accepts a call of the owner to replace the contract's code with the input of the
    /// call, and gives what has to be done for it.
    pub fn upgrade(
        &self,
        call: &Call,
        current_account_id: &String,
        prepaid_gas: u64,
        used_gas: u64,
        input: Option<Vec<u8>>,
    ) -> (r: Result<UpgradePlan, ContractError>)
        ensures
            match unless(
                unless(self.owner_only(call), enough_gas(prepaid_gas)),
                gas_for_migration(prepaid_gas, used_gas),
            ) {
                Err(e) => r == Err::<UpgradePlan, ContractError>(e),
                Ok(gas) => match input {
                    None => r == Err::<UpgradePlan, ContractError>(ContractError::MissingCode),
                    Some(code) => {
                        &&& r is Ok
                        &&& r->Ok_0.deploys_and_migrates(current_account_id@, code@, gas)
                    },
                },
            },
    {
        self.require_owner_calling(call)?;
        require_enough_gas(prepaid_gas)?;
        let gas = migration_gas(prepaid_gas, used_gas)?;
        match input {
            None => Err(ContractError::MissingCode),
            Some(code) => Ok(UpgradePlan::new(current_account_id, code, gas)),
        }
    }
}

} // verus!
