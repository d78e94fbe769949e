//! The liquidity pool: swapping stNEAR for NEAR, and taking liquidity out.

use vstd::prelude::*;

use crate::account::{fits, Account};
use crate::ledger::{
    lemma_nonnegative, lemma_quotient_nonnegative, or_overflow, LiquidityRemoved, Totals,
};
use crate::types::{ContractError, DEVELOPERS_SWAP_CUT_BASIS_POINTS};
use crate::utils::{
    checked_apply_pct, close, is_close, lemma_quotient, lemma_quotient_at_most, pct_of,
};
use crate::wide::mul_div;

verus! {

/// The terms on which the liquidity pool swaps.
#[derive(Clone, Copy, Debug, PartialEq, Eq, Structural)]
pub struct SwapTerms {
    /// The liquidity from which the fee is the lowest.
    pub liquidity_target: u128,
    pub max_discount_basis_points: u16,
    pub min_discount_basis_points: u16,
    /// The treasury's part of the fee.
    pub treasury_cut_basis_points: u16,
    /// The operator's part of the fee.
    pub operator_cut_basis_points: u16,
}

/// What a swap comes to.
#[derive(Clone, Copy, Debug, PartialEq, Eq, Structural)]
pub struct SwapQuote {
    /// stNEAR sold.
    pub st_near: u128,
    /// What the stNEAR is worth in NEAR.
    pub value: u128,
    /// What the swap costs in NEAR.
    pub fee: u128,
    /// What is left for the seller.
    pub near: u128,
    /// The fee in stNEAR.
    pub fee_st_near: u128,
}

/// The books after a swap.
pub struct SwapSettled {
    pub totals: Totals,
    pub user: Account,
    pub nslp: Account,
    pub treasury: Account,
    pub operator: Account,
    pub developers: Account,
    /// What is to be transferred to the user.
    pub transfer: u128,
}

impl SwapTerms {
    /// The least fee is not above the highest.
    pub open spec fn wf(self) -> bool {
        self.min_discount_basis_points <= self.max_discount_basis_points
    }

    /// The fee for paying `near_out` NEAR out of `available` NEAR, in basis points:
    /// the highest if nothing would be left, the lowest if the target would be left,
    /// on a straight line in between.
    pub open spec fn discount(self, available: int, near_out: int) -> int {
        let left = available - near_out;
        if left <= 0 {
            self.max_discount_basis_points as int
        } else if left >= self.liquidity_target {
            self.min_discount_basis_points as int
        } else {
            self.max_discount_basis_points - (self.max_discount_basis_points
                - self.min_discount_basis_points) * left / (self.liquidity_target as int)
        }
    }

    /// The fee for paying `near_out` NEAR out of `available` NEAR, in basis points.
    pub fn discount_basis_points(&self, available: u128, near_out: u128) -> (r: u16)
        requires
            self.wf(),
        ensures
            r == self.discount(available as int, near_out as int),
            available <= near_out ==> r == self.max_discount_basis_points,
            available > near_out && available - near_out >= self.liquidity_target ==> r
                == self.min_discount_basis_points,
            0 < available - near_out < self.liquidity_target ==> ({
                let range = self.max_discount_basis_points - self.min_discount_basis_points;
                let below = self.max_discount_basis_points - r;
                below * self.liquidity_target <= range * (available - near_out) < below
                    * self.liquidity_target + self.liquidity_target
            }),
            self.min_discount_basis_points <= r <= self.max_discount_basis_points,
    {
        if available <= near_out {
            return self.max_discount_basis_points;
        }
        let left: u128 = available - near_out;
        if left >= self.liquidity_target {
            return self.min_discount_basis_points;
        }
        let range: u16 = self.max_discount_basis_points - self.min_discount_basis_points;
        proof {
            assert(range * left <= range * self.liquidity_target && range * left >= 0)
                by (nonlinear_arith)
                requires
                    left < self.liquidity_target,
                    range >= 0,
                    left >= 0,
            ;
            lemma_quotient_at_most(range * left, self.liquidity_target as int, range as int);
            lemma_quotient_nonnegative(range * left, self.liquidity_target as int);
            lemma_quotient(range * left, self.liquidity_target as int);
        }
        match mul_div(range as u128, left, self.liquidity_target) {
            Some(part) => self.max_discount_basis_points - part as u16,
            None => self.max_discount_basis_points,
        }
    }
}

impl Totals {
    /// How much stNEAR is sold when a swap of `requested` is asked of an account that
    /// owns `owned`: all of it, if that is close.
    pub open spec fn st_near_sold(requested: int, owned: int) -> int {
        if close(requested, owned) {
            owned
        } else {
            requested
        }
    }

    /// The swap fee in NEAR for stNEAR worth `value`.
    pub open spec fn swap_fee(terms: SwapTerms, available: int, value: int) -> int {
        pct_of(terms.discount(available, value), value)
    }

    /// What a swap comes to, or why it is refused.
    pub open spec fn quoted(
        self,
        terms: SwapTerms,
        user: Account,
        nslp: Account,
        st_near_to_burn: int,
        min_expected_near: u128,
    ) -> Result<SwapQuote, ContractError> {
        let st_near = Totals::st_near_sold(st_near_to_burn, user.stake_shares as int);
        let value = self.stake_value(st_near);
        let fee = Totals::swap_fee(terms, nslp.available as int, value);
        let near = value - fee;
        let fee_st_near = self.stake_shares_for(fee);
        if user.stake_shares < st_near {
            Err(ContractError::NotEnoughStNear { owned: user.stake_shares })
        } else if !fits(value) || !fits(near) {
            Err(ContractError::Overflow)
        } else if near < min_expected_near {
            Err(ContractError::PriceChanged { min_expected_near, near_to_receive: near as u128 })
        } else if nslp.available < near {
            Err(ContractError::NotEnoughLiquidity)
        } else if !fits(user.available + near) || !fits(fee_st_near) {
            Err(ContractError::Overflow)
        } else {
            Ok(
                SwapQuote {
                    st_near: st_near as u128,
                    value: value as u128,
                    fee: fee as u128,
                    near: near as u128,
                    fee_st_near: fee_st_near as u128,
                },
            )
        }
    }

    /// Works out what a swap comes to.
    pub fn quote_swap(
        &self,
        terms: &SwapTerms,
        user: &Account,
        nslp: &Account,
        st_near_to_burn: u128,
        min_expected_near: u128,
    ) -> (r: Result<SwapQuote, ContractError>)
        requires
            terms.wf(),
        ensures
            r == self.quoted(*terms, *user, *nslp, st_near_to_burn as int, min_expected_near),
            r is Ok ==> ({
                let q = r->Ok_0;
                let discount = terms.discount(nslp.available as int, q.value as int);
                &&& q.near == q.value - q.fee
                &&& q.fee * 10_000 <= discount * q.value < q.fee * 10_000 + 10_000
                &&& min_expected_near <= q.near <= nslp.available
            }),
    {
        let st_near: u128 = if is_close(st_near_to_burn, user.stake_shares) {
            user.stake_shares
        } else {
            st_near_to_burn
        };
        if user.stake_shares < st_near {
            return Err(ContractError::NotEnoughStNear { owned: user.stake_shares });
        }
        let value = self.amount_from_stake_shares(st_near)?;
        let discount = terms.discount_basis_points(nslp.available, value);
        proof {
            assert(discount * value >= 0) by (nonlinear_arith)
                requires
                    discount >= 0,
                    value >= 0,
            ;
            lemma_quotient_nonnegative(discount * value, 10_000);
        }
        let fee = or_overflow(checked_apply_pct(discount, value))?;
        let near = or_overflow(value.checked_sub(fee))?;
        if near < min_expected_near {
            return Err(
                ContractError::PriceChanged { min_expected_near, near_to_receive: near },
            );
        }
        if nslp.available < near {
            return Err(ContractError::NotEnoughLiquidity);
        }
        let _ = or_overflow(user.available.checked_add(near))?;
        let fee_st_near = self.stake_shares_from_amount(fee)?;
        Ok(SwapQuote { st_near, value, fee, near, fee_st_near })
    }

    /// The account of a beneficiary after its cut of a swap fee.
    pub open spec fn with_cut(self, beneficiary: Account, cut_bp: u16, fee_st_near: int) -> Option<
        Account,
    > {
        let cut = pct_of(cut_bp as int, fee_st_near);
        beneficiary.plus_shares(cut, self.stake_value(cut))
    }

    /// All that is cut from a swap fee.
    pub open spec fn cuts(terms: SwapTerms, fee_st_near: int) -> int {
        pct_of(terms.treasury_cut_basis_points as int, fee_st_near) + pct_of(
            terms.operator_cut_basis_points as int,
            fee_st_near,
        ) + pct_of(DEVELOPERS_SWAP_CUT_BASIS_POINTS as int, fee_st_near)
    }

    /// The books after a swap: the cuts go to their beneficiaries, the rest of the
    /// stNEAR goes to the liquidity pool, and the NEAR leaves the pool for the user.
    pub open spec fn settled(
        self,
        terms: SwapTerms,
        quote: SwapQuote,
        user: Account,
        nslp: Account,
        treasury: Account,
        operator: Account,
        developers: Account,
    ) -> Result<SwapSettled, ContractError> {
        let fee = quote.fee_st_near as int;
        let cuts = Totals::cuts(terms, fee);
        let to_pool = quote.st_near - cuts;
        let pool = Account { available: (nslp.available - quote.near) as u128, ..nslp };
        let seller = Account { available: (user.available + quote.near) as u128, ..user };
        if self.with_cut(treasury, terms.treasury_cut_basis_points, fee) is None || self.with_cut(
            operator,
            terms.operator_cut_basis_points,
            fee,
        ) is None || self.with_cut(developers, DEVELOPERS_SWAP_CUT_BASIS_POINTS, fee) is None
            || !fits(cuts) {
            Err(ContractError::Overflow)
        } else if fee <= cuts {
            Err(ContractError::FeeTooSmall)
        } else if !fits(to_pool) || pool.plus_shares(to_pool, self.stake_value(to_pool)) is None
            || seller.minus_shares(quote.st_near as int, quote.value as int) is None {
            Err(ContractError::Overflow)
        } else {
            match self.taken(
                seller.minus_shares(quote.st_near as int, quote.value as int)->0,
                quote.near as int,
            ) {
                Err(e) => Err(e),
                Ok((totals, user, transfer)) => match totals.paid_out(transfer as int) {
                    Err(e) => Err(e),
                    Ok(totals) => Ok(
                        SwapSettled {
                            totals,
                            user,
                            nslp: pool.plus_shares(to_pool, self.stake_value(to_pool))->0,
                            treasury: self.with_cut(
                                treasury,
                                terms.treasury_cut_basis_points,
                                fee,
                            )->0,
                            operator: self.with_cut(
                                operator,
                                terms.operator_cut_basis_points,
                                fee,
                            )->0,
                            developers: self.with_cut(
                                developers,
                                DEVELOPERS_SWAP_CUT_BASIS_POINTS,
                                fee,
                            )->0,
                            transfer,
                        },
                    ),
                },
            }
        }
    }

    /// Credits a beneficiary with its cut of a swap fee, and says how much that is.
    fn credit_cut(&self, beneficiary: &Account, cut_bp: u16, fee_st_near: u128) -> (r: Result<
        (Account, u128),
        ContractError,
    >)
        ensures
            match self.with_cut(*beneficiary, cut_bp, fee_st_near as int) {
                Some(a) => r == Ok::<_, ContractError>(
                    (a, pct_of(cut_bp as int, fee_st_near as int) as u128),
                ) && fits(pct_of(cut_bp as int, fee_st_near as int)),
                None => r == Err::<(Account, u128), ContractError>(ContractError::Overflow),
            },
    {
        proof {
            assert(cut_bp * fee_st_near >= 0) by (nonlinear_arith)
                requires
                    cut_bp >= 0,
                    fee_st_near >= 0,
            ;
            lemma_quotient_nonnegative(cut_bp * fee_st_near, 10_000);
            lemma_nonnegative(
                pct_of(cut_bp as int, fee_st_near as int),
                self.total_for_staking as int,
                self.total_stake_shares as int,
            );
        }
        let cut = or_overflow(checked_apply_pct(cut_bp, fee_st_near))?;
        let value = self.amount_from_stake_shares(cut)?;
        let credited = or_overflow(beneficiary.add_stake_shares(cut, value))?;
        Ok((credited, cut))
    }

    /// Carries out a swap.
    pub fn settle_swap(
        &self,
        terms: &SwapTerms,
        quote: &SwapQuote,
        user: &Account,
        nslp: &Account,
        treasury: &Account,
        operator: &Account,
        developers: &Account,
    ) -> (r: Result<SwapSettled, ContractError>)
        requires
            quote.near <= nslp.available,
            user.available + quote.near <= u128::MAX,
        ensures
            r == self.settled(*terms, *quote, *user, *nslp, *treasury, *operator, *developers),
    {
        let (treasury, treasury_cut) = self.credit_cut(
            treasury,
            terms.treasury_cut_basis_points,
            quote.fee_st_near,
        )?;
        let (operator, operator_cut) = self.credit_cut(
            operator,
            terms.operator_cut_basis_points,
            quote.fee_st_near,
        )?;
        let (developers, developers_cut) = self.credit_cut(
            developers,
            DEVELOPERS_SWAP_CUT_BASIS_POINTS,
            quote.fee_st_near,
        )?;
        let two_cuts = or_overflow(treasury_cut.checked_add(operator_cut))?;
        let cuts = or_overflow(two_cuts.checked_add(developers_cut))?;
        if quote.fee_st_near <= cuts {
            return Err(ContractError::FeeTooSmall);
        }
        let to_pool = or_overflow(quote.st_near.checked_sub(cuts))?;
        proof {
            lemma_nonnegative(
                to_pool as int,
                self.total_for_staking as int,
                self.total_stake_shares as int,
            );
        }
        let to_pool_value = self.amount_from_stake_shares(to_pool)?;
        let pool = Account { available: nslp.available - quote.near, ..*nslp };
        let nslp = or_overflow(pool.add_stake_shares(to_pool, to_pool_value))?;
        let seller = Account { available: user.available + quote.near, ..*user };
        let seller = or_overflow(seller.sub_stake_shares(quote.st_near, quote.value))?;
        let (totals, user, transfer) = self.take_from_available(&seller, quote.near)?;
        let totals = totals.native_transfer(transfer)?;
        Ok(SwapSettled { totals, user, nslp, treasury, operator, developers, transfer })
    }

    /// How much NEAR is removed from the liquidity pool, and how many of its shares
    /// are burned, when an account whose shares are worth `owned` asks for `amount`:
    /// everything, if that is close.
    pub open spec fn removal(self, account: Account, nslp: Account, amount: int) -> (int, int) {
        let owned = self.nslp_amount_for(account.nslp_shares as int, nslp);
        if close(amount, owned) {
            (owned, account.nslp_shares as int)
        } else {
            (amount, self.nslp_shares_for(amount, nslp))
        }
    }

    /// The books after an account has taken liquidity worth `amount` NEAR out: its
    /// part of the pool's stNEAR, and the rest in NEAR.
    pub open spec fn liquidity_removed(self, account: Account, nslp: Account, amount: int) -> Result<
        LiquidityRemoved,
        ContractError,
    > {
        let owned = self.nslp_amount_for(account.nslp_shares as int, nslp);
        let (to_remove, burned) = self.removal(account, nslp, amount);
        let st_near = nslp.stake_shares * burned / (nslp.nslp_shares as int);
        let value = self.stake_value(st_near);
        let near = to_remove - value;
        let user = Account {
            available: (account.available + near) as u128,
            nslp_shares: (account.nslp_shares - burned) as u128,
            lp_meter: account.lp_meter.staked(-to_remove)->0,
            ..account
        };
        let pool = Account {
            available: (nslp.available - near) as u128,
            nslp_shares: (nslp.nslp_shares - burned) as u128,
            ..nslp
        };
        if !fits(self.nslp_value(nslp)) || !fits(owned) {
            Err(ContractError::Overflow)
        } else if !close(amount, owned) && owned < amount {
            Err(ContractError::NotEnoughShareValue { value: owned as u128 })
        } else if !fits(burned) {
            Err(ContractError::Overflow)
        } else if burned == 0 {
            Err(ContractError::NoShares)
        } else if account.lp_meter.staked(-to_remove) is None {
            Err(ContractError::Overflow)
        } else if nslp.nslp_shares == 0 {
            Err(ContractError::NoPrice)
        } else if !fits(st_near) || !fits(value) {
            Err(ContractError::Overflow)
        } else if near < 0 {
            Err(ContractError::LiquidityInconsistency)
        } else if !fits(account.available + near) || !fits(account.nslp_shares - burned) || !fits(
            nslp.available - near,
        ) || !fits(nslp.nslp_shares - burned) || user.plus_shares(st_near, value) is None
            || pool.minus_shares(st_near, value) is None {
            Err(ContractError::Overflow)
        } else {
            match self.taken(user.plus_shares(st_near, value)->0, near) {
                Err(e) => Err(e),
                Ok((totals, user, transfer)) => match totals.paid_out(transfer as int) {
                    Err(e) => Err(e),
                    Ok(totals) => Ok(
                        LiquidityRemoved {
                            totals,
                            account: user,
                            nslp: pool.minus_shares(st_near, value)->0,
                            near: transfer,
                            st_near: st_near as u128,
                        },
                    ),
                },
            }
        }
    }

    /// Takes liquidity out.
    pub fn remove_liquidity(&self, account: &Account, nslp: &Account, amount: u128) -> (r: Result<
        LiquidityRemoved,
        ContractError,
    >)
        ensures
            r == self.liquidity_removed(*account, *nslp, amount as int),
            r is Ok ==> ({
                let burned = account.nslp_shares - r->Ok_0.account.nslp_shares;
                &&& burned > 0
                &&& r->Ok_0.st_near * nslp.nslp_shares <= nslp.stake_shares * burned
                    < r->Ok_0.st_near * nslp.nslp_shares + nslp.nslp_shares
                &&& r->Ok_0.account.stake_shares == account.stake_shares + r->Ok_0.st_near
                &&& r->Ok_0.nslp.stake_shares == nslp.stake_shares - r->Ok_0.st_near
                &&& r->Ok_0.nslp.nslp_shares == nslp.nslp_shares - burned
            }),
    {
        let owned = self.amount_from_nslp_shares(account.nslp_shares, nslp)?;
        let mut to_remove: u128 = owned;
        let mut burned: u128 = account.nslp_shares;
        if !is_close(amount, owned) {
            if owned < amount {
                return Err(ContractError::NotEnoughShareValue { value: owned });
            }
            to_remove = amount;
            burned = self.nslp_shares_from_amount(amount, nslp)?;
        }
        if burned == 0 {
            return Err(ContractError::NoShares);
        }
        let lp_meter = or_overflow(account.lp_meter.unstake(to_remove))?;
        if nslp.nslp_shares == 0 {
            return Err(ContractError::NoPrice);
        }
        proof {
            assert(nslp.stake_shares * burned >= 0) by (nonlinear_arith)
                requires
                    nslp.stake_shares >= 0,
                    burned >= 0,
            ;
            lemma_quotient_nonnegative(nslp.stake_shares * burned, nslp.nslp_shares as int);
            lemma_quotient(nslp.stake_shares * burned, nslp.nslp_shares as int);
        }
        let st_near = or_overflow(mul_div(nslp.stake_shares, burned, nslp.nslp_shares))?;
        let value = self.amount_from_stake_shares(st_near)?;
        if to_remove < value {
            return Err(ContractError::LiquidityInconsistency);
        }
        let near: u128 = to_remove - value;
        let available = or_overflow(account.available.checked_add(near))?;
        let nslp_shares = or_overflow(account.nslp_shares.checked_sub(burned))?;
        let pool_available = or_overflow(nslp.available.checked_sub(near))?;
        let pool_shares = or_overflow(nslp.nslp_shares.checked_sub(burned))?;
        let user = Account { available, nslp_shares, lp_meter, ..*account };
        let user = or_overflow(user.add_stake_shares(st_near, value))?;
        let pool = Account { available: pool_available, nslp_shares: pool_shares, ..*nslp };
        let pool = or_overflow(pool.sub_stake_shares(st_near, value))?;
        let (totals, user, transfer) = self.take_from_available(&user, near)?;
        let totals = totals.native_transfer(transfer)?;
        Ok(LiquidityRemoved { totals, account: user, nslp: pool, near: transfer, st_near })
    }
}

} // verus!
