//! What the pool keeps about one account.

use vstd::prelude::*;

verus! {

/// Whether a number fits the type of the pool's amounts.
pub open spec fn fits(x: int) -> bool {
    0 <= x <= u128::MAX
}

/// Keeps the net amount that went in: what was added less what was taken out.
/// Since rewards can be taken out too, it can be negative.
#[derive(Clone, Copy, Debug, PartialEq, Eq, Structural)]
pub struct RewardMeter {
    pub delta_staked: i128,
}

impl RewardMeter {
    /// The meter after `value` has gone in.
    pub open spec fn staked(self, value: int) -> Option<RewardMeter> {
        if i128::MIN <= self.delta_staked + value <= i128::MAX {
            Some(RewardMeter { delta_staked: (self.delta_staked + value) as i128 })
        } else {
            None
        }
    }

    /// Registers that `value` goes in.
    pub fn stake(&self, value: u128) -> (r: Option<RewardMeter>)
        ensures
            r == self.staked(value as int),
    {
        match self.delta_staked.checked_add_unsigned(value) {
            Some(delta_staked) => Some(RewardMeter { delta_staked }),
            None => None,
        }
    }

    /// Registers that `value` is taken out.
    pub fn unstake(&self, value: u128) -> (r: Option<RewardMeter>)
        ensures
            r == self.staked(-value),
    {
        match self.delta_staked.checked_sub_unsigned(value) {
            Some(delta_staked) => Some(RewardMeter { delta_staked }),
            None => None,
        }
    }
}

/// The balances of one account.
#[derive(Clone, Copy, Debug, PartialEq, Eq, Structural)]
pub struct Account {
    /// NEAR that can be withdrawn or staked right away.
    pub available: u128,
    /// stNEAR: shares of the total that is staked.
    pub stake_shares: u128,
    /// NEAR that was unstaked and waits to be withdrawn.
    pub unstaked: u128,
    /// The epoch from which the unstaked NEAR can be withdrawn.
    pub unstaked_requested_unlock_epoch: u64,
    pub realized_meta: u128,
    /// Shares of the liquidity pool. In the pool's own entry: all of them.
    pub nslp_shares: u128,
    pub trip_start: u64,
    pub trip_start_stnear: u128,
    /// NEAR value of all stNEAR that came in.
    pub trip_accum_stakes: u128,
    /// NEAR value of all stNEAR that went out.
    pub trip_accum_unstakes: u128,
    pub staking_meter: RewardMeter,
    pub lp_meter: RewardMeter,
}

/// The account of somebody of whom nothing is known.
pub open spec fn empty_account() -> Account {
    Account {
        available: 0,
        stake_shares: 0,
        unstaked: 0,
        unstaked_requested_unlock_epoch: 0,
        realized_meta: 0,
        nslp_shares: 0,
        trip_start: 0,
        trip_start_stnear: 0,
        trip_accum_stakes: 0,
        trip_accum_unstakes: 0,
        staking_meter: RewardMeter { delta_staked: 0 },
        lp_meter: RewardMeter { delta_staked: 0 },
    }
}

impl Default for Account {
    fn default() -> (r: Self)
        ensures
            r == empty_account(),
    {
        Account {
            available: 0,
            stake_shares: 0,
            unstaked: 0,
            unstaked_requested_unlock_epoch: 0,
            realized_meta: 0,
            nslp_shares: 0,
            trip_start: 0,
            trip_start_stnear: 0,
            trip_accum_stakes: 0,
            trip_accum_unstakes: 0,
            staking_meter: RewardMeter { delta_staked: 0 },
            lp_meter: RewardMeter { delta_staked: 0 },
        }
    }
}

impl Account {
    /// Whether the account owns nothing, so that it need not be kept.
    pub open spec fn owns_nothing(self) -> bool {
        self.available == 0 && self.stake_shares == 0 && self.unstaked == 0 && self.nslp_shares == 0
            && self.realized_meta == 0
    }

    /// Whether the account owns nothing, so that it need not be kept.
    pub fn is_empty(&self) -> (r: bool)
        ensures
            r == self.owns_nothing(),
    {
        self.available == 0 && self.stake_shares == 0 && self.unstaked == 0 && self.nslp_shares == 0
            && self.realized_meta == 0
    }

    /// The account with `shares` stNEAR more, which are worth `value` NEAR.
    pub open spec fn plus_shares(self, shares: int, value: int) -> Option<Account> {
        if fits(self.stake_shares + shares) && fits(self.trip_accum_stakes + value)
            && self.staking_meter.staked(value) is Some {
            Some(
                Account {
                    stake_shares: (self.stake_shares + shares) as u128,
                    trip_accum_stakes: (self.trip_accum_stakes + value) as u128,
                    staking_meter: self.staking_meter.staked(value)->0,
                    ..self
                },
            )
        } else {
            None
        }
    }

    /// The account with `shares` stNEAR less, which are worth `value` NEAR.
    pub open spec fn minus_shares(self, shares: int, value: int) -> Option<Account> {
        if fits(self.stake_shares - shares) && fits(self.trip_accum_unstakes + value)
            && self.staking_meter.staked(-value) is Some {
            Some(
                Account {
                    stake_shares: (self.stake_shares - shares) as u128,
                    trip_accum_unstakes: (self.trip_accum_unstakes + value) as u128,
                    staking_meter: self.staking_meter.staked(-value)->0,
                    ..self
                },
            )
        } else {
            None
        }
    }

    /// The account with `shares` stNEAR more, which are worth `value` NEAR.
    pub fn add_stake_shares(&self, shares: u128, value: u128) -> (r: Option<Account>)
        ensures
            r == self.plus_shares(shares as int, value as int),
    {
        match (
            self.stake_shares.checked_add(shares),
            self.trip_accum_stakes.checked_add(value),
            self.staking_meter.stake(value),
        ) {
            (Some(stake_shares), Some(trip_accum_stakes), Some(staking_meter)) => Some(
                Account { stake_shares, trip_accum_stakes, staking_meter, ..*self },
            ),
            _ => None,
        }
    }

    /// The account with `shares` stNEAR less, which are worth `value` NEAR.
    pub fn sub_stake_shares(&self, shares: u128, value: u128) -> (r: Option<Account>)
        ensures
            r == self.minus_shares(shares as int, value as int),
    {
        match (
            self.stake_shares.checked_sub(shares),
            self.trip_accum_unstakes.checked_add(value),
            self.staking_meter.unstake(value),
        ) {
            (Some(stake_shares), Some(trip_accum_unstakes), Some(staking_meter)) => Some(
                Account { stake_shares, trip_accum_unstakes, staking_meter, ..*self },
            ),
            _ => None,
        }
    }

    /// The governance tokens that the account has been credited with.
    pub fn total_meta(&self) -> (r: u128)
        ensures
            r == self.realized_meta,
    {
        self.realized_meta
    }
}

} // verus!
