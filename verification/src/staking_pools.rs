//! The staking pools among which the stake is spread.

use vstd::prelude::*;

use crate::types::NUM_EPOCHS_TO_UNLOCK;

verus! {

/// What is known of one staking pool.
#[derive(Debug)]
pub struct StakingPoolInfo {
    pub account_id: String,
    /// The part of the stake that the pool is to hold.
    pub weight_basis_points: u16,
    pub staked: u128,
    /// What was unstaked and has not been retrieved yet.
    pub unstaked: u128,
    pub last_asked_rewards_epoch_height: u64,
    /// The epoch of the last request to unstake.
    pub unstk_req_epoch_height: u64,
    /// Set while a call to the pool is under way.
    pub busy_lock: bool,
}

/// A weight to be given to a staking pool.
#[derive(Debug)]
pub struct StakingPoolArgItem {
    pub account_id: String,
    pub weight_basis_points: u16,
}

impl StakingPoolInfo {
    /// A pool that has not been used yet.
    pub fn new(account_id: String, weight_basis_points: u16) -> (r: Self)
        ensures
            r == (StakingPoolInfo {
                account_id,
                weight_basis_points,
                staked: 0,
                unstaked: 0,
                last_asked_rewards_epoch_height: 0,
                unstk_req_epoch_height: 0,
                busy_lock: false,
            }),
    {
        StakingPoolInfo {
            account_id,
            weight_basis_points,
            staked: 0,
            unstaked: 0,
            last_asked_rewards_epoch_height: 0,
            unstk_req_epoch_height: 0,
            busy_lock: false,
        }
    }

    /// Whether nothing is in the pool, nor on its way there.
    pub open spec fn unused(&self) -> bool {
        !self.busy_lock && self.weight_basis_points == 0 && self.staked == 0 && self.unstaked == 0
    }

    /// Whether nothing is in the pool, nor on its way there.
    pub fn is_empty(&self) -> (r: bool)
        ensures
            r == self.unused(),
    {
        !self.busy_lock && self.weight_basis_points == 0 && self.staked == 0 && self.unstaked == 0
    }

    /// Whether unstaking could start in `epoch_height` without prolonging a wait that
    /// is under way.
    pub open spec fn can_unstake(&self, epoch_height: int) -> bool {
        &&& !self.busy_lock
        &&& (self.unstk_req_epoch_height > epoch_height || epoch_height
            >= self.unstk_req_epoch_height + NUM_EPOCHS_TO_UNLOCK)
    }

    /// Whether the wait after the last request to unstake is over.
    pub fn wait_period_ended(&self, epoch_height: u64) -> (r: bool)
        ensures
            r == (self.unstk_req_epoch_height > epoch_height || epoch_height
                >= self.unstk_req_epoch_height + NUM_EPOCHS_TO_UNLOCK),
    {
        self.unstk_req_epoch_height > epoch_height || epoch_height - self.unstk_req_epoch_height
            >= NUM_EPOCHS_TO_UNLOCK
    }
}

/// The stake in those pools that could start unstaking right away.
pub open spec fn ready_stake(pools: Seq<StakingPoolInfo>, epoch_height: int) -> int
    decreases pools.len(),
{
    if pools.len() == 0 {
        0
    } else {
        ready_stake(pools.drop_last(), epoch_height) + if pools.last().can_unstake(epoch_height) {
            pools.last().staked as int
        } else {
            0
        }
    }
}

/// Epochs until `amount` can be withdrawn: one waiting time if the pools that could
/// start unstaking right away hold more than that, else two.
pub open spec fn unstaking_delay(
    pools: Seq<StakingPoolInfo>,
    amount: int,
    epoch_height: int,
) -> int {
    if ready_stake(pools, epoch_height) > amount {
        NUM_EPOCHS_TO_UNLOCK as int
    } else {
        2 * NUM_EPOCHS_TO_UNLOCK
    }
}

proof fn lemma_ready_stake_grows(pools: Seq<StakingPoolInfo>, k: int, epoch_height: int)
    requires
        0 <= k <= pools.len(),
    ensures
        0 <= ready_stake(pools.take(k), epoch_height) <= ready_stake(pools, epoch_height),
    decreases pools.len(),
{
    if k == pools.len() {
        assert(pools.take(k) =~= pools);
        if k > 0 {
            lemma_ready_stake_grows(pools.drop_last(), k - 1, epoch_height);
        }
    } else {
        assert(pools.take(k) =~= pools.drop_last().take(k));
        lemma_ready_stake_grows(pools.drop_last(), k, epoch_height);
    }
}

/// Epochs until `amount` can be withdrawn.
pub fn compute_unstaking_delay(pools: &Vec<StakingPoolInfo>, amount: u128, epoch_height: u64) -> (r:
    u64)
    ensures
        r == unstaking_delay(pools@, amount as int, epoch_height as int),
{
    let mut ready: u128 = 0;
    let mut i: usize = 0;
    assert(pools@.take(0) =~= Seq::<StakingPoolInfo>::empty());
    while i < pools.len()
        invariant
            i <= pools@.len(),
            ready == ready_stake(pools@.take(i as int), epoch_height as int),
            ready <= amount,
        decreases pools.len() - i,
    {
        proof {
            assert(pools@.take(i + 1).drop_last() =~= pools@.take(i as int));
            lemma_ready_stake_grows(pools@, i + 1, epoch_height as int);
        }
        if !pools[i].busy_lock && pools[i].wait_period_ended(epoch_height) {
            match ready.checked_add(pools[i].staked) {
                Some(sum) => {
                    if sum > amount {
                        return NUM_EPOCHS_TO_UNLOCK;
                    }
                    ready = sum;
                },
                None => {
                    return NUM_EPOCHS_TO_UNLOCK;
                },
            }
        }
        i = i + 1;
    }
    assert(pools@.take(i as int) =~= pools@);
    2 * NUM_EPOCHS_TO_UNLOCK
}

/// The sum of all weights.
pub open spec fn total_weight(pools: Seq<StakingPoolInfo>) -> int
    decreases pools.len(),
{
    if pools.len() == 0 {
        0
    } else {
        total_weight(pools.drop_last()) + pools.last().weight_basis_points
    }
}

/// What is staked in all staking pools.
pub open spec fn sum_staked(pools: Seq<StakingPoolInfo>) -> int
    decreases pools.len(),
{
    if pools.len() == 0 {
        0
    } else {
        sum_staked(pools.drop_last()) + pools.last().staked
    }
}

/// What waits in all staking pools.
pub open spec fn sum_waiting(pools: Seq<StakingPoolInfo>) -> int
    decreases pools.len(),
{
    if pools.len() == 0 {
        0
    } else {
        sum_waiting(pools.drop_last()) + pools.last().unstaked
    }
}

/// No staking pool is listed twice.
pub open spec fn pools_distinct(pools: Seq<StakingPoolInfo>) -> bool {
    forall|i: int, j: int|
        0 <= i < j < pools.len() ==> (#[trigger] pools[i]).account_id@ != (
        #[trigger] pools[j]).account_id@
}

} // verus!
