//! What the settings of the pool keep true: roles, staking pools, fees and parameters.

use vstd::prelude::*;
use vstd::utf8::{encode_scalar, encode_utf8, leading_byte_width_1};

use crate::ids::{is_separator, valid_account_id};
use crate::laws::roles_differ;
use crate::metapool::MetaPool;
use crate::owner::{
    first_weight_refusal, listed, listed_weight, reweighted, weight_refusal, weights_refusal,
};
use crate::staking_pools::{
    pools_distinct, sum_staked, sum_waiting, total_weight, StakingPoolArgItem, StakingPoolInfo,
};
use crate::types::{
    nslp_id, Call, ContractError, ContractParamsJSON, RewardFeeFraction, BP_100_PERCENT,
    DEVELOPERS_REWARDS_FEE_BASIS_POINTS,
};
use crate::views::saturating;

verus! {

/// The entry of the liquidity pool is no account of the chain.
pub proof fn law_nslp_is_no_account()
    ensures
        !valid_account_id(nslp_id()),
{
    reveal_strlit("..NSLP..");
    let id = nslp_id();
    assert(id[0] == '.');
    let bytes = encode_utf8(id);
    assert(bytes == encode_scalar(id[0] as u32) + encode_utf8(id.drop_first()));
    assert(leading_byte_width_1(0x2e) == 0x2e) by (bit_vector);
    assert(bytes[0] == 0x2e);
    assert(is_separator(bytes[0]));
}

/// However roles are given anew, the accounts that hold one stay different, and none is
/// the entry of the liquidity pool.
pub proof fn law_roles_stay_different(before: MetaPool, call: &Call, id: String, after: MetaPool)
    requires
        roles_differ(before),
        ({
            ||| before.with_role(call, id@, (MetaPool { owner_account_id: id, ..before })) == Ok::<
                MetaPool,
                ContractError,
            >(after)
            ||| before.with_role(call, id@, (MetaPool { operator_account_id: id, ..before }))
                == Ok::<MetaPool, ContractError>(after)
            ||| before.with_role(call, id@, (MetaPool { treasury_account_id: id, ..before }))
                == Ok::<MetaPool, ContractError>(after)
        }),
    ensures
        roles_differ(after),
{
    law_nslp_is_no_account();
}

/// Resuming staking undoes pausing it.
pub proof fn law_resuming_undoes_pausing(pool: MetaPool, call: &Call)
    requires
        pool.pausing(call) is Ok,
    ensures
        pool.pausing(call)->Ok_0.unpausing(call) == Ok::<MetaPool, ContractError>(pool),
{
}

/// The parameters that were set are those that are shown, setting the shown ones again
/// takes back what was set in between, and accepted parameters leave a range for the
/// swap fee.
pub proof fn law_params_are_what_was_set(pool: MetaPool, params: ContractParamsJSON)
    ensures
        pool.with_params(params).params() == params,
        pool.with_params(params).with_params(pool.params()) == pool,
        params.nslp_max_discount_basis_points > params.nslp_min_discount_basis_points
            && pool.wf() ==> pool.with_params(params).wf(),
{
}

/// The fee that was set is the fee that is shown, but for the part of the developers,
/// which stays; it is a valid fraction of at most a tenth.
pub proof fn law_reward_fee_is_what_was_set(basis_points: u16)
    requires
        basis_points <= 1000,
    ensures
        ({
            let operator_part = saturating(
                basis_points as int,
                DEVELOPERS_REWARDS_FEE_BASIS_POINTS as int,
            );
            let shown = operator_part + DEVELOPERS_REWARDS_FEE_BASIS_POINTS;
            &&& basis_points >= DEVELOPERS_REWARDS_FEE_BASIS_POINTS ==> shown == basis_points
            &&& basis_points < DEVELOPERS_REWARDS_FEE_BASIS_POINTS ==> shown
                == DEVELOPERS_REWARDS_FEE_BASIS_POINTS
            &&& 10 * shown <= BP_100_PERCENT
            &&& (RewardFeeFraction {
                numerator: shown as u32,
                denominator: BP_100_PERCENT as u32,
            }).valid()
        }),
{
}

/// Accepted weights add up to a whole, none is half of it or more, and the staking
/// pools are the same as before, in the same order, with what is in them.
pub proof fn law_weights_are_whole(pools: Seq<StakingPoolInfo>, list: Seq<StakingPoolArgItem>)
    requires
        weights_refusal(pools, list) is None,
    ensures
        total_weight(reweighted(pools, list)) == BP_100_PERCENT,
        reweighted(pools, list).len() == pools.len(),
        forall|i: int|
            0 <= i < pools.len() ==> {
                &&& (#[trigger] reweighted(pools, list)[i]).weight_basis_points < 5000
                &&& reweighted(pools, list)[i].account_id == pools[i].account_id
            },
        pools_distinct(pools) ==> pools_distinct(reweighted(pools, list)),
        sum_staked(reweighted(pools, list)) == sum_staked(pools),
        sum_waiting(reweighted(pools, list)) == sum_waiting(pools),
{
    lemma_reweighted_total(pools, list);
    assert forall|i: int| 0 <= i < pools.len() implies (#[trigger] reweighted(
        pools,
        list,
    )[i]).weight_basis_points < 5000 by {
        lemma_no_refusal(pools, list, 0, i);
    }
}

proof fn lemma_reweighted_total(pools: Seq<StakingPoolInfo>, list: Seq<StakingPoolArgItem>)
    requires
        pools.len() == list.len(),
    ensures
        total_weight(reweighted(pools, list)) == listed_weight(list),
        sum_staked(reweighted(pools, list)) == sum_staked(pools),
        sum_waiting(reweighted(pools, list)) == sum_waiting(pools),
    decreases list.len(),
{
    if list.len() > 0 {
        lemma_reweighted_total(pools.drop_last(), list.drop_last());
        assert(reweighted(pools, list).drop_last() =~= reweighted(
            pools.drop_last(),
            list.drop_last(),
        ));
    }
}

proof fn lemma_no_refusal(
    pools: Seq<StakingPoolInfo>,
    list: Seq<StakingPoolArgItem>,
    from: int,
    i: int,
)
    requires
        0 <= from <= i < list.len(),
        first_weight_refusal(pools, list, from) is None,
    ensures
        weight_refusal(pools, list, i) is None,
    decreases i - from,
{
    if from < i {
        lemma_no_refusal(pools, list, from + 1, i);
    }
}

/// A staking pool that is added has no weight and nothing in it, so all sums stay, and
/// none is listed twice.
pub proof fn law_added_pool_keeps_sums(pools: Seq<StakingPoolInfo>, added: StakingPoolInfo)
    requires
        added.weight_basis_points == 0,
        added.staked == 0,
        added.unstaked == 0,
        !listed(pools, added.account_id@),
    ensures
        total_weight(pools.push(added)) == total_weight(pools),
        sum_staked(pools.push(added)) == sum_staked(pools),
        sum_waiting(pools.push(added)) == sum_waiting(pools),
        pools_distinct(pools) ==> pools_distinct(pools.push(added)),
{
    assert(pools.push(added).drop_last() =~= pools);
}

/// A staking pool that may be removed has no weight and nothing in it, so all sums stay,
/// and none is listed twice.
pub proof fn law_removed_pool_keeps_sums(pools: Seq<StakingPoolInfo>, i: int)
    requires
        0 <= i < pools.len(),
        pools[i].unused(),
    ensures
        total_weight(pools.remove(i)) == total_weight(pools),
        sum_staked(pools.remove(i)) == sum_staked(pools),
        sum_waiting(pools.remove(i)) == sum_waiting(pools),
        pools_distinct(pools) ==> pools_distinct(pools.remove(i)),
    decreases pools.len(),
{
    let n = pools.len() - 1;
    if i == n {
        assert(pools.remove(i) =~= pools.drop_last());
    } else {
        law_removed_pool_keeps_sums(pools.drop_last(), i);
        assert(pools.remove(i).drop_last() =~= pools.drop_last().remove(i));
        assert(pools.remove(i).last() == pools.last());
    }
}

} // verus!
