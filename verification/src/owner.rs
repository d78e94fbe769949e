//! What the owner and the operator do, and what the contract tells about itself.

use vstd::prelude::*;

use crate::account::fits;
use crate::ids::{ends_with, has_suffix, is_valid_account_id, valid_account_id};
use crate::laws::{in_order, roles_differ};
use crate::metapool::{are_key_accounts_different, key_accounts_differ, MetaPool};
use crate::settings_laws::{
    law_added_pool_keeps_sums, law_nslp_is_no_account, law_removed_pool_keeps_sums,
    law_weights_are_whole,
};
use crate::staking_pools::{
    compute_unstaking_delay, unstaking_delay, StakingPoolArgItem, StakingPoolInfo,
};
use crate::types::{
    developers_account_id, developers_id, nslp_id, Call, ContractError, ContractParamsJSON,
    GetContractStateResult, NEP129Response, StakingPoolJSONInfo, BP_100_PERCENT,
    DEVELOPERS_REWARDS_FEE_BASIS_POINTS, ONE_E24, ONE_NEAR, TEN_NEAR,
};
use crate::users::{one_yocto, unless};
use crate::utils::assert_one_yocto;
use crate::views::saturating;

verus! {

/// Whether a call has come out as it should: refused and without any effect, or
/// accepted with the given state as its result.
pub open spec fn applies(
    before: MetaPool,
    after: MetaPool,
    answer: Result<(), ContractError>,
    outcome: Result<MetaPool, ContractError>,
) -> bool {
    match outcome {
        Err(e) => answer == Err::<(), ContractError>(e) && after == before,
        Ok(state) => answer == Ok::<(), ContractError>(()) && after == state,
    }
}

/// A staking pool as it is shown.
pub open spec fn pool_shown(pools: Seq<StakingPoolInfo>, i: int) -> StakingPoolJSONInfo {
    StakingPoolJSONInfo {
        inx: (i as usize) as u16,
        account_id: pools[i].account_id,
        weight_basis_points: pools[i].weight_basis_points,
        staked: pools[i].staked,
        unstaked: pools[i].unstaked,
        last_asked_rewards_epoch_height: pools[i].last_asked_rewards_epoch_height,
        unstaked_requested_epoch_height: pools[i].unstk_req_epoch_height,
        busy_lock: pools[i].busy_lock,
    }
}

/// Whether a staking pool is on the list.
pub open spec fn listed(pools: Seq<StakingPoolInfo>, id: Seq<char>) -> bool {
    exists|i: int| 0 <= i < pools.len() && (#[trigger] pools[i]).account_id@ == id
}

/// Whether an account can be a staking pool.
pub open spec fn is_pool_account(id: Seq<char>) -> bool {
    has_suffix(id, ".poolv1.near"@) || has_suffix(id, ".testnet"@)
}

/// Why the weight of one staking pool cannot be set.
pub open spec fn weight_refusal(
    pools: Seq<StakingPoolInfo>,
    list: Seq<StakingPoolArgItem>,
    i: int,
) -> Option<ContractError> {
    if pools[i].account_id@ != list[i].account_id@ {
        Some(ContractError::PoolOrderChanged { inx: i as usize })
    } else if list[i].weight_basis_points >= 5000 {
        Some(ContractError::WeightTooHigh { inx: i as usize })
    } else if list[i].weight_basis_points != pools[i].weight_basis_points && pools[i].busy_lock {
        Some(ContractError::PoolBusy { inx: i as usize })
    } else {
        None
    }
}

/// The first reason, from place `i` on, why weights cannot be set.
pub open spec fn first_weight_refusal(
    pools: Seq<StakingPoolInfo>,
    list: Seq<StakingPoolArgItem>,
    i: int,
) -> Option<ContractError>
    decreases list.len() - i,
{
    if i < 0 || i >= list.len() {
        None
    } else if weight_refusal(pools, list, i) is Some {
        weight_refusal(pools, list, i)
    } else {
        first_weight_refusal(pools, list, i + 1)
    }
}

/// The staking pools with new weights.
pub open spec fn reweighted(
    pools: Seq<StakingPoolInfo>,
    list: Seq<StakingPoolArgItem>,
) -> Seq<StakingPoolInfo> {
    Seq::new(
        pools.len(),
        |i: int|
            StakingPoolInfo { weight_basis_points: list[i].weight_basis_points, ..pools[i] },
    )
}

/// The sum of the weights on a list.
pub open spec fn listed_weight(list: Seq<StakingPoolArgItem>) -> int
    decreases list.len(),
{
    if list.len() == 0 {
        0
    } else {
        listed_weight(list.drop_last()) + list.last().weight_basis_points
    }
}

/// Why new weights are refused: the list has to name the staking pools that there
/// are, in their order, none with half of the stake or more, none changed that is
/// busy, and all weights together have to be a whole.
pub open spec fn weights_refusal(
    pools: Seq<StakingPoolInfo>,
    list: Seq<StakingPoolArgItem>,
) -> Option<ContractError> {
    if list.len() != pools.len() {
        Some(ContractError::PoolCountChanged)
    } else if first_weight_refusal(pools, list, 0) is Some {
        first_weight_refusal(pools, list, 0)
    } else if listed_weight(list) != BP_100_PERCENT {
        Some(ContractError::WeightsNotComplete)
    } else {
        None
    }
}

proof fn lemma_listed_weight_grows(list: Seq<StakingPoolArgItem>, k: int)
    requires
        0 <= k <= list.len(),
    ensures
        0 <= listed_weight(list.take(k)) <= listed_weight(list),
    decreases list.len(),
{
    if k == list.len() {
        assert(list.take(k) =~= list);
        if k > 0 {
            lemma_listed_weight_grows(list.drop_last(), k - 1);
        }
    } else {
        assert(list.take(k) =~= list.drop_last().take(k));
        lemma_listed_weight_grows(list.drop_last(), k);
    }
}

/// Why new weights are refused.
fn check_weights(pools: &Vec<StakingPoolInfo>, list: &Vec<StakingPoolArgItem>) -> (r: Result<
    (),
    ContractError,
>)
    ensures
        r == (match weights_refusal(pools@, list@) {
            Some(e) => Err(e),
            None => Ok(()),
        }),
{
    if list.len() != pools.len() {
        return Err(ContractError::PoolCountChanged);
    }
    let mut i: usize = 0;
    while i < list.len()
        invariant
            i <= list@.len(),
            list@.len() == pools@.len(),
            first_weight_refusal(pools@, list@, 0) == first_weight_refusal(
                pools@,
                list@,
                i as int,
            ),
        decreases list.len() - i,
    {
        let bp: u16 = list[i].weight_basis_points;
        if !(pools[i].account_id == list[i].account_id) {
            return Err(ContractError::PoolOrderChanged { inx: i });
        }
        if bp >= 5000 {
            return Err(ContractError::WeightTooHigh { inx: i });
        }
        if pools[i].weight_basis_points != bp && pools[i].busy_lock {
            return Err(ContractError::PoolBusy { inx: i });
        }
        i = i + 1;
    }
    let mut sum: u16 = 0;
    i = 0;
    assert(list@.take(0) =~= Seq::<StakingPoolArgItem>::empty());
    while i < list.len()
        invariant
            i <= list@.len(),
            list@.len() == pools@.len(),
            sum == listed_weight(list@.take(i as int)),
            first_weight_refusal(pools@, list@, 0) is None,
        decreases list.len() - i,
    {
        proof {
            assert(list@.take(i + 1).drop_last() =~= list@.take(i as int));
            lemma_listed_weight_grows(list@, i + 1);
        }
        match sum.checked_add(list[i].weight_basis_points) {
            Some(more) => {
                sum = more;
            },
            None => {
                return Err(ContractError::WeightsNotComplete);
            },
        }
        i = i + 1;
    }
    assert(list@.take(i as int) =~= list@);
    if sum != BP_100_PERCENT {
        return Err(ContractError::WeightsNotComplete);
    }
    Ok(())
}

/// An optional text that is left out if it is empty.
pub open spec fn none_if_empty(text: String) -> Option<String> {
    if text@.len() == 0 {
        None
    } else {
        Some(text)
    }
}

fn non_empty(text: String) -> (r: Option<String>)
    ensures
        r == none_if_empty(text),
{
    if text.as_str().is_empty() {
        None
    } else {
        Some(text)
    }
}

fn copy_of(text: &Option<String>) -> (r: Option<String>)
    ensures
        r == *text,
{
    match text {
        Some(t) => Some(t.clone()),
        None => None,
    }
}

impl MetaPool {
    /// Accepts a call of the owner to add a full access key to the contract's account,
    /// once no account is left. Gives the key to add.
    pub fn add_full_access_key(&self, call: &Call, new_public_key: String) -> (r: Result<
        String,
        ContractError,
    >)
        ensures
            r == unless(
                self.owner_only(call),
                if self.accounts@.len() == 0 {
                    Ok(new_public_key)
                } else {
                    Err(ContractError::ContractHasAccounts)
                },
            ),
    {
        self.require_owner_calling(call)?;
        if self.accounts.len() != 0 {
            return Err(ContractError::ContractHasAccounts);
        }
        Ok(new_public_key)
    }

    /// The state after staking has been paused.
    pub open spec fn pausing(self, call: &Call) -> Result<MetaPool, ContractError> {
        unless(
            self.operator_or_owner_only(call),
            if self.staking_paused {
                Err(ContractError::AlreadyPaused)
            } else {
                Ok((MetaPool { staking_paused: true, ..self }))
            },
        )
    }

    /// The state after staking has been resumed.
    pub open spec fn unpausing(self, call: &Call) -> Result<MetaPool, ContractError> {
        unless(
            self.operator_or_owner_only(call),
            if self.staking_paused {
                Ok((MetaPool { staking_paused: false, ..self }))
            } else {
                Err(ContractError::NotPaused)
            },
        )
    }

    /// Pauses staking.
    pub fn pause_staking(&mut self, call: &Call) -> (r: Result<(), ContractError>)
        ensures
            applies(
                *old(self),
                *final(self),
                r,
                old(self).pausing(call),
            ),
            in_order(*old(self)) ==> in_order(*final(self)),
    {
        self.require_operator_or_owner(call)?;
        if self.staking_paused {
            return Err(ContractError::AlreadyPaused);
        }
        self.staking_paused = true;
        Ok(())
    }

    /// Resumes staking.
    pub fn un_pause_staking(&mut self, call: &Call) -> (r: Result<(), ContractError>)
        ensures
            applies(
                *old(self),
                *final(self),
                r,
                old(self).unpausing(call),
            ),
            in_order(*old(self)) ==> in_order(*final(self)),
    {
        self.require_operator_or_owner(call)?;
        if !self.staking_paused {
            return Err(ContractError::NotPaused);
        }
        self.staking_paused = false;
        Ok(())
    }

    /// The list of staking pools.
    pub fn get_staking_pool_list(&self) -> (r: Vec<StakingPoolJSONInfo>)
        ensures
            r@ == Seq::new(
                self.staking_pools@.len(),
                |i: int| pool_shown(self.staking_pools@, i),
            ),
    {
        let mut result: Vec<StakingPoolJSONInfo> = Vec::with_capacity(self.staking_pools.len());
        let mut i: usize = 0;
        while i < self.staking_pools.len()
            invariant
                i <= self.staking_pools@.len(),
                result@ == Seq::new(i as nat, |j: int| pool_shown(self.staking_pools@, j)),
            decreases self.staking_pools.len() - i,
        {
            let pool = &self.staking_pools[i];
            result.push(
                StakingPoolJSONInfo {
                    inx: i as u16,
                    account_id: pool.account_id.clone(),
                    weight_basis_points: pool.weight_basis_points,
                    staked: pool.staked,
                    unstaked: pool.unstaked,
                    last_asked_rewards_epoch_height: pool.last_asked_rewards_epoch_height,
                    unstaked_requested_epoch_height: pool.unstk_req_epoch_height,
                    busy_lock: pool.busy_lock,
                },
            );
            i = i + 1;
        }
        result
    }

    /// Takes a staking pool off the list if nothing is in it.
    pub fn remove_staking_pool(&mut self, call: &Call, inx: u16) -> (r: Result<(), ContractError>)
        ensures
            match unless(
                old(self).operator_or_owner_only(call),
                if inx >= old(self).staking_pools@.len() {
                    Err(ContractError::NoSuchPool)
                } else if !old(self).staking_pools@[inx as int].unused() {
                    Err(ContractError::PoolNotEmpty)
                } else {
                    Ok(())
                },
            ) {
                Err(e) => r == Err::<(), ContractError>(e) && *final(self) == *old(self),
                Ok(()) => {
                    &&& r is Ok
                    &&& final(self).staking_pools@ == old(self).staking_pools@.remove(inx as int)
                    &&& *final(self) == (MetaPool {
                        staking_pools: final(self).staking_pools,
                        ..*old(self)
                    })
                },
            },
            in_order(*old(self)) ==> in_order(*final(self)),
    {
        self.require_operator_or_owner(call)?;
        if inx as usize >= self.staking_pools.len() {
            return Err(ContractError::NoSuchPool);
        }
        if !self.staking_pools[inx as usize].is_empty() {
            return Err(ContractError::PoolNotEmpty);
        }
        proof {
            law_removed_pool_keeps_sums(self.staking_pools@, inx as int);
        }
        let _ = self.staking_pools.remove(inx as usize);
        Ok(())
    }

    /// Puts a staking pool on the list, with no weight, unless it is there already.
    pub fn add_staking_pool(&mut self, call: &Call, account_id: String) -> (r: Result<
        (),
        ContractError,
    >)
        ensures
            match unless(
                old(self).operator_or_owner_only(call),
                if !is_pool_account(account_id@) {
                    Err(ContractError::InvalidPoolAccount)
                } else if listed(old(self).staking_pools@, account_id@) {
                    Err(ContractError::AlreadyInList)
                } else {
                    Ok(())
                },
            ) {
                Err(e) => r == Err::<(), ContractError>(e) && *final(self) == *old(self),
                Ok(()) => {
                    &&& r is Ok
                    &&& final(self).staking_pools@ == old(self).staking_pools@.push(
                        StakingPoolInfo {
                            account_id,
                            weight_basis_points: 0,
                            staked: 0,
                            unstaked: 0,
                            last_asked_rewards_epoch_height: 0,
                            unstk_req_epoch_height: 0,
                            busy_lock: false,
                        },
                    )
                    &&& *final(self) == (MetaPool {
                        staking_pools: final(self).staking_pools,
                        ..*old(self)
                    })
                },
            },
            in_order(*old(self)) ==> in_order(*final(self)),
    {
        self.require_operator_or_owner(call)?;
        if !ends_with(&account_id, ".poolv1.near") && !ends_with(&account_id, ".testnet") {
            return Err(ContractError::InvalidPoolAccount);
        }
        let mut i: usize = 0;
        while i < self.staking_pools.len()
            invariant
                *self == *old(self),
                i <= self.staking_pools@.len(),
                forall|j: int|
                    0 <= j < i ==> (#[trigger] self.staking_pools@[j]).account_id@ != account_id@,
                old(self).operator_or_owner_only(call) is Ok,
                is_pool_account(account_id@),
            decreases self.staking_pools.len() - i,
        {
            if self.staking_pools[i].account_id == account_id {
                assert(listed(self.staking_pools@, account_id@));
                return Err(ContractError::AlreadyInList);
            }
            i = i + 1;
        }
        let added = StakingPoolInfo::new(account_id, 0);
        proof {
            law_added_pool_keeps_sums(self.staking_pools@, added);
        }
        self.staking_pools.push(added);
        Ok(())
    }

    /// Sets the weights of the staking pools. It cannot add, remove or reorder pools.
    pub fn set_staking_pools(&mut self, call: &Call, list: Vec<StakingPoolArgItem>) -> (r: Result<
        (),
        ContractError,
    >)
        ensures
            match unless(
                unless(one_yocto(call), old(self).operator_or_owner_only(call)),
                match weights_refusal(old(self).staking_pools@, list@) {
                    Some(e) => Err(e),
                    None => Ok(()),
                },
            ) {
                Err(e) => r == Err::<(), ContractError>(e) && *final(self) == *old(self),
                Ok(()) => {
                    &&& r is Ok
                    &&& final(self).staking_pools@ == reweighted(old(self).staking_pools@, list@)
                    &&& *final(self) == (MetaPool {
                        staking_pools: final(self).staking_pools,
                        ..*old(self)
                    })
                },
            },
            in_order(*old(self)) ==> in_order(*final(self)),
    {
        assert_one_yocto(call.attached_deposit)?;
        self.require_operator_or_owner(call)?;
        check_weights(&self.staking_pools, &list)?;
        let mut i: usize = 0;
        while i < list.len()
            invariant
                i <= list@.len(),
                list@.len() == old(self).staking_pools@.len(),
                self.staking_pools@.len() == list@.len(),
                *self == (MetaPool { staking_pools: self.staking_pools, ..*old(self) }),
                forall|j: int|
                    0 <= j < list@.len() ==> #[trigger] self.staking_pools@[j] == (if j < i {
                        reweighted(old(self).staking_pools@, list@)[j]
                    } else {
                        old(self).staking_pools@[j]
                    }),
            decreases list.len() - i,
        {
            let ghost before = self.staking_pools@;
            self.staking_pools[i].weight_basis_points = list[i].weight_basis_points;
            proof {
                assert(self.staking_pools@ =~= before.update(
                    i as int,
                    StakingPoolInfo {
                        weight_basis_points: list@[i as int].weight_basis_points,
                        ..before[i as int]
                    },
                ));
            }
            i = i + 1;
        }
        assert(self.staking_pools@ =~= reweighted(old(self).staking_pools@, list@));
        proof {
            law_weights_are_whole(old(self).staking_pools@, list@);
        }
        Ok(())
    }

    /// Epochs until `amount` could be withdrawn if it were unstaked now.
    pub fn compute_current_unstaking_delay(&self, amount: u128, epoch_height: u64) -> (r: u16)
        ensures
            r == unstaking_delay(self.staking_pools@, amount as int, epoch_height as int),
    {
        compute_unstaking_delay(&self.staking_pools, amount, epoch_height) as u16
    }

    /// The account of the operator.
    pub fn get_operator_account_id(&self) -> (r: String)
        ensures
            r == self.operator_account_id,
    {
        self.operator_account_id.clone()
    }

    /// Giving a role to the account `id`, which makes the state `changed`: only the
    /// owner may, and all accounts that hold a role have to be different afterwards.
    pub open spec fn with_role(self, call: &Call, id: Seq<char>, changed: MetaPool) -> Result<
        MetaPool,
        ContractError,
    > {
        if !valid_account_id(id) {
            Err(ContractError::InvalidAccountId)
        } else {
            unless(
                self.owner_only(call),
                if key_accounts_differ(
                    changed.owner_account_id@,
                    changed.operator_account_id@,
                    changed.treasury_account_id@,
                ) {
                    Ok(changed)
                } else {
                    Err(ContractError::KeyAccountsNotDifferent)
                },
            )
        }
    }

    /// Makes another account the operator.
    pub fn set_operator_account_id(&mut self, call: &Call, account_id: String) -> (r: Result<
        (),
        ContractError,
    >)
        ensures
            applies(
                *old(self),
                *final(self),
                r,
                old(self).with_role(
                    call,
                    account_id@,
                    (MetaPool { operator_account_id: account_id, ..*old(self) }),
                ),
            ),
            in_order(*old(self)) ==> in_order(*final(self)),
            roles_differ(*old(self)) ==> roles_differ(*final(self)),
    {
        if !is_valid_account_id(&account_id) {
            return Err(ContractError::InvalidAccountId);
        }
        self.require_owner_calling(call)?;
        if !are_key_accounts_different(
            &self.owner_account_id,
            &account_id,
            &self.treasury_account_id,
        ) {
            return Err(ContractError::KeyAccountsNotDifferent);
        }
        proof {
            law_nslp_is_no_account();
        }
        self.operator_account_id = account_id;
        Ok(())
    }

    /// The account of the treasury.
    pub fn get_treasury_account_id(&self) -> (r: String)
        ensures
            r == self.treasury_account_id,
    {
        self.treasury_account_id.clone()
    }

    /// Makes another account the treasury.
    pub fn set_treasury_account_id(&mut self, call: &Call, account_id: String) -> (r: Result<
        (),
        ContractError,
    >)
        ensures
            applies(
                *old(self),
                *final(self),
                r,
                old(self).with_role(
                    call,
                    account_id@,
                    (MetaPool { treasury_account_id: account_id, ..*old(self) }),
                ),
            ),
            in_order(*old(self)) ==> in_order(*final(self)),
            roles_differ(*old(self)) ==> roles_differ(*final(self)),
    {
        if !is_valid_account_id(&account_id) {
            return Err(ContractError::InvalidAccountId);
        }
        self.require_owner_calling(call)?;
        if !are_key_accounts_different(
            &self.owner_account_id,
            &self.operator_account_id,
            &account_id,
        ) {
            return Err(ContractError::KeyAccountsNotDifferent);
        }
        proof {
            law_nslp_is_no_account();
        }
        self.treasury_account_id = account_id;
        Ok(())
    }

    /// Makes another account the owner.
    pub fn set_owner_id(&mut self, call: &Call, owner_id: String) -> (r: Result<(), ContractError>)
        ensures
            applies(
                *old(self),
                *final(self),
                r,
                old(self).with_role(
                    call,
                    owner_id@,
                    (MetaPool { owner_account_id: owner_id, ..*old(self) }),
                ),
            ),
            in_order(*old(self)) ==> in_order(*final(self)),
            roles_differ(*old(self)) ==> roles_differ(*final(self)),
    {
        if !is_valid_account_id(&owner_id) {
            return Err(ContractError::InvalidAccountId);
        }
        self.require_owner_calling(call)?;
        if !are_key_accounts_different(
            &owner_id,
            &self.operator_account_id,
            &self.treasury_account_id,
        ) {
            return Err(ContractError::KeyAccountsNotDifferent);
        }
        proof {
            law_nslp_is_no_account();
        }
        self.owner_account_id = owner_id;
        Ok(())
    }

    /// What is staked in the staking pools, as far as known.
    pub fn get_known_deposited_balance(&self) -> (r: u128)
        ensures
            r == self.total_actually_staked,
    {
        self.total_actually_staked
    }

    /// What the contract tells about itself.
    pub fn get_contract_info(&self) -> (r: NEP129Response)
        ensures
            r.dataVersion == 1,
            r.name@ == "Metapool"@,
            r.version@ == "2.0.0"@,
            r.source@ == "https://github.com/Narwallets/meta-pool"@,
            r.standards@.len() == 3,
            r.standards@[0]@ == "NEP-141"@,
            r.standards@[1]@ == "NEP-145"@,
            r.standards@[2]@ == "SP"@,
            r.webAppUrl == self.web_app_url,
            r.developersAccountId@ == developers_id(),
            r.auditorAccountId == self.auditor_account_id,
    {
        let mut standards: Vec<String> = Vec::new();
        standards.push("NEP-141".to_owned());
        standards.push("NEP-145".to_owned());
        standards.push("SP".to_owned());
        NEP129Response {
            dataVersion: 1,
            name: "Metapool".to_owned(),
            version: "2.0.0".to_owned(),
            source: "https://github.com/Narwallets/meta-pool".to_owned(),
            standards,
            webAppUrl: copy_of(&self.web_app_url),
            developersAccountId: developers_account_id(),
            auditorAccountId: copy_of(&self.auditor_account_id),
        }
    }

    /// Sets what the contract tells about itself. An empty text takes an entry back.
    pub fn set_contract_info(
        &mut self,
        call: &Call,
        web_app_url: String,
        auditor_account_id: String,
    ) -> (r: Result<(), ContractError>)
        ensures
            applies(
                *old(self),
                *final(self),
                r,
                unless(
                    old(self).owner_only(call),
                    Ok(
                        (MetaPool {
                            web_app_url: none_if_empty(web_app_url),
                            auditor_account_id: none_if_empty(auditor_account_id),
                            ..*old(self)
                        }),
                    ),
                ),
            ),
            in_order(*old(self)) ==> in_order(*final(self)),
    {
        self.require_owner_calling(call)?;
        self.web_app_url = non_empty(web_app_url);
        self.auditor_account_id = non_empty(auditor_account_id);
        Ok(())
    }

    /// The figures of the pool. The prices may not fit.
    pub open spec fn contract_state(&self, epoch_height: u64) -> Result<
        GetContractStateResult,
        ContractError,
    > {
        let nslp = self@.account(nslp_id());
        let st_near_price = self@.totals.stake_value(ONE_E24 as int);
        let nslp_share_price = self@.totals.nslp_amount_for(ONE_E24 as int, nslp);
        if !fits(st_near_price) || !fits(self@.totals.nslp_value(nslp)) || !fits(nslp_share_price) {
            Err(ContractError::Overflow)
        } else {
            Ok(
                GetContractStateResult {
                    env_epoch_height: epoch_height,
                    contract_account_balance: self.contract_account_balance,
                    total_available: self.total_available,
                    total_for_staking: self.total_for_staking,
                    total_actually_staked: self.total_actually_staked,
                    epoch_stake_orders: self.epoch_stake_orders,
                    epoch_unstake_orders: self.epoch_unstake_orders,
                    total_unstaked_and_waiting: self.total_unstaked_and_waiting,
                    accumulated_staked_rewards: self.accumulated_staked_rewards,
                    total_unstake_claims: self.total_unstake_claims,
                    retrieved_for_unstake_claims: self.retrieved_for_unstake_claims,
                    reserve_for_unstake_claims: self.retrieved_for_unstake_claims,
                    total_stake_shares: self.total_stake_shares,
                    st_near_price: st_near_price as u128,
                    total_meta: self.total_meta,
                    accounts_count: self.accounts@.len() as u64,
                    staking_pools_count: (self.staking_pools@.len() as usize) as u16,
                    nslp_liquidity: nslp.available,
                    nslp_stnear_balance: nslp.stake_shares,
                    nslp_target: self.nslp_liquidity_target,
                    nslp_share_price: nslp_share_price as u128,
                    nslp_total_shares: nslp.nslp_shares,
                    nslp_current_discount_basis_points: self.terms().discount(
                        nslp.available as int,
                        TEN_NEAR as int,
                    ) as u16,
                    nslp_min_discount_basis_points: self.nslp_min_discount_basis_points,
                    nslp_max_discount_basis_points: self.nslp_max_discount_basis_points,
                    min_deposit_amount: self.min_deposit_amount,
                    est_meta_rewards_stakers: self.est_meta_rewards_stakers,
                    est_meta_rewards_lu: self.est_meta_rewards_lu,
                    est_meta_rewards_lp: self.est_meta_rewards_lp,
                    max_meta_rewards_stakers: self.max_meta_rewards_stakers,
                    max_meta_rewards_lu: self.max_meta_rewards_lu,
                    max_meta_rewards_lp: self.max_meta_rewards_lp,
                },
            )
        }
    }

    /// The figures of the pool.
    pub fn get_contract_state(&self, epoch_height: u64) -> (r: Result<
        GetContractStateResult,
        ContractError,
    >)
        requires
            self.wf(),
        ensures
            r == self.contract_state(epoch_height),
    {
        let nslp_account = self.internal_get_nslp_account();
        let totals = self.totals();
        let st_near_price = totals.amount_from_stake_shares(ONE_E24)?;
        let nslp_share_price = totals.amount_from_nslp_shares(ONE_E24, &nslp_account)?;
        let discount = self.swap_terms().discount_basis_points(nslp_account.available, TEN_NEAR);
        Ok(
            GetContractStateResult {
                env_epoch_height: epoch_height,
                contract_account_balance: self.contract_account_balance,
                total_available: self.total_available,
                total_for_staking: self.total_for_staking,
                total_actually_staked: self.total_actually_staked,
                epoch_stake_orders: self.epoch_stake_orders,
                epoch_unstake_orders: self.epoch_unstake_orders,
                total_unstaked_and_waiting: self.total_unstaked_and_waiting,
                accumulated_staked_rewards: self.accumulated_staked_rewards,
                total_unstake_claims: self.total_unstake_claims,
                retrieved_for_unstake_claims: self.retrieved_for_unstake_claims,
                reserve_for_unstake_claims: self.retrieved_for_unstake_claims,
                total_stake_shares: self.total_stake_shares,
                st_near_price,
                total_meta: self.total_meta,
                accounts_count: self.accounts.len() as u64,
                staking_pools_count: self.staking_pools.len() as u16,
                nslp_liquidity: nslp_account.available,
                nslp_stnear_balance: nslp_account.stake_shares,
                nslp_target: self.nslp_liquidity_target,
                nslp_share_price,
                nslp_total_shares: nslp_account.nslp_shares,
                nslp_current_discount_basis_points: discount,
                nslp_min_discount_basis_points: self.nslp_min_discount_basis_points,
                nslp_max_discount_basis_points: self.nslp_max_discount_basis_points,
                min_deposit_amount: self.min_deposit_amount,
                est_meta_rewards_stakers: self.est_meta_rewards_stakers,
                est_meta_rewards_lu: self.est_meta_rewards_lu,
                est_meta_rewards_lp: self.est_meta_rewards_lp,
                max_meta_rewards_stakers: self.max_meta_rewards_stakers,
                max_meta_rewards_lu: self.max_meta_rewards_lu,
                max_meta_rewards_lp: self.max_meta_rewards_lp,
            },
        )
    }

    /// The parameters.
    pub open spec fn params(&self) -> ContractParamsJSON {
        ContractParamsJSON {
            nslp_liquidity_target: self.nslp_liquidity_target,
            nslp_max_discount_basis_points: self.nslp_max_discount_basis_points,
            nslp_min_discount_basis_points: self.nslp_min_discount_basis_points,
            staker_meta_mult_pct: self.staker_meta_mult_pct,
            stnear_sell_meta_mult_pct: self.stnear_sell_meta_mult_pct,
            lp_provider_meta_mult_pct: self.lp_provider_meta_mult_pct,
            operator_rewards_fee_basis_points: self.operator_rewards_fee_basis_points,
            operator_swap_cut_basis_points: self.operator_swap_cut_basis_points,
            treasury_swap_cut_basis_points: self.treasury_swap_cut_basis_points,
            min_deposit_amount: self.min_deposit_amount,
        }
    }

    /// The parameters.
    pub fn get_contract_params(&self) -> (r: ContractParamsJSON)
        ensures
            r == self.params(),
    {
        ContractParamsJSON {
            nslp_liquidity_target: self.nslp_liquidity_target,
            nslp_max_discount_basis_points: self.nslp_max_discount_basis_points,
            nslp_min_discount_basis_points: self.nslp_min_discount_basis_points,
            staker_meta_mult_pct: self.staker_meta_mult_pct,
            stnear_sell_meta_mult_pct: self.stnear_sell_meta_mult_pct,
            lp_provider_meta_mult_pct: self.lp_provider_meta_mult_pct,
            operator_rewards_fee_basis_points: self.operator_rewards_fee_basis_points,
            operator_swap_cut_basis_points: self.operator_swap_cut_basis_points,
            treasury_swap_cut_basis_points: self.treasury_swap_cut_basis_points,
            min_deposit_amount: self.min_deposit_amount,
        }
    }

    /// The state with other parameters.
    pub open spec fn with_params(self, params: ContractParamsJSON) -> MetaPool {
        MetaPool {
            nslp_liquidity_target: params.nslp_liquidity_target,
            nslp_max_discount_basis_points: params.nslp_max_discount_basis_points,
            nslp_min_discount_basis_points: params.nslp_min_discount_basis_points,
            staker_meta_mult_pct: params.staker_meta_mult_pct,
            stnear_sell_meta_mult_pct: params.stnear_sell_meta_mult_pct,
            lp_provider_meta_mult_pct: params.lp_provider_meta_mult_pct,
            operator_rewards_fee_basis_points: params.operator_rewards_fee_basis_points,
            operator_swap_cut_basis_points: params.operator_swap_cut_basis_points,
            treasury_swap_cut_basis_points: params.treasury_swap_cut_basis_points,
            min_deposit_amount: params.min_deposit_amount,
            ..self
        }
    }

    /// Sets the parameters. The highest swap fee has to be above the lowest.
    pub fn set_contract_params(&mut self, call: &Call, params: ContractParamsJSON) -> (r: Result<
        (),
        ContractError,
    >)
        ensures
            applies(
                *old(self),
                *final(self),
                r,
                unless(
                    old(self).operator_or_owner_only(call),
                    if params.nslp_max_discount_basis_points
                        > params.nslp_min_discount_basis_points {
                        Ok(old(self).with_params(params))
                    } else {
                        Err(ContractError::DiscountRange)
                    },
                ),
            ),
            in_order(*old(self)) ==> in_order(*final(self)),
    {
        self.require_operator_or_owner(call)?;
        if params.nslp_max_discount_basis_points <= params.nslp_min_discount_basis_points {
            return Err(ContractError::DiscountRange);
        }
        self.nslp_liquidity_target = params.nslp_liquidity_target;
        self.nslp_max_discount_basis_points = params.nslp_max_discount_basis_points;
        self.nslp_min_discount_basis_points = params.nslp_min_discount_basis_points;
        self.staker_meta_mult_pct = params.staker_meta_mult_pct;
        self.stnear_sell_meta_mult_pct = params.stnear_sell_meta_mult_pct;
        self.lp_provider_meta_mult_pct = params.lp_provider_meta_mult_pct;
        self.operator_rewards_fee_basis_points = params.operator_rewards_fee_basis_points;
        self.operator_swap_cut_basis_points = params.operator_swap_cut_basis_points;
        self.treasury_swap_cut_basis_points = params.treasury_swap_cut_basis_points;
        self.min_deposit_amount = params.min_deposit_amount;
        Ok(())
    }

    /// Sets the multipliers of the governance token rewards.
    pub fn set_reward_multipliers(
        &mut self,
        call: &Call,
        stakers_pct: u16,
        lp_pct: u16,
        liquid_unstake_pct: u16,
    ) -> (r: Result<(), ContractError>)
        ensures
            applies(
                *old(self),
                *final(self),
                r,
                unless(
                    old(self).operator_or_owner_only(call),
                    Ok(
                        (MetaPool {
                            staker_meta_mult_pct: stakers_pct,
                            stnear_sell_meta_mult_pct: liquid_unstake_pct,
                            lp_provider_meta_mult_pct: lp_pct,
                            ..*old(self)
                        }),
                    ),
                ),
            ),
            in_order(*old(self)) ==> in_order(*final(self)),
    {
        self.require_operator_or_owner(call)?;
        self.staker_meta_mult_pct = stakers_pct;
        self.stnear_sell_meta_mult_pct = liquid_unstake_pct;
        self.lp_provider_meta_mult_pct = lp_pct;
        Ok(())
    }

    /// Sets the limits of the governance token rewards, in whole tokens.
    pub fn set_max_meta_rewards(&mut self, call: &Call, stakers: u32, lu: u32, lp: u32) -> (r: Result<
        (),
        ContractError,
    >)
        ensures
            applies(
                *old(self),
                *final(self),
                r,
                unless(
                    old(self).operator_or_owner_only(call),
                    Ok(
                        (MetaPool {
                            max_meta_rewards_stakers: (stakers * ONE_NEAR) as u128,
                            max_meta_rewards_lu: (lu * ONE_NEAR) as u128,
                            max_meta_rewards_lp: (lp * ONE_NEAR) as u128,
                            ..*old(self)
                        }),
                    ),
                ),
            ),
            r is Ok ==> final(self).max_meta_rewards_stakers == stakers
                * 1_000_000_000_000_000_000_000_000 && final(self).max_meta_rewards_lu == lu
                * 1_000_000_000_000_000_000_000_000 && final(self).max_meta_rewards_lp == lp
                * 1_000_000_000_000_000_000_000_000,
            in_order(*old(self)) ==> in_order(*final(self)),
    {
        self.require_operator_or_owner(call)?;
        self.max_meta_rewards_stakers = stakers as u128 * ONE_NEAR;
        self.max_meta_rewards_lu = lu as u128 * ONE_NEAR;
        self.max_meta_rewards_lp = lp as u128 * ONE_NEAR;
        Ok(())
    }

    /// Sets the part of the rewards that is kept as a fee, at most 10%.
    pub fn set_reward_fee(&mut self, call: &Call, basis_points: u16) -> (r: Result<
        (),
        ContractError,
    >)
        ensures
            applies(
                *old(self),
                *final(self),
                r,
                unless(
                    unless(old(self).owner_only(call), one_yocto(call)),
                    if basis_points <= 1000 {
                        Ok(
                            (MetaPool {
                                operator_rewards_fee_basis_points: saturating(
                                    basis_points as int,
                                    DEVELOPERS_REWARDS_FEE_BASIS_POINTS as int,
                                ) as u16,
                                ..*old(self)
                            }),
                        )
                    } else {
                        Err(ContractError::RewardFeeTooHigh)
                    },
                ),
            ),
            r is Ok ==> basis_points <= 1_000,
            r is Ok && basis_points >= 20 ==> final(self).operator_rewards_fee_basis_points
                == basis_points - 20,
            r is Ok && basis_points < 20 ==> final(self).operator_rewards_fee_basis_points == 0,
            in_order(*old(self)) ==> in_order(*final(self)),
    {
        self.require_owner_calling(call)?;
        assert_one_yocto(call.attached_deposit)?;
        if basis_points > 1000 {
            return Err(ContractError::RewardFeeTooHigh);
        }
        self.operator_rewards_fee_basis_points = basis_points.saturating_sub(
            DEVELOPERS_REWARDS_FEE_BASIS_POINTS,
        );
        Ok(())
    }

    /// One staking pool.
    pub fn get_sp_info(&self, inx: u16) -> (r: Result<StakingPoolJSONInfo, ContractError>)
        ensures
            r == (if inx < self.staking_pools@.len() {
                Ok(pool_shown(self.staking_pools@, inx as int))
            } else {
                Err(ContractError::NoSuchPool)
            }),
    {
        if inx as usize >= self.staking_pools.len() {
            return Err(ContractError::NoSuchPool);
        }
        let pool = &self.staking_pools[inx as usize];
        Ok(
            StakingPoolJSONInfo {
                inx,
                account_id: pool.account_id.clone(),
                weight_basis_points: pool.weight_basis_points,
                staked: pool.staked,
                unstaked: pool.unstaked,
                last_asked_rewards_epoch_height: pool.last_asked_rewards_epoch_height,
                unstaked_requested_epoch_height: pool.unstk_req_epoch_height,
                busy_lock: pool.busy_lock,
            },
        )
    }
}

} // verus!
