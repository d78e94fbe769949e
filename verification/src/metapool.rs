//! The state of the pool, and who may do what with it.

use vstd::prelude::*;

use crate::account::Account;
use crate::account_map::AccountMap;
use crate::books::Books;
use crate::ids::{ends_with, has_suffix, valid_account_id};
use crate::laws::{in_order, law_empty_books_are_sound, roles_differ};
use crate::ledger::Totals;
use crate::liquidity::SwapTerms;
use crate::settings_laws::law_nslp_is_no_account;
use crate::staking_pools::StakingPoolInfo;
use crate::types::{
    developers_account_id, developers_id, nslp_id, nslp_internal_account_id, Call, CallerKind,
    ContractError, DEFAULT_OPERATOR_REWARDS_FEE_BASIS_POINTS,
    DEFAULT_OPERATOR_SWAP_CUT_BASIS_POINTS, DEFAULT_TREASURY_SWAP_CUT_BASIS_POINTS, ONE_NEAR,
};

verus! {

/// A pool that stakes what its users deposit and gives them stNEAR for it.
pub struct MetaPool {
    /// The account of the owner.
    pub owner_account_id: String,
    /// Set while calls to other contracts are in flight.
    pub contract_busy: bool,
    /// No staking while this is set.
    pub staking_paused: bool,
    /// What the balance of the contract's account should be according to the books.
    pub contract_account_balance: u128,
    /// NEAR in the contract that is reserved for claims of users who unstaked.
    /// Together with `total_unstaked_and_waiting` and `epoch_unstake_orders` it covers
    /// `total_unstake_claims`.
    pub retrieved_for_unstake_claims: u128,
    /// The sum of what the accounts have available.
    pub total_available: u128,
    /// NEAR for which stNEAR was minted in this epoch and that is not staked yet.
    pub epoch_stake_orders: u128,
    /// NEAR for which stNEAR was burned in this epoch and that is not unstaked yet.
    pub epoch_unstake_orders: u128,
    pub epoch_last_clearing: u64,
    /// What the users have selected for staking. A share is worth
    /// `total_for_staking` / `total_stake_shares`.
    pub total_for_staking: u128,
    /// What is staked in the staking pools.
    pub total_actually_staked: u128,
    /// All stNEAR there is.
    pub total_stake_shares: u128,
    pub total_meta: u128,
    /// What was unstaked in the staking pools and waits there.
    pub total_unstaked_and_waiting: u128,
    /// The sum of the unstaked NEAR that accounts have a claim to.
    pub total_unstake_claims: u128,
    /// All rewards ever. It can only grow.
    pub accumulated_staked_rewards: u128,
    pub accounts: AccountMap<Account>,
    pub staking_pools: Vec<StakingPoolInfo>,
    /// The liquidity from which the swap fee is the lowest.
    pub nslp_liquidity_target: u128,
    pub nslp_max_discount_basis_points: u16,
    pub nslp_min_discount_basis_points: u16,
    pub staker_meta_mult_pct: u16,
    pub stnear_sell_meta_mult_pct: u16,
    pub lp_provider_meta_mult_pct: u16,
    /// The least amount accepted as a deposit.
    pub min_deposit_amount: u128,
    /// The account that runs the periodic work.
    pub operator_account_id: String,
    pub operator_rewards_fee_basis_points: u16,
    /// The operator's part of swap fees.
    pub operator_swap_cut_basis_points: u16,
    pub treasury_account_id: String,
    /// The treasury's part of swap fees.
    pub treasury_swap_cut_basis_points: u16,
    pub web_app_url: Option<String>,
    pub auditor_account_id: Option<String>,
    pub meta_token_account_id: String,
    pub est_meta_rewards_stakers: u128,
    pub est_meta_rewards_lu: u128,
    pub est_meta_rewards_lp: u128,
    pub max_meta_rewards_stakers: u128,
    pub max_meta_rewards_lu: u128,
    pub max_meta_rewards_lp: u128,
    /// How much of the stake may be unstaked for rebalancing.
    pub unstake_for_rebalance_cap_bp: u16,
    /// What is not staked because it is moved between staking pools.
    pub unstaked_for_rebalance: u128,
}

impl View for MetaPool {
    type V = Books;

    open spec fn view(&self) -> Books {
        Books {
            totals: Totals {
                contract_account_balance: self.contract_account_balance,
                retrieved_for_unstake_claims: self.retrieved_for_unstake_claims,
                total_available: self.total_available,
                epoch_stake_orders: self.epoch_stake_orders,
                epoch_unstake_orders: self.epoch_unstake_orders,
                total_for_staking: self.total_for_staking,
                total_stake_shares: self.total_stake_shares,
                total_unstake_claims: self.total_unstake_claims,
            },
            accounts: self.accounts@,
        }
    }
}

/// Whether two states differ at most in their books.
pub open spec fn same_but_books(before: MetaPool, after: MetaPool) -> bool {
    after == (MetaPool {
        contract_account_balance: after.contract_account_balance,
        retrieved_for_unstake_claims: after.retrieved_for_unstake_claims,
        total_available: after.total_available,
        epoch_stake_orders: after.epoch_stake_orders,
        epoch_unstake_orders: after.epoch_unstake_orders,
        total_for_staking: after.total_for_staking,
        total_stake_shares: after.total_stake_shares,
        total_unstake_claims: after.total_unstake_claims,
        accounts: after.accounts,
        ..before
    })
}

/// Whether a call has come out as it should: refused and without any effect, or
/// answered with the books changed and nothing else.
pub open spec fn settles<T>(
    before: MetaPool,
    after: MetaPool,
    answer: Result<T, ContractError>,
    outcome: Result<(Books, T), ContractError>,
) -> bool {
    match outcome {
        Err(e) => answer == Err::<T, ContractError>(e) && after == before,
        Ok((books, t)) => {
            &&& answer == Ok::<T, ContractError>(t)
            &&& after@ == books
            &&& same_but_books(before, after)
        },
    }
}

/// Whether the accounts that hold a role are all different.
pub open spec fn key_accounts_differ(
    owner: Seq<char>,
    operator: Seq<char>,
    treasury: Seq<char>,
) -> bool {
    &&& owner != operator
    &&& owner != treasury
    &&& operator != treasury
    &&& owner != developers_id()
    &&& operator != developers_id()
    &&& treasury != developers_id()
}

/// Whether the accounts that hold a role are all different.
pub(crate) fn are_key_accounts_different(owner: &String, operator: &String, treasury: &String) -> (r:
    bool)
    ensures
        r == key_accounts_differ(owner@, operator@, treasury@),
{
    let developers = developers_account_id();
    !(*owner == *operator) && !(*owner == *treasury) && !(*operator == *treasury) && !(*owner
        == developers) && !(*operator == developers) && !(*treasury == developers)
}

impl MetaPool {
    /// No account is kept twice, and the swap fee has a range.
    pub open spec fn wf(&self) -> bool {
        &&& self.accounts.wf()
        &&& self.terms().wf()
    }

    /// The terms on which the liquidity pool swaps.
    pub open spec fn terms(&self) -> SwapTerms {
        SwapTerms {
            liquidity_target: self.nslp_liquidity_target,
            max_discount_basis_points: self.nslp_max_discount_basis_points,
            min_discount_basis_points: self.nslp_min_discount_basis_points,
            treasury_cut_basis_points: self.treasury_swap_cut_basis_points,
            operator_cut_basis_points: self.operator_swap_cut_basis_points,
        }
    }

    /// Starts a pool without accounts or staking pools. The accounts of the owner,
    /// the treasury, the operator and the developers have to be different.
    pub fn new(
        owner_account_id: String,
        treasury_account_id: String,
        operator_account_id: String,
        meta_token_account_id: String,
    ) -> (r: Result<MetaPool, ContractError>)
        ensures
            r is Ok <==> key_accounts_differ(
                owner_account_id@,
                operator_account_id@,
                treasury_account_id@,
            ),
            r is Err ==> r->Err_0 == ContractError::KeyAccountsNotDifferent,
            match r {
                Err(_) => true,
                Ok(p) => {
                    &&& p.wf()
                    &&& p.accounts@.len() == 0
                    &&& p.staking_pools@.len() == 0
                    &&& in_order(p)
                    &&& valid_account_id(operator_account_id@) && valid_account_id(
                        treasury_account_id@,
                    ) ==> roles_differ(p)
                    &&& p.min_deposit_amount == 1_000_000_000_000_000_000_000_000
                    &&& p.nslp_liquidity_target == 10_000 * 1_000_000_000_000_000_000_000_000
                    &&& p.operator_rewards_fee_basis_points == 20
                    &&& p.operator_swap_cut_basis_points == 300
                    &&& p.treasury_swap_cut_basis_points == 2_500
                    &&& p.max_meta_rewards_stakers == 1_000_000 * 1_000_000_000_000_000_000_000_000
                    &&& p.max_meta_rewards_lu == 50_000 * 1_000_000_000_000_000_000_000_000
                    &&& p.max_meta_rewards_lp == 100_000 * 1_000_000_000_000_000_000_000_000
                    &&& p.web_app_url is Some && p.web_app_url->0@ == "https://metapool.app"@
                    &&& p.auditor_account_id is Some && p.auditor_account_id->0@ == "auditors.near"@
                    &&& p == (MetaPool {
                        owner_account_id,
                        treasury_account_id,
                        operator_account_id,
                        meta_token_account_id,
                        contract_busy: false,
                        staking_paused: false,
                        contract_account_balance: 0,
                        retrieved_for_unstake_claims: 0,
                        total_available: 0,
                        epoch_stake_orders: 0,
                        epoch_unstake_orders: 0,
                        epoch_last_clearing: 0,
                        total_for_staking: 0,
                        total_actually_staked: 0,
                        total_stake_shares: 0,
                        total_meta: 0,
                        total_unstaked_and_waiting: 0,
                        total_unstake_claims: 0,
                        accumulated_staked_rewards: 0,
                        accounts: p.accounts,
                        staking_pools: p.staking_pools,
                        nslp_liquidity_target: (10_000 * ONE_NEAR) as u128,
                        nslp_max_discount_basis_points: 180,
                        nslp_min_discount_basis_points: 25,
                        staker_meta_mult_pct: 5000,
                        stnear_sell_meta_mult_pct: 50,
                        lp_provider_meta_mult_pct: 200,
                        min_deposit_amount: ONE_NEAR,
                        operator_rewards_fee_basis_points:
                            DEFAULT_OPERATOR_REWARDS_FEE_BASIS_POINTS,
                        operator_swap_cut_basis_points: DEFAULT_OPERATOR_SWAP_CUT_BASIS_POINTS,
                        treasury_swap_cut_basis_points: DEFAULT_TREASURY_SWAP_CUT_BASIS_POINTS,
                        web_app_url: p.web_app_url,
                        auditor_account_id: p.auditor_account_id,
                        est_meta_rewards_stakers: 0,
                        est_meta_rewards_lu: 0,
                        est_meta_rewards_lp: 0,
                        max_meta_rewards_stakers: (1_000_000 * ONE_NEAR) as u128,
                        max_meta_rewards_lu: (50_000 * ONE_NEAR) as u128,
                        max_meta_rewards_lp: (100_000 * ONE_NEAR) as u128,
                        unstake_for_rebalance_cap_bp: 100,
                        unstaked_for_rebalance: 0,
                    })
                },
            },
    {
        if !are_key_accounts_different(
            &owner_account_id,
            &operator_account_id,
            &treasury_account_id,
        ) {
            return Err(ContractError::KeyAccountsNotDifferent);
        }
        let pool = MetaPool {
            owner_account_id,
            contract_busy: false,
            operator_account_id,
            treasury_account_id,
            contract_account_balance: 0,
            web_app_url: Some("https://metapool.app".to_owned()),
            auditor_account_id: Some("auditors.near".to_owned()),
            operator_rewards_fee_basis_points: DEFAULT_OPERATOR_REWARDS_FEE_BASIS_POINTS,
            operator_swap_cut_basis_points: DEFAULT_OPERATOR_SWAP_CUT_BASIS_POINTS,
            treasury_swap_cut_basis_points: DEFAULT_TREASURY_SWAP_CUT_BASIS_POINTS,
            staking_paused: false,
            total_available: 0,
            total_for_staking: 0,
            total_actually_staked: 0,
            total_unstaked_and_waiting: 0,
            retrieved_for_unstake_claims: 0,
            total_unstake_claims: 0,
            epoch_stake_orders: 0,
            epoch_unstake_orders: 0,
            epoch_last_clearing: 0,
            accumulated_staked_rewards: 0,
            total_stake_shares: 0,
            total_meta: 0,
            accounts: AccountMap::new(),
            nslp_liquidity_target: 10_000 * ONE_NEAR,
            nslp_max_discount_basis_points: 180,
            nslp_min_discount_basis_points: 25,
            min_deposit_amount: ONE_NEAR,
            stnear_sell_meta_mult_pct: 50,
            staker_meta_mult_pct: 5000,
            lp_provider_meta_mult_pct: 200,
            staking_pools: Vec::new(),
            meta_token_account_id,
            est_meta_rewards_stakers: 0,
            est_meta_rewards_lu: 0,
            est_meta_rewards_lp: 0,
            max_meta_rewards_stakers: 1_000_000 * ONE_NEAR,
            max_meta_rewards_lu: 50_000 * ONE_NEAR,
            max_meta_rewards_lp: 100_000 * ONE_NEAR,
            unstaked_for_rebalance: 0,
            unstake_for_rebalance_cap_bp: 100,
        };
        proof {
            law_empty_books_are_sound(pool@);
            law_nslp_is_no_account();
        }
        Ok(pool)
    }

    /// Accepts the state only if the accounts that hold a role are all different.
    pub fn require_key_accounts_are_different(&self) -> (r: Result<(), ContractError>)
        ensures
            r == (if key_accounts_differ(
                self.owner_account_id@,
                self.operator_account_id@,
                self.treasury_account_id@,
            ) {
                Ok(())
            } else {
                Err(ContractError::KeyAccountsNotDifferent)
            }),
    {
        if are_key_accounts_different(
            &self.owner_account_id,
            &self.operator_account_id,
            &self.treasury_account_id,
        ) {
            Ok(())
        } else {
            Err(ContractError::KeyAccountsNotDifferent)
        }
    }

    /// The totals as one value.
    pub(crate) fn totals(&self) -> (r: Totals)
        ensures
            r == self@.totals,
    {
        Totals {
            contract_account_balance: self.contract_account_balance,
            retrieved_for_unstake_claims: self.retrieved_for_unstake_claims,
            total_available: self.total_available,
            epoch_stake_orders: self.epoch_stake_orders,
            epoch_unstake_orders: self.epoch_unstake_orders,
            total_for_staking: self.total_for_staking,
            total_stake_shares: self.total_stake_shares,
            total_unstake_claims: self.total_unstake_claims,
        }
    }

    /// The terms on which the liquidity pool swaps.
    pub(crate) fn swap_terms(&self) -> (r: SwapTerms)
        ensures
            r == self.terms(),
    {
        SwapTerms {
            liquidity_target: self.nslp_liquidity_target,
            max_discount_basis_points: self.nslp_max_discount_basis_points,
            min_discount_basis_points: self.nslp_min_discount_basis_points,
            treasury_cut_basis_points: self.treasury_swap_cut_basis_points,
            operator_cut_basis_points: self.operator_swap_cut_basis_points,
        }
    }

    /// What is known of an account.
    pub fn internal_get_account(&self, account_id: &String) -> (r: Account)
        requires
            self.wf(),
        ensures
            r == self@.account(account_id@),
    {
        match self.accounts.get(account_id) {
            Some(a) => a,
            None => Account::default(),
        }
    }

    /// The liquidity pool's own balances.
    pub fn internal_get_nslp_account(&self) -> (r: Account)
        requires
            self.wf(),
        ensures
            r == self@.account(nslp_id()),
    {
        self.internal_get_account(&nslp_internal_account_id())
    }

    /// Takes over new totals and saves an account; one that owns nothing is not kept.
    pub(crate) fn commit(&mut self, totals: Totals, account_id: &String, account: &Account)
        requires
            old(self).wf(),
        ensures
            final(self)@ == old(self)@.with(totals, account_id@, *account),
            same_but_books(*old(self), *final(self)),
            final(self).wf(),
    {
        self.contract_account_balance = totals.contract_account_balance;
        self.retrieved_for_unstake_claims = totals.retrieved_for_unstake_claims;
        self.total_available = totals.total_available;
        self.epoch_stake_orders = totals.epoch_stake_orders;
        self.epoch_unstake_orders = totals.epoch_unstake_orders;
        self.total_for_staking = totals.total_for_staking;
        self.total_stake_shares = totals.total_stake_shares;
        self.total_unstake_claims = totals.total_unstake_claims;
        if account.is_empty() {
            self.accounts.remove(account_id);
        } else {
            self.accounts.insert(account_id, *account);
        }
    }

    /// Why a call is refused that only the owner may make.
    pub open spec fn owner_only(&self, call: &Call) -> Result<(), ContractError> {
        if call.predecessor@ == self.owner_account_id@ {
            Ok(())
        } else {
            Err(ContractError::NotOwner)
        }
    }

    /// Why a call is refused that only the owner and the operator may make.
    pub open spec fn operator_or_owner_only(&self, call: &Call) -> Result<(), ContractError> {
        if call.predecessor@ == self.owner_account_id@ || call.predecessor@
            == self.operator_account_id@ {
            Ok(())
        } else {
            Err(ContractError::NotOperatorOrOwner)
        }
    }

    /// Accepts a call of the owner.
    pub(crate) fn require_owner_calling(&self, call: &Call) -> (r: Result<(), ContractError>)
        ensures
            r == self.owner_only(call),
    {
        if call.predecessor == self.owner_account_id {
            Ok(())
        } else {
            Err(ContractError::NotOwner)
        }
    }

    /// Accepts a call of the operator or the owner.
    pub(crate) fn require_operator_or_owner(&self, call: &Call) -> (r: Result<(), ContractError>)
        ensures
            r == self.operator_or_owner_only(call),
    {
        if call.predecessor == self.owner_account_id || call.predecessor
            == self.operator_account_id {
            Ok(())
        } else {
            Err(ContractError::NotOperatorOrOwner)
        }
    }

    /// Why a call is refused while the contract is busy or paused.
    pub open spec fn idle(&self) -> Result<(), ContractError> {
        if self.contract_busy {
            Err(ContractError::Busy)
        } else if self.staking_paused {
            Err(ContractError::Paused)
        } else {
            Ok(())
        }
    }

    /// Accepts a call while the contract is neither busy nor paused.
    pub(crate) fn require_not_busy_nor_paused(&self) -> (r: Result<(), ContractError>)
        ensures
            r == self.idle(),
    {
        if self.contract_busy {
            Err(ContractError::Busy)
        } else if self.staking_paused {
            Err(ContractError::Paused)
        } else {
            Ok(())
        }
    }
}

/// Who stands behind an account that makes a call. `lockup_contract_id` is the contract
/// that acts for accounts whose tokens are locked up.
pub fn caller_kind(predecessor: &String, lockup_contract_id: &String) -> (r: CallerKind)
    ensures
        r == (if predecessor@ == lockup_contract_id@ {
            CallerKind::LockupContract
        } else if has_suffix(predecessor@, ".lockup.near"@) {
            CallerKind::LockupAccount
        } else {
            CallerKind::User
        }),
{
    if *predecessor == *lockup_contract_id {
        CallerKind::LockupContract
    } else if ends_with(predecessor, ".lockup.near") {
        CallerKind::LockupAccount
    } else {
        CallerKind::User
    }
}

/// Accepts a call that does not come from an account whose tokens are locked up.
pub(crate) fn require_not_lockup_account_calling(call: &Call) -> (r: Result<(), ContractError>)
    ensures
        r == (if call.caller == CallerKind::LockupAccount {
            Err(ContractError::LockupAccountCalling)
        } else {
            Ok(())
        }),
{
    if call.caller == CallerKind::LockupAccount {
        Err(ContractError::LockupAccountCalling)
    } else {
        Ok(())
    }
}

/// Accepts a call of the contract that acts for accounts whose tokens are locked up.
pub(crate) fn require_lockup_contract_calling(call: &Call) -> (r: Result<(), ContractError>)
    ensures
        r == (if call.caller == CallerKind::LockupContract {
            Ok(())
        } else {
            Err(ContractError::NotLockupContract)
        }),
{
    if call.caller == CallerKind::LockupContract {
        Ok(())
    } else {
        Err(ContractError::NotLockupContract)
    }
}

} // verus!
