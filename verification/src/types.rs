//! Constants, errors, and the plain values that calls bring in and take out.

use vstd::prelude::*;

verus! {

pub const ONE_NEAR: u128 = 1_000_000_000_000_000_000_000_000;

pub const TEN_NEAR: u128 = 10_000_000_000_000_000_000_000_000;

pub const ONE_MILLI_NEAR: u128 = 1_000_000_000_000_000_000_000;

/// One whole share or token, in its smallest unit.
pub const ONE_E24: u128 = 1_000_000_000_000_000_000_000_000;

pub const TGAS: u64 = 1_000_000_000_000;

/// What the contract's account keeps back for code and state: 35 NEAR.
pub const MIN_BALANCE_FOR_STORAGE: u128 = 35_000_000_000_000_000_000_000_000;

/// A whole, in basis points.
pub const BP_100_PERCENT: u16 = 10_000;

/// 0.2% of the rewards go to the operator, unless set otherwise.
pub const DEFAULT_OPERATOR_REWARDS_FEE_BASIS_POINTS: u16 = 20;

/// 3% of a swap fee go to the operator, unless set otherwise.
pub const DEFAULT_OPERATOR_SWAP_CUT_BASIS_POINTS: u16 = 300;

/// 25% of a swap fee go to the treasury, unless set otherwise.
pub const DEFAULT_TREASURY_SWAP_CUT_BASIS_POINTS: u16 = 2500;

/// 0.2% of the rewards go to the developers.
pub const DEVELOPERS_REWARDS_FEE_BASIS_POINTS: u16 = 20;

/// 2% of a swap fee go to the developers.
pub const DEVELOPERS_SWAP_CUT_BASIS_POINTS: u16 = 200;

/// Epochs until stake that a pool gives up can be withdrawn from it.
pub const NUM_EPOCHS_TO_UNLOCK: u64 = 4;

/// The account that the developers' cut of swap fees goes to.
pub open spec fn developers_id() -> Seq<char> {
    "developers.near"@
}

/// The entry under which the liquidity pool's own balances are filed. It is not
/// an account identifier of the chain, so nobody can call under it.
pub open spec fn nslp_id() -> Seq<char> {
    "..NSLP.."@
}

/// The account that the developers' cut of swap fees goes to.
pub fn developers_account_id() -> (r: String)
    ensures
        r@ == developers_id(),
{
    "developers.near".to_owned()
}

/// The entry under which the liquidity pool's own balances are filed.
pub fn nslp_internal_account_id() -> (r: String)
    ensures
        r@ == nslp_id(),
{
    "..NSLP..".to_owned()
}

/// What a promise came to.
#[derive(Debug)]
pub enum PromiseResult {
    NotReady,
    Successful(Vec<u8>),
    Failed,
}

/// Who stands behind the account that makes a call.
#[derive(Clone, Copy, Debug, PartialEq, Eq, Structural)]
pub enum CallerKind {
    /// An ordinary account.
    User,
    /// An account whose tokens are locked up.
    LockupAccount,
    /// The contract that acts for accounts whose tokens are locked up.
    LockupContract,
}

/// What the chain tells about a call.
#[derive(Debug)]
pub struct Call {
    /// The account that makes the call.
    pub predecessor: String,
    pub caller: CallerKind,
    pub attached_deposit: u128,
    pub epoch_height: u64,
}

impl Call {
    /// Calls come from accounts of the chain, never from the liquidity pool's entry.
    pub open spec fn wf(&self) -> bool {
        self.predecessor@ != nslp_id()
    }
}

/// NEAR that is to be sent from the contract to an account.
#[derive(Debug)]
pub struct Transfer {
    pub receiver_id: String,
    pub amount: u128,
}

/// What a swap of stNEAR for NEAR came to.
#[derive(Clone, Copy, Debug, PartialEq, Eq, Structural)]
pub struct LiquidUnstakeResult {
    /// NEAR transferred to the seller.
    pub near: u128,
    /// The fee in stNEAR.
    pub fee: u128,
    pub meta: u128,
}

/// A fraction of the rewards that is kept as a fee.
#[derive(Clone, Copy, Debug, PartialEq, Eq, Structural)]
pub struct RewardFeeFraction {
    pub numerator: u32,
    pub denominator: u32,
}

/// An account as a staking pool shows it.
#[derive(Debug)]
pub struct HumanReadableAccount {
    pub account_id: String,
    /// The unstaked balance.
    pub unstaked_balance: u128,
    /// The staked balance at the current share price.
    pub staked_balance: u128,
    /// Whether the unstaked balance can be withdrawn now.
    pub can_withdraw: bool,
}

/// An account with all that is known of it.
#[derive(Debug)]
pub struct GetAccountInfoResult {
    pub account_id: String,
    pub available: u128,
    pub st_near: u128,
    /// What the stNEAR is worth in NEAR.
    pub valued_st_near: u128,
    pub meta: u128,
    pub realized_meta: u128,
    pub unstaked: u128,
    pub unstaked_requested_unlock_epoch: u64,
    pub unstake_full_epochs_wait_left: u16,
    pub can_withdraw: bool,
    pub total: u128,
    pub trip_start: u64,
    pub trip_start_stnear: u128,
    pub trip_accum_stakes: u128,
    pub trip_accum_unstakes: u128,
    /// What the account gained that was neither staked nor transferred.
    pub trip_rewards: u128,
    pub nslp_shares: u128,
    /// What the shares of the liquidity pool are worth in NEAR.
    pub nslp_share_value: u128,
    /// The part of the liquidity pool that the account owns, in basis points.
    pub nslp_share_bp: u16,
}

/// A staking pool as it is shown.
#[derive(Debug)]
pub struct StakingPoolJSONInfo {
    pub inx: u16,
    pub account_id: String,
    pub weight_basis_points: u16,
    pub staked: u128,
    pub unstaked: u128,
    pub last_asked_rewards_epoch_height: u64,
    pub unstaked_requested_epoch_height: u64,
    pub busy_lock: bool,
}

/// What the contract tells about itself.
#[allow(non_snake_case)]
#[derive(Debug)]
pub struct NEP129Response {
    pub dataVersion: u16,
    pub name: String,
    pub version: String,
    pub source: String,
    pub standards: Vec<String>,
    pub webAppUrl: Option<String>,
    pub developersAccountId: String,
    pub auditorAccountId: Option<String>,
}

/// The parameters that can be set.
#[derive(Clone, Copy, Debug, PartialEq, Eq, Structural)]
pub struct ContractParamsJSON {
    pub nslp_liquidity_target: u128,
    pub nslp_max_discount_basis_points: u16,
    pub nslp_min_discount_basis_points: u16,
    pub staker_meta_mult_pct: u16,
    pub stnear_sell_meta_mult_pct: u16,
    pub lp_provider_meta_mult_pct: u16,
    pub operator_rewards_fee_basis_points: u16,
    pub operator_swap_cut_basis_points: u16,
    pub treasury_swap_cut_basis_points: u16,
    pub min_deposit_amount: u128,
}

/// The figures of the pool.
#[derive(Clone, Copy, Debug, PartialEq, Eq, Structural)]
pub struct GetContractStateResult {
    pub env_epoch_height: u64,
    pub contract_account_balance: u128,
    pub total_available: u128,
    pub total_for_staking: u128,
    pub total_actually_staked: u128,
    pub epoch_stake_orders: u128,
    pub epoch_unstake_orders: u128,
    pub total_unstaked_and_waiting: u128,
    pub accumulated_staked_rewards: u128,
    pub total_unstake_claims: u128,
    pub retrieved_for_unstake_claims: u128,
    pub reserve_for_unstake_claims: u128,
    pub total_stake_shares: u128,
    /// How many NEAR one stNEAR is worth.
    pub st_near_price: u128,
    pub total_meta: u128,
    pub accounts_count: u64,
    pub staking_pools_count: u16,
    pub nslp_liquidity: u128,
    pub nslp_stnear_balance: u128,
    pub nslp_target: u128,
    /// How many NEAR one share of the liquidity pool is worth.
    pub nslp_share_price: u128,
    pub nslp_total_shares: u128,
    /// The fee for a swap of ten NEAR.
    pub nslp_current_discount_basis_points: u16,
    pub nslp_min_discount_basis_points: u16,
    pub nslp_max_discount_basis_points: u16,
    pub min_deposit_amount: u128,
    pub est_meta_rewards_stakers: u128,
    pub est_meta_rewards_lu: u128,
    pub est_meta_rewards_lp: u128,
    pub max_meta_rewards_stakers: u128,
    pub max_meta_rewards_lu: u128,
    pub max_meta_rewards_lp: u128,
}

/// What was taken out of the liquidity pool.
#[derive(Clone, Copy, Debug, PartialEq, Eq, Structural)]
pub struct RemoveLiquidityResult {
    /// NEAR transferred to the user.
    pub near: u128,
    /// stNEAR credited to the user.
    pub st_near: u128,
}

/// Why a call was refused. A refused call changes nothing.
#[derive(Clone, Copy, Debug, PartialEq, Eq, Structural)]
pub enum ContractError {
    /// A figure does not fit its type.
    Overflow,
    AmountNotPositive,
    BelowMinBalance,
    OneYoctoRequired,
    /// A callback found no result, or more than one.
    NotOneResult,
    NotOwner,
    NotOperatorOrOwner,
    LockupAccountCalling,
    NotLockupContract,
    Busy,
    Paused,
    AlreadyPaused,
    NotPaused,
    KeyAccountsNotDifferent,
    InvalidAccountId,
    BelowMinDeposit { min_deposit_amount: u128 },
    NotEnoughAvailable { available: u128 },
    /// The amount buys no share at all.
    NoShares,
    NotEnoughStaked { staked: u128 },
    NotEnoughUnstaked { unstaked: u128 },
    UnstakedNotAvailable { unlock_epoch: u64 },
    /// The NEAR for the claim has not come back from the staking pools yet.
    ClaimsNotRetrieved,
    NotEnoughStNear { owned: u128 },
    PriceChanged { min_expected_near: u128, near_to_receive: u128 },
    NotEnoughLiquidity,
    TreasuryAccount,
    OperatorAccount,
    DevelopersAccount,
    /// The swap fee does not cover the cuts that are taken from it.
    FeeTooSmall,
    NotEnoughShareValue { value: u128 },
    /// The amount to remove is worth less than the stNEAR that goes with it.
    LiquidityInconsistency,
    AmountAboveLiquidity,
    LiquidityBelowTarget,
    RewardFeeTooHigh,
    NotEnoughGas,
    /// An upgrade came without new code.
    MissingCode,
    ContractHasAccounts,
    NoSuchPool,
    PoolNotEmpty,
    InvalidPoolAccount,
    AlreadyInList,
    PoolCountChanged,
    PoolOrderChanged { inx: usize },
    WeightTooHigh { inx: usize },
    PoolBusy { inx: usize },
    WeightsNotComplete,
    DiscountRange,
    AlreadyInitialized,
    ZeroDenominator,
    FeeAboveOne,
    AlreadyStaking,
    BalanceDecreased,
    NotACallback,
    /// No share, or no stake, to form a price from.
    NoPrice,
}

} // verus!
