//! Accounting core of a liquid staking pool.

pub mod acceptance_laws;
pub mod account;
pub mod account_map;
pub mod books;
pub mod delegator_laws;
pub mod epoch_contract;
pub mod guard_laws;
pub mod ids;
pub mod laws;
pub mod ledger;
pub mod liquidity;
pub mod metapool;
pub mod movement_laws;
pub mod owner;
pub mod price_laws;
pub mod reward_fee;
pub mod settings_laws;
pub mod stake;
pub mod staking_contract;
pub mod staking_laws;
pub mod staking_pools;
pub mod types;
pub mod upgrade;
pub mod users;
pub mod utils;
pub mod view_laws;
pub mod views;
pub mod wide;
