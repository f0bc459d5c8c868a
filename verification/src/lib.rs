//! Verified accrual rules of a liquidity-mining incentive program, together
//! with the plain data types of the surrounding contracts.

pub mod asset;
pub mod bonding_manager;
pub mod conservation;
pub mod epoch_manager;
pub mod error;
pub mod fee_distributor;
pub mod flow;
pub mod rewards;
pub mod schedule;
pub mod share;
pub mod vault_manager;
pub mod weights;
