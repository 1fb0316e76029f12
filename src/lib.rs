//! Accounting core of a collateralised lending protocol: asset registry,
//! utilisation-driven rate model, position ledger and risk engine, with the
//! price oracle and receipt-token ledger they consult.
pub mod bridge;
pub mod model;
pub mod oracle;
pub mod pool;
pub mod rates;
pub mod risk;
pub mod s_token;
pub mod table;

pub use bridge::{deposit_and_mint, withdraw_and_burn, BridgeError};
pub use oracle::{OracleError, PriceData, PriceOracle};
pub use pool::{
    AssetConfig, AssetState, LendingError, LendingPool, PoolState, Position, UserAccountData,
};
pub use s_token::{SToken, TokenError};
