//! Core logic of the Surge perpetual futures exchange: fixed-point decimal
//! arithmetic, compressed configuration, keeper requests, margin accounts,
//! the margin pool and the trading, funding and liquidation rules.

pub mod access;
pub mod collateral;
pub mod common;
pub mod compressed;
pub mod account;
pub mod config;
pub mod config_store;
pub mod d_float;
pub mod decimal;
pub mod details;
pub mod env_registry;
pub mod exchange;
pub mod keeper;
pub mod liquidation;
pub mod liquidity;
pub mod list;
pub mod map;
pub mod margin_account;
pub mod oracle;
pub mod orders;
pub mod pool;
pub mod powers;
pub mod referral;
pub mod requests;
pub mod state;
pub mod trade;
