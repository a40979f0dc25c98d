//! Liquidity-pool screening and position tracking for a Uniswap V3 chain.
pub mod address;
pub mod bounds;
pub mod chain;
pub mod closeness;
pub mod config;
pub mod cycles;
pub mod decimal;
pub mod double;
pub mod fixed;
pub mod models;
pub mod monotone;
pub mod numbers;
pub mod order;
pub mod reason_names;
pub mod rounding;
pub mod screener;
pub mod screening_laws;
pub mod storage;
pub mod table;
pub mod telegram;
pub mod text;
