//! What the library makes of the chain and of the services around it.
pub mod amount_laws;
pub mod autoswap;
pub mod dexscreener;
pub mod dextools;
pub mod geckoterminal;
pub mod goplus;
pub mod honeypot;
pub mod lp;
pub mod metric_laws;
pub mod metrics;
pub mod order_laws;
pub mod pools;
pub mod position;
pub mod price_laws;
pub mod pricing;
pub mod reply;
pub mod safety;
pub mod security_laws;
pub mod slippage;
pub mod spike;
pub mod spike_laws;
pub mod ticks;
pub mod tolerance_laws;
pub mod trade_laws;
pub mod value_laws;
pub mod volume;
