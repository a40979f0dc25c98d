//! What the Telegram bot says and does.
pub mod alerts;
pub mod check;
pub mod list_laws;
pub mod lookup;
pub mod message;
pub mod message_laws;
pub mod number_laws;
pub mod ranking;
pub mod routing;
pub mod score_laws;
pub mod sorting;
pub mod status;
pub mod taps;
pub mod units;
