//! In-memory limit order book engine for the Lighter exchange protocol,
//! together with the transaction types, validation rules and key
//! management that surround it.
//!
//! The heart of the crate is [`order_book::ManagedOrderBook`]: a
//! two-sided book built from one full snapshot and a stream of
//! incremental deltas, with a read-only query surface (best bid/ask,
//! spread, depth, volumes). Prices and sizes arrive as decimal strings
//! and are kept as exact decimals ([`decimal::Dec`]); no binary floating
//! point is involved. [`registry::BookRegistry`] owns one book per
//! market and routes messages to it.

pub mod constants;
pub mod data;
pub mod decimal;
pub mod errors;
pub mod level_store;
pub mod order_book;
pub mod registry;
pub mod signer;
pub mod types;
pub mod utils;
pub mod ws_config;

pub use errors::LighterError;
pub use types::{TransactOpts, TxInfo};
