//! Bridging of locked value between a source chain and a target ledger:
//! amounts, lock records and their store, the watcher's decisions, the
//! bridging payload, the coupon signer, and the configuration of all of
//! them.
//!
//! Nothing here reads a clock, the environment, a file or the network: the
//! caller hands in the time, the values it found and the events it fetched,
//! and carries out what is decided.

pub mod types;
pub mod uint;
pub mod amount;
pub mod database;
pub mod hexcodec;
pub mod primitives;
pub mod text;
pub mod config;
pub mod holochain_bridge;
pub mod watcher;
pub mod signer;
pub mod withdrawer;
