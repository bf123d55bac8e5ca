//! A preconfirmation service for shielded payments: it accepts payments before they
//! are mined, tells miners about them, and pays the miners that include them.

pub mod amount;
pub mod chain;
pub mod config;
pub mod encoding;
pub mod event;
pub mod json;
pub mod laws;
pub mod ledger;
pub mod miner;
pub mod p2p;
pub mod payout;
pub mod receipt;
pub mod reconcile;
pub mod server;
pub mod snapshot;
pub mod status;
pub mod text;
pub mod transaction;
pub mod wallet;
pub mod worker;
