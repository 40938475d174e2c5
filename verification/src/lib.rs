//! A provably fair dice house: bets arrive as deposits to one address per
//! multiplier, are settled against a committed secret nonce, and are recorded
//! in a ledger that admits every deposit at most once.
//!
//! The library holds the rules: how keys are derived, how a round is rolled,
//! how a deposit is screened and settled, how the ledger is kept and how a
//! house catches up after an outage. Talking to the network and to the disk
//! is left to the program around it, which hands the answers in as plain
//! values.

pub mod client;
pub mod config;
pub mod db;
pub mod fairness;
pub mod games;
pub mod hashing;
pub mod key_derivation;
pub mod nonce_service;
pub mod recovery;
pub mod search;
pub mod server;
pub mod telegram;
pub mod text;
pub mod transaction_processor;

pub use client::ArkClient;
pub use config::Config;
