//! A leaderless digital-cash ledger: validators spread transfers with a
//! Byzantine reliable broadcast and validate them against per-account
//! histories.

pub mod transaction;
pub mod message;
pub mod codec;
pub mod crypto;
pub mod broadcast;
pub mod history;
pub mod instructions;
pub mod process;
pub mod messaging;
pub mod communication;
pub mod input;
