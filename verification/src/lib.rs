//! A single-process ledger core: an append-only chain of blocks holding
//! signed value-transfer transactions, sealed under a pluggable consensus
//! rule (proof-of-work or proof-of-stake), with balance accounting and
//! chain-integrity verification.

use vstd::prelude::*;

pub mod balances;
pub mod chain;
pub mod clock;
pub mod consensus;
pub mod crypto;
pub mod encode;
pub mod laws;
pub mod types;

verus! {

/// Fixed reward credited to the miner or validator of each sealed block,
/// in smallest currency units.
pub const BLOCK_REWARD: u64 = 1;

} // verus!
