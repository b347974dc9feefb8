//! Deployment orchestrator for interdependent on-chain packages.
//!
//! The library decides what to deploy, in what order, with which resolved
//! addresses, and how to recover from an oversized-package publish failure.
//! All network activity, prompting and file handling is performed by the
//! surrounding application; the library supplies the verified decision
//! logic, bookkeeping, and the resumable deployment report.

pub mod address;
pub mod deploy_config;
pub mod errors;
pub mod manifest;
pub mod network;
pub mod provision;
pub mod resolver;
pub mod sequencer;

use vstd::prelude::*;

verus! {

/// Name of the transient credential profile the run creates and removes.
pub const DEPLOYER_PROFILE: &'static str = "jayce_deployer";

/// Amount, in minimal units, requested from the faucet for a freshly
/// generated account.
pub const DEFAULT_FAUCET_AMOUNT: u64 = 100_000_000;

} // verus!
