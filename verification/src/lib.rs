//! Decision logic of a watcher for governance proposals on Cosmos chains.
//!
//! The library decides which proposals are new for a chain and a proposal
//! status, which alerts go out for them, and what the per-status id store
//! holds; the program around it performs the network and file work.

pub mod status;
pub mod decimal;
pub mod id_list;
pub mod slack;
pub mod incidentio;
pub mod config;
pub mod worker;

use vstd::prelude::*;

verus! {

/// Name of the configuration file looked for next to the executable.
pub const DEFAULT_CONFIG_PATH: &'static str = "chains.toml";

} // verus!
