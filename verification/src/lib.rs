//! Verified core of a provider node for a decentralised GPU compute-sharing
//! platform: task and status types, configuration validation, the byte framing
//! of task payloads, cheating-mode descriptions, logging decisions, the
//! monitoring server's state and the node's bookkeeping.

use vstd::prelude::*;

pub mod api_server;
pub mod cheating;
pub mod clock;
pub mod config;
pub mod consensus_client;
pub mod keyed;
pub mod logging;
pub mod provider_node;
pub mod task_executor;
pub mod text;
pub mod types;

verus! {

/// Version of this library.
pub const VERSION: &'static str = "0.1.0";

/// Returns the library version string.
pub fn version() -> (v: &'static str)
    ensures
        v@ == VERSION@,
{
    VERSION
}

} // verus!
