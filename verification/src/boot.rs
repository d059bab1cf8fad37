//! What it takes to boot an agent, and what a booted agent reports.
use vstd::prelude::*;

use crate::config::MemoryConfig;
use crate::sandbox::GuestImage;

verus! {

/// A stored checkpoint: the SHA-256 of its bytes in hexadecimal, and their length.
#[derive(Debug)]
pub struct CheckpointRef {
    pub sha256: String,
    pub len: u64,
}

/// An event that the genome reports.
#[derive(Debug)]
pub struct GenomeEvent {
    pub kind: String,
    pub detail: String,
}

/// What the gateway tells the genome of its task.
#[derive(Debug)]
pub struct Session {
    pub task_descriptor: String,
    pub budget_sats: u64,
    pub allowlisted_destinations: Vec<String>,
}

/// How to boot an agent.
#[derive(Debug)]
pub struct BootConfig {
    pub image: GuestImage,
    pub node_id: String,
    pub task: String,
    pub budget_sats: u64,
    pub initial_sats: u64,
    /// The destinations that the agent can reach.
    pub allow: Vec<String>,
    pub guest_cid: u32,
    pub gateway_port: u32,
    pub vcpu_count: u8,
    pub mem_size_mib: usize,
    pub hello_timeout_ms: u64,
    pub workload: Option<String>,
    /// The brain's block, as written.
    pub brain: Option<String>,
    pub memory: Option<MemoryConfig>,
    /// The diarist's block, as written.
    pub diarist: Option<String>,
    pub lockdown_egress: bool,
    pub snapshot_capable: bool,
    /// The checkpoint that the agent continues from.
    pub restore_checkpoint: Option<CheckpointRef>,
}

} // verus!
