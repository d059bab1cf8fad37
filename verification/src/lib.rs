pub mod agent_cosign;
pub mod boot;
pub mod bytes;
pub mod config;
pub mod crypto;
pub mod elf;
pub mod frost;
pub mod keyed;
pub mod lease;
pub mod nostr;
pub mod relay_auth;
pub mod relay_frames;
pub mod relay_lease;
pub mod relay_routing;
pub mod remote_holder;
pub mod run_agent;
pub mod sandbox;
pub mod seed_keyring;
pub mod sessions;
pub mod share_seal;
pub mod share_ship;
pub mod signing;
pub mod snapshot_run;
pub mod spawn;
pub mod text;
pub mod treasury;
pub mod vz;
