//! Reaching peers that sit behind routers.

pub mod address;
pub mod punch;
pub mod rendezvous;
pub mod signaling;
pub mod stun;
pub mod tiers;
pub mod upnp;
