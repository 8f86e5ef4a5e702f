//! DNS configuration logic for a tunnel interface: the per-interface registry
//! update plan of the registry backend, and the resolver daemon backend's
//! preflight checks, payload encoding and notification decoding.

pub mod ip;
pub mod registry;
pub mod resolved;
