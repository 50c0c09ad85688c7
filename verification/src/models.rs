//! What a node and a client say of themselves when they register.

use vstd::prelude::*;

verus! {

/// What a node can do.
#[derive(Debug, Clone, PartialEq, Eq)]
pub struct NodeCapabilities {
    /// How many chunks the node encodes at a time.
    pub max_concurrent_chunks: u32,
    /// The encoders that the node has.
    pub supported_encoders: Vec<String>,
    /// The node's processor cores.
    pub cpu_cores: u32,
    /// The node's memory, in gibibytes.
    pub memory_gb: u32,
}

/// A node's request to be registered.
#[derive(Debug, Clone, PartialEq, Eq)]
pub struct NodeRegistration {
    /// The node's address: host and port.
    pub address: String,
    /// What the node can do.
    pub capabilities: NodeCapabilities,
}

/// A client's request to be registered.
#[derive(Debug, Clone, PartialEq, Eq)]
pub struct ClientRegistration {
    /// The client's address: host and port.
    pub address: String,
}

} // verus!
