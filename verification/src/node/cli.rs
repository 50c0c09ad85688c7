//! What the node's command line says.

use vstd::prelude::*;

verus! {

/// The node's command line, as it was read.
#[derive(Debug, Clone, PartialEq, Eq)]
pub struct Cli {
    /// `--config-file`.
    pub config_file: Option<String>,
    /// `--address`: the address on which the node listens.
    pub address: Option<String>,
    /// `--temp-dir`: the node's scratch directory.
    pub temp_dir: Option<String>,
    /// `--no-auto-register`.
    pub no_auto_register: bool,
    /// `--constellation-url`.
    pub constellation_url: Option<String>,
    /// `--node-name`.
    pub node_name: Option<String>,
    /// `--cpu-cores`.
    pub cpu_cores: Option<u32>,
    /// `--memory-gb`.
    pub memory_gb: Option<u32>,
    /// `--max-chunks`.
    pub max_chunks: Option<u32>,
    /// `--encoders`, a list with commas.
    pub encoders: Option<String>,
    /// `--no-heartbeat`.
    pub no_heartbeat: bool,
    /// `--heartbeat-interval`, in seconds.
    pub heartbeat_interval: u64,
}

impl Cli {
    /// Whether the node is to register with the constellation: it is,
    /// unless told not to.
    pub fn should_auto_register(&self) -> (r: bool)
        ensures
            r == !self.no_auto_register,
    {
        !self.no_auto_register
    }

    /// Whether the node is to send heartbeats: it is, unless told not to.
    pub fn should_enable_heartbeat(&self) -> (r: bool)
        ensures
            r == !self.no_heartbeat,
    {
        !self.no_heartbeat
    }
}

} // verus!
