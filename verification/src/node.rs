//! The worker node: its per-request encoding protocol, and how it introduces
//! itself to the constellation.

pub mod auto_register;
pub mod cli;
pub mod config;
pub mod service;
