//! The client: settings, the connection plan, and the dispatcher that hands
//! chunks out to worker nodes.

pub mod comms;
pub mod config;
pub mod tasks;
