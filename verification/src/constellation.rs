//! The constellation: the registry of nodes, clients, jobs and chunks, and
//! what its HTTP and WebSocket interfaces decide.

pub mod auto_register;
pub mod config;
pub mod handlers;
pub mod models;
pub mod registry_keys;
pub mod state;
pub mod stats;
pub mod tally;
pub mod websocket;
