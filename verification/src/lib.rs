//! Coordination logic of a distributed video-transcoding fleet: chunk
//! bookkeeping for the client dispatcher, the node's per-request encoding
//! protocol, and the constellation registry, each stated as functions on plain
//! values with machine-checked contracts.

pub mod chunk;
pub mod client;
pub mod clock;
pub mod constellation;
pub mod digest;
pub mod discovery;
pub mod error;
pub mod ids;
pub mod job_config;
pub mod models;
pub mod net;
pub mod node;
pub mod paths;
pub mod settings;
pub mod text;
pub mod video;
pub mod words;
