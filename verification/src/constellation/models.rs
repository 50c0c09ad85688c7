//! The records that the registry keeps, and the requests that change them.
//!
//! Identifiers are 128-bit numbers, written as UUIDs on the wire. Times are
//! milliseconds since the Unix epoch.

use vstd::prelude::*;
use std::collections::HashMap;
use crate::models::NodeCapabilities;

verus! {

/// A registered node.
#[derive(Debug, Clone, PartialEq, Eq)]
pub struct NodeInfo {
    pub id: u128,
    pub address: String,
    pub status: NodeStatus,
    /// When the node was last heard of.
    pub last_heartbeat: i64,
    pub capabilities: NodeCapabilities,
    /// The chunk assignments that are with the node, by identifier.
    pub current_chunks: Vec<u128>,
    pub total_processed: u64,
    pub total_failed: u64,
}

/// What a node last said of itself, or what the registry concluded.
#[derive(Debug, Clone, PartialEq, Eq)]
pub enum NodeStatus {
    Online,
    Busy,
    Offline,
    Error(String),
}

/// A registered client.
#[derive(Debug, Clone, PartialEq, Eq)]
pub struct ClientInfo {
    pub id: u128,
    pub address: String,
    pub status: ClientStatus,
    /// When the client was last heard of.
    pub last_heartbeat: i64,
    /// The client's jobs, by identifier.
    pub active_jobs: Vec<u128>,
}

/// What a client last said of itself, or what the registry concluded.
#[derive(Debug, Clone, Copy, PartialEq, Eq, Structural)]
pub enum ClientStatus {
    Connected,
    Processing,
    Disconnected,
}

/// A job.
#[derive(Debug, Clone, PartialEq, Eq)]
pub struct JobInfo {
    pub id: u128,
    pub client_id: u128,
    pub video_file: String,
    pub total_chunks: u32,
    pub completed_chunks: u32,
    pub failed_chunks: u32,
    pub status: JobStatus,
    pub started_at: i64,
    pub estimated_completion: Option<i64>,
    pub encoder_parameters: Vec<String>,
}

/// How far a job has come.
#[derive(Debug, Clone, PartialEq, Eq)]
pub enum JobStatus {
    Queued,
    InProgress,
    Completed,
    Failed(String),
    Cancelled,
}

/// One chunk of a job, given to one node.
#[derive(Debug, Clone, PartialEq, Eq)]
pub struct ChunkAssignment {
    pub chunk_id: u128,
    pub job_id: u128,
    pub chunk_index: u32,
    pub node_id: u128,
    pub status: ChunkStatus,
    pub assigned_at: i64,
    /// When the node began; set once.
    pub started_at: Option<i64>,
    /// When the assignment came to its end, good or bad; set once.
    pub completed_at: Option<i64>,
    /// From 0 to 100.
    pub progress_percent: u8,
}

/// How far a chunk assignment has come.
#[derive(Debug, Clone, PartialEq, Eq)]
pub enum ChunkStatus {
    Assigned,
    InProgress,
    Completed,
    Failed(String),
    Cancelled,
}

impl ChunkStatus {
    /// Whether nothing more will become of an assignment in this status.
    pub open spec fn is_terminal(&self) -> bool {
        self is Completed || self is Failed || self is Cancelled
    }

    /// Whether nothing more will become of an assignment in this status.
    pub fn terminal(&self) -> (r: bool)
        ensures
            r == self.is_terminal(),
    {
        match self {
            ChunkStatus::Completed => true,
            ChunkStatus::Failed(_) => true,
            ChunkStatus::Cancelled => true,
            _ => false,
        }
    }
}

impl NodeStatus {
    /// Whether a node in this status takes part in the work.
    pub open spec fn is_active(&self) -> bool {
        self is Online || self is Busy
    }

    /// Whether a node in this status takes part in the work.
    pub fn active(&self) -> (r: bool)
        ensures
            r == self.is_active(),
    {
        match self {
            NodeStatus::Online => true,
            NodeStatus::Busy => true,
            _ => false,
        }
    }
}

impl JobStatus {
    /// Whether a job in this status is still to be worked on.
    pub open spec fn is_active(&self) -> bool {
        self is Queued || self is InProgress
    }

    /// Whether a job in this status is still to be worked on.
    pub fn active(&self) -> (r: bool)
        ensures
            r == self.is_active(),
    {
        match self {
            JobStatus::Queued => true,
            JobStatus::InProgress => true,
            _ => false,
        }
    }
}

/// The figures of the dashboard.
///
/// The two ratios are kept as the whole numbers that they are made of. The
/// load is `active_nodes` out of `load_base`. The average chunk time, in
/// milliseconds, is `chunk_time_gained_ms` less `chunk_time_lost_ms`, over
/// `timed_chunks` chunks.
#[derive(Debug, Clone, Copy, PartialEq, Eq)]
pub struct SystemStats {
    pub total_nodes: usize,
    /// Nodes that are online or busy.
    pub active_nodes: usize,
    pub total_clients: usize,
    /// Jobs that are queued or in progress.
    pub active_jobs: usize,
    /// The chunks that all nodes have processed; it stops at the largest
    /// number that fits.
    pub total_chunks_processed: u64,
    /// The chunk assignments that have both their timestamps.
    pub timed_chunks: usize,
    /// The time from start to end, in milliseconds, of the assignments that
    /// ended no sooner than they began, all added up.
    pub chunk_time_gained_ms: u128,
    /// The time from end to start, in milliseconds, of the assignments whose
    /// end is stamped before their start, all added up.
    pub chunk_time_lost_ms: u128,
    /// The number of nodes, or one where there is none.
    pub load_base: usize,
}

/// A heartbeat as it arrives.
#[derive(Debug, Clone, PartialEq, Eq)]
pub struct HeartbeatRequest {
    pub id: u128,
    pub status: String,
}

/// A report on a chunk assignment as it arrives.
#[derive(Debug, Clone, PartialEq, Eq)]
pub struct ChunkUpdate {
    pub chunk_id: u128,
    pub status: ChunkStatus,
    pub progress_percent: u8,
    pub error_message: Option<String>,
}

/// A report on a job as it arrives.
#[derive(Debug, Clone, PartialEq, Eq)]
pub struct JobUpdate {
    pub job_id: u128,
    pub status: JobStatus,
    pub total_chunks: Option<u32>,
    pub completed_chunks: Option<u32>,
    pub failed_chunks: Option<u32>,
}

/// All that the dashboard shows, as of one moment.
#[derive(Debug, Clone)]
pub struct DashboardData {
    pub nodes: HashMap<u128, NodeInfo>,
    pub clients: HashMap<u128, ClientInfo>,
    pub jobs: HashMap<u128, JobInfo>,
    pub chunks: HashMap<u128, ChunkAssignment>,
    pub stats: SystemStats,
    pub last_updated: i64,
}

} // verus!
