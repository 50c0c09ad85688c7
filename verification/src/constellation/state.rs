//! The registry: four maps, keyed by identifier, and the operations that
//! change them.
//!
//! Every operation comes twice. The one whose name ends in `_at` is given
//! the identifier and the time to use, and says exactly what it does with
//! them. The other draws the identifier, reads the clock, and does the same.

use vstd::prelude::*;
use std::collections::HashMap;
use crate::clock::now_millis;
use crate::constellation::config::ConstellationConfig;
use crate::constellation::models::{
    ChunkAssignment,
    ChunkStatus,
    ChunkUpdate,
    ClientInfo,
    ClientStatus,
    JobInfo,
    JobStatus,
    JobUpdate,
    NodeInfo,
    NodeStatus,
};
use crate::constellation::registry_keys::free_id;
use crate::ids::fresh_uuid;
use crate::models::{ClientRegistration, NodeRegistration};

verus! {

/// The registry of a constellation.
#[derive(Debug, Clone)]
pub struct ConstellationState {
    pub nodes: HashMap<u128, NodeInfo>,
    pub clients: HashMap<u128, ClientInfo>,
    pub jobs: HashMap<u128, JobInfo>,
    pub chunks: HashMap<u128, ChunkAssignment>,
    pub config: ConstellationConfig,
}

/// Whether `node` is the record of a node that has just registered.
pub open spec fn is_new_node(node: NodeInfo, id: u128, registration: NodeRegistration, now: i64)
    -> bool {
    &&& node.id == id
    &&& node.address == registration.address
    &&& node.status == NodeStatus::Online
    &&& node.last_heartbeat == now
    &&& node.capabilities == registration.capabilities
    &&& node.current_chunks@.len() == 0
    &&& node.total_processed == 0
    &&& node.total_failed == 0
}

/// Whether the nodes `after` are the nodes `before` with one more, newly
/// registered under `id`: its record is new, and every other is as it was.
pub open spec fn node_registered(
    before: Map<u128, NodeInfo>,
    after: Map<u128, NodeInfo>,
    id: u128,
    registration: NodeRegistration,
    now: i64,
) -> bool {
    &&& after.dom() == before.dom().insert(id)
    &&& is_new_node(after[id], id, registration, now)
    &&& forall|other: u128|
        other != id && #[trigger] before.contains_key(other) ==> after[other] == before[other]
}

/// Whether `client` is the record of a client that has just registered.
pub open spec fn is_new_client(
    client: ClientInfo,
    id: u128,
    registration: ClientRegistration,
    now: i64,
) -> bool {
    &&& client.id == id
    &&& client.address == registration.address
    &&& client.status == ClientStatus::Connected
    &&& client.last_heartbeat == now
    &&& client.active_jobs@.len() == 0
}

/// Whether the clients `after` are the clients `before` with one more,
/// newly registered under `id`: its record is new, and every other is as it
/// was.
pub open spec fn client_registered(
    before: Map<u128, ClientInfo>,
    after: Map<u128, ClientInfo>,
    id: u128,
    registration: ClientRegistration,
    now: i64,
) -> bool {
    &&& after.dom() == before.dom().insert(id)
    &&& is_new_client(after[id], id, registration, now)
    &&& forall|other: u128|
        other != id && #[trigger] before.contains_key(other) ==> after[other] == before[other]
}

/// Whether `job` is the record of a job that has just been created.
pub open spec fn is_new_job(
    job: JobInfo,
    id: u128,
    client_id: u128,
    video_file: String,
    encoder_parameters: Vec<String>,
    now: i64,
) -> bool {
    &&& job.id == id
    &&& job.client_id == client_id
    &&& job.video_file == video_file
    &&& job.total_chunks == 0
    &&& job.completed_chunks == 0
    &&& job.failed_chunks == 0
    &&& job.status == JobStatus::Queued
    &&& job.started_at == now
    &&& job.estimated_completion is None
    &&& job.encoder_parameters == encoder_parameters
}

/// Whether the jobs and clients `after` are those `before` with one more
/// job, newly created under `job_id` for the client `client_id`: the job's
/// record is new, the client, where it is registered, lists the job, and all
/// else is as it was.
pub open spec fn job_created(
    jobs_before: Map<u128, JobInfo>,
    jobs_after: Map<u128, JobInfo>,
    clients_before: Map<u128, ClientInfo>,
    clients_after: Map<u128, ClientInfo>,
    job_id: u128,
    client_id: u128,
    video_file: String,
    encoder_parameters: Vec<String>,
    now: i64,
) -> bool {
    &&& jobs_after.dom() == jobs_before.dom().insert(job_id)
    &&& is_new_job(jobs_after[job_id], job_id, client_id, video_file, encoder_parameters, now)
    &&& forall|other: u128|
        other != job_id && #[trigger] jobs_before.contains_key(other) ==> jobs_after[other]
            == jobs_before[other]
    &&& clients_after.dom() == clients_before.dom()
    &&& clients_before.contains_key(client_id) ==> job_added(
        clients_before[client_id],
        clients_after[client_id],
        job_id,
    )
    &&& forall|other: u128|
        other != client_id && #[trigger] clients_before.contains_key(other)
            ==> clients_after[other] == clients_before[other]
}

/// The record of a chunk that has just been assigned.
pub open spec fn new_assignment(
    chunk_id: u128,
    job_id: u128,
    chunk_index: u32,
    node_id: u128,
    now: i64,
) -> ChunkAssignment {
    ChunkAssignment {
        chunk_id,
        job_id,
        chunk_index,
        node_id,
        status: ChunkStatus::Assigned,
        assigned_at: now,
        started_at: None,
        completed_at: None,
        progress_percent: 0,
    }
}

/// Whether `after` is `before` with one more identifier at the end of the
/// list of chunks that are with the node.
pub open spec fn chunk_added(before: NodeInfo, after: NodeInfo, chunk_id: u128) -> bool {
    &&& after.current_chunks@ == before.current_chunks@.push(chunk_id)
    &&& after == (NodeInfo { current_chunks: after.current_chunks, ..before })
}

/// Whether the chunks and nodes `after` are those `before` with one more
/// assignment, newly made under `chunk_id`, which was free: the assignment's
/// record is new, the node lists it last, and all else is as it was.
pub open spec fn chunk_assigned(
    chunks_before: Map<u128, ChunkAssignment>,
    chunks_after: Map<u128, ChunkAssignment>,
    nodes_before: Map<u128, NodeInfo>,
    nodes_after: Map<u128, NodeInfo>,
    chunk_id: u128,
    job_id: u128,
    chunk_index: u32,
    node_id: u128,
    now: i64,
) -> bool {
    &&& !chunks_before.contains_key(chunk_id)
    &&& chunks_after == chunks_before.insert(
        chunk_id,
        new_assignment(chunk_id, job_id, chunk_index, node_id, now),
    )
    &&& nodes_after.dom() == nodes_before.dom()
    &&& chunk_added(nodes_before[node_id], nodes_after[node_id], chunk_id)
    &&& forall|other: u128|
        other != node_id && #[trigger] nodes_before.contains_key(other) ==> nodes_after[other]
            == nodes_before[other]
}

/// Whether `after` is `before` with one more identifier at the end of the
/// list of the client's jobs.
pub open spec fn job_added(before: ClientInfo, after: ClientInfo, job_id: u128) -> bool {
    &&& after.active_jobs@ == before.active_jobs@.push(job_id)
    &&& after == (ClientInfo { active_jobs: after.active_jobs, ..before })
}

/// A node after a heartbeat that reports `status` at the time `now`.
pub open spec fn node_after_heartbeat(node: NodeInfo, status: NodeStatus, now: i64) -> NodeInfo {
    NodeInfo { last_heartbeat: now, status, ..node }
}

/// A client after a heartbeat that reports `status` at the time `now`.
pub open spec fn client_after_heartbeat(client: ClientInfo, status: ClientStatus, now: i64)
    -> ClientInfo {
    ClientInfo { last_heartbeat: now, status, ..client }
}

/// The progress that is recorded for a reported `percent`: never more than
/// a hundred.
pub open spec fn capped_progress(percent: u8) -> u8 {
    if percent > 100 {
        100
    } else {
        percent
    }
}

/// The time that an end is stamped with at the time `now`, for an
/// assignment that began at `started_at` if at all: `now`, but never a
/// time before the start, whatever the clock shows.
pub open spec fn end_stamp(started_at: Option<i64>, now: i64) -> i64 {
    match started_at {
        Some(started) => if now < started {
            started
        } else {
            now
        },
        None => now,
    }
}

/// A chunk assignment after a report of `status` and `percent` at the time
/// `now`: status and progress are taken over. The start is stamped on the
/// first report of progress, unless the assignment has ended already; the
/// end on the first report of an end, no earlier than the start. A stamp
/// that is set stays.
pub open spec fn updated_chunk(chunk: ChunkAssignment, status: ChunkStatus, percent: u8, now: i64)
    -> ChunkAssignment {
    ChunkAssignment {
        status,
        progress_percent: capped_progress(percent),
        started_at: if status is InProgress && chunk.started_at is None
            && chunk.completed_at is None {
            Some(now)
        } else {
            chunk.started_at
        },
        completed_at: if status.is_terminal() && chunk.completed_at is None {
            Some(end_stamp(chunk.started_at, now))
        } else {
            chunk.completed_at
        },
        ..chunk
    }
}

/// Whether a chunk assignment that has both its timestamps began no later
/// than it ended.
pub open spec fn began_before_end(chunk: ChunkAssignment) -> bool {
    chunk.started_at is Some && chunk.completed_at is Some ==> chunk.started_at->0
        <= chunk.completed_at->0
}

/// A job after the report `update`: the status is taken over, and each
/// counter that the report names.
pub open spec fn updated_job(job: JobInfo, update: JobUpdate) -> JobInfo {
    JobInfo {
        status: update.status,
        total_chunks: match update.total_chunks {
            Some(n) => n,
            None => job.total_chunks,
        },
        completed_chunks: match update.completed_chunks {
            Some(n) => n,
            None => job.completed_chunks,
        },
        failed_chunks: match update.failed_chunks {
            Some(n) => n,
            None => job.failed_chunks,
        },
        ..job
    }
}

/// Whether a job's counters add up: no more chunks done, well or badly,
/// than the job has.
pub open spec fn counters_add_up(job: JobInfo) -> bool {
    job.completed_chunks + job.failed_chunks <= job.total_chunks
}

/// How a report on a job was received.
#[derive(Debug, Clone, Copy, PartialEq, Eq, Structural)]
pub enum JobUpdateOutcome {
    /// The job was updated.
    Updated,
    /// There is no such job.
    NotFound,
    /// The counters that would result do not add up; nothing was changed.
    Rejected,
}

impl ConstellationState {
    /// Whether the registry is in order:
    /// every record is kept under its own identifier; every chunk belongs to
    /// a job that exists; what a node lists as its chunks are chunks that
    /// were given to it; every job's counters add up; progress is at most a
    /// hundred per cent; and no chunk assignment ends before it began.
    pub open spec fn wf(&self) -> bool {
        &&& forall|id: u128| #[trigger]
            self.nodes@.contains_key(id) ==> self.nodes@[id].id == id
        &&& forall|id: u128| #[trigger]
            self.clients@.contains_key(id) ==> self.clients@[id].id == id
        &&& forall|id: u128| #[trigger]
            self.jobs@.contains_key(id) ==> self.jobs@[id].id == id && counters_add_up(
                self.jobs@[id],
            )
        &&& forall|id: u128| #[trigger]
            self.chunks@.contains_key(id) ==> {
                &&& self.chunks@[id].chunk_id == id
                &&& self.jobs@.contains_key(self.chunks@[id].job_id)
                &&& self.chunks@[id].progress_percent <= 100
                &&& began_before_end(self.chunks@[id])
            }
        &&& forall|id: u128, k: int|
            self.nodes@.contains_key(id) && 0 <= k < self.nodes@[id].current_chunks@.len() ==> {
                let chunk_id = #[trigger] self.nodes@[id].current_chunks@[k];
                self.chunks@.contains_key(chunk_id) && self.chunks@[chunk_id].node_id == id
            }
    }

    /// An empty registry with the configuration `config`.
    pub fn new(config: ConstellationConfig) -> (state: ConstellationState)
        ensures
            state.wf(),
            state.nodes@ == Map::<u128, NodeInfo>::empty(),
            state.clients@ == Map::<u128, ClientInfo>::empty(),
            state.jobs@ == Map::<u128, JobInfo>::empty(),
            state.chunks@ == Map::<u128, ChunkAssignment>::empty(),
            state.config == config,
    {
        ConstellationState {
            nodes: HashMap::new(),
            clients: HashMap::new(),
            jobs: HashMap::new(),
            chunks: HashMap::new(),
            config,
        }
    }

    /// Registers a node under the identifier `id` at the time `now`.
    ///
    /// The node's record is new and is kept under `id`, in place of what was
    /// kept there, if anything. No address is looked for among the nodes
    /// that are registered: a node that registers twice is there twice.
    pub fn register_node_at(&mut self, id: u128, registration: NodeRegistration, now: i64)
        requires
            old(self).wf(),
        ensures
            final(self).wf(),
            node_registered(old(self).nodes@, final(self).nodes@, id, registration, now),
            final(self).clients@ == old(self).clients@,
            final(self).jobs@ == old(self).jobs@,
            final(self).chunks@ == old(self).chunks@,
            final(self).config == old(self).config,
    {
        broadcast use vstd::std_specs::hash::group_hash_axioms;

        let node = NodeInfo {
            id,
            address: registration.address,
            status: NodeStatus::Online,
            last_heartbeat: now,
            capabilities: registration.capabilities,
            current_chunks: Vec::new(),
            total_processed: 0,
            total_failed: 0,
        };
        self.nodes.insert(id, node);
        proof {
            assert(final(self).nodes@.dom() =~= old(self).nodes@.dom().insert(id));
        }
    }

    /// Registers a node under an identifier that was not in use, which is
    /// handed back: the one that is drawn, or, should that one be in use,
    /// the first free one after it. No node is replaced, so a node that
    /// registers twice is there twice.
    pub fn register_node(&mut self, registration: NodeRegistration) -> (id: u128)
        requires
            old(self).wf(),
        ensures
            final(self).wf(),
            !old(self).nodes@.contains_key(id),
            exists|now: i64|
                #[trigger] node_registered(
                    old(self).nodes@,
                    final(self).nodes@,
                    id,
                    registration,
                    now,
                ),
            final(self).clients@ == old(self).clients@,
            final(self).jobs@ == old(self).jobs@,
            final(self).chunks@ == old(self).chunks@,
    {
        let id = free_id(&self.nodes, fresh_uuid());
        let now = now_millis();
        self.register_node_at(id, registration, now);
        proof {
            assert(node_registered(old(self).nodes@, self.nodes@, id, registration, now));
        }
        id
    }

    /// Registers a client under the identifier `id` at the time `now`.
    pub fn register_client_at(&mut self, id: u128, registration: ClientRegistration, now: i64)
        requires
            old(self).wf(),
        ensures
            final(self).wf(),
            client_registered(old(self).clients@, final(self).clients@, id, registration, now),
            final(self).nodes@ == old(self).nodes@,
            final(self).jobs@ == old(self).jobs@,
            final(self).chunks@ == old(self).chunks@,
            final(self).config == old(self).config,
    {
        broadcast use vstd::std_specs::hash::group_hash_axioms;

        let client = ClientInfo {
            id,
            address: registration.address,
            status: ClientStatus::Connected,
            last_heartbeat: now,
            active_jobs: Vec::new(),
        };
        self.clients.insert(id, client);
        proof {
            assert(final(self).clients@.dom() =~= old(self).clients@.dom().insert(id));
        }
    }

    /// Registers a client under an identifier that was not in use, which is
    /// handed back. No client is replaced.
    pub fn register_client(&mut self, registration: ClientRegistration) -> (id: u128)
        requires
            old(self).wf(),
        ensures
            final(self).wf(),
            !old(self).clients@.contains_key(id),
            exists|now: i64|
                #[trigger] client_registered(
                    old(self).clients@,
                    final(self).clients@,
                    id,
                    registration,
                    now,
                ),
            final(self).nodes@ == old(self).nodes@,
            final(self).jobs@ == old(self).jobs@,
            final(self).chunks@ == old(self).chunks@,
    {
        let id = free_id(&self.clients, fresh_uuid());
        let now = now_millis();
        self.register_client_at(id, registration, now);
        proof {
            assert(client_registered(old(self).clients@, self.clients@, id, registration, now));
        }
        id
    }

    /// Records a heartbeat of the node `node_id` at the time `now`.
    ///
    /// A node that is registered gets the time and the status that it
    /// reports, and the answer is `true`. For any other identifier nothing
    /// changes, and the answer is `false`.
    pub fn update_node_heartbeat_at(&mut self, node_id: u128, status: NodeStatus, now: i64) -> (found:
        bool)
        requires
            old(self).wf(),
        ensures
            final(self).wf(),
            found == old(self).nodes@.contains_key(node_id),
            found ==> final(self).nodes@ == old(self).nodes@.insert(
                node_id,
                node_after_heartbeat(old(self).nodes@[node_id], status, now),
            ),
            !found ==> final(self).nodes@ == old(self).nodes@,
            final(self).clients@ == old(self).clients@,
            final(self).jobs@ == old(self).jobs@,
            final(self).chunks@ == old(self).chunks@,
            final(self).config == old(self).config,
    {
        broadcast use vstd::std_specs::hash::group_hash_axioms;

        match self.nodes.remove(&node_id) {
            Some(mut node) => {
                node.last_heartbeat = now;
                node.status = status;
                self.nodes.insert(node_id, node);
                proof {
                    assert(final(self).nodes@ =~= old(self).nodes@.insert(
                        node_id,
                        node_after_heartbeat(old(self).nodes@[node_id], status, now),
                    ));
                }
                true
            },
            None => {
                proof {
                    assert(final(self).nodes@ =~= old(self).nodes@);
                }
                false
            },
        }
    }

    /// Records a heartbeat of the node `node_id`, at the time that the clock
    /// shows.
    pub fn update_node_heartbeat(&mut self, node_id: u128, status: NodeStatus) -> (found: bool)
        requires
            old(self).wf(),
        ensures
            final(self).wf(),
            found == old(self).nodes@.contains_key(node_id),
            found ==> exists|now: i64|
                final(self).nodes@ == old(self).nodes@.insert(
                    node_id,
                    node_after_heartbeat(old(self).nodes@[node_id], status, now),
                ),
            !found ==> final(self).nodes@ == old(self).nodes@,
            final(self).clients@ == old(self).clients@,
            final(self).jobs@ == old(self).jobs@,
            final(self).chunks@ == old(self).chunks@,
    {
        let now = now_millis();
        self.update_node_heartbeat_at(node_id, status, now)
    }

    /// Records a heartbeat of the client `client_id` at the time `now`.
    ///
    /// A client that is registered gets the time and the status that it
    /// reports, and the answer is `true`. For any other identifier nothing
    /// changes, and the answer is `false`.
    pub fn update_client_heartbeat_at(
        &mut self,
        client_id: u128,
        status: ClientStatus,
        now: i64,
    ) -> (found: bool)
        requires
            old(self).wf(),
        ensures
            final(self).wf(),
            found == old(self).clients@.contains_key(client_id),
            found ==> final(self).clients@ == old(self).clients@.insert(
                client_id,
                client_after_heartbeat(old(self).clients@[client_id], status, now),
            ),
            !found ==> final(self).clients@ == old(self).clients@,
            final(self).nodes@ == old(self).nodes@,
            final(self).jobs@ == old(self).jobs@,
            final(self).chunks@ == old(self).chunks@,
            final(self).config == old(self).config,
    {
        broadcast use vstd::std_specs::hash::group_hash_axioms;

        match self.clients.remove(&client_id) {
            Some(mut client) => {
                client.last_heartbeat = now;
                client.status = status;
                self.clients.insert(client_id, client);
                proof {
                    assert(final(self).clients@ =~= old(self).clients@.insert(
                        client_id,
                        client_after_heartbeat(old(self).clients@[client_id], status, now),
                    ));
                }
                true
            },
            None => {
                proof {
                    assert(final(self).clients@ =~= old(self).clients@);
                }
                false
            },
        }
    }

    /// Records a heartbeat of the client `client_id`, at the time that the
    /// clock shows.
    pub fn update_client_heartbeat(&mut self, client_id: u128, status: ClientStatus) -> (found:
        bool)
        requires
            old(self).wf(),
        ensures
            final(self).wf(),
            found == old(self).clients@.contains_key(client_id),
            found ==> exists|now: i64|
                final(self).clients@ == old(self).clients@.insert(
                    client_id,
                    client_after_heartbeat(old(self).clients@[client_id], status, now),
                ),
            !found ==> final(self).clients@ == old(self).clients@,
            final(self).nodes@ == old(self).nodes@,
            final(self).jobs@ == old(self).jobs@,
            final(self).chunks@ == old(self).chunks@,
    {
        let now = now_millis();
        self.update_client_heartbeat_at(client_id, status, now)
    }

    /// Gives chunk `chunk_index` of the job `job_id` to the node `node_id`,
    /// under the identifier `chunk_id`, at the time `now`.
    ///
    /// Where the job and the node are there and the identifier is not in
    /// use, the assignment is recorded, the node lists it, and its identifier
    /// is the answer. Otherwise nothing changes and there is no answer.
    pub fn assign_chunk_at(
        &mut self,
        job_id: u128,
        chunk_index: u32,
        node_id: u128,
        chunk_id: u128,
        now: i64,
    ) -> (assigned: Option<u128>)
        requires
            old(self).wf(),
        ensures
            final(self).wf(),
            assigned is Some <==> old(self).jobs@.contains_key(job_id) && old(self).nodes@.contains_key(node_id)
                && !old(self).chunks@.contains_key(chunk_id),
            assigned is Some ==> {
                &&& assigned == Some(chunk_id)
                &&& final(self).chunks@ == old(self).chunks@.insert(
                    chunk_id,
                    new_assignment(chunk_id, job_id, chunk_index, node_id, now),
                )
                &&& final(self).nodes@.dom() == old(self).nodes@.dom()
                &&& chunk_added(old(self).nodes@[node_id], final(self).nodes@[node_id], chunk_id)
                &&& forall|other: u128|
                    other != node_id && old(self).nodes@.contains_key(other) ==> final(self).nodes@[other] == old(self).nodes@[other]
            },
            assigned is None ==> final(self).chunks@ == old(self).chunks@ && final(self).nodes@
                == old(self).nodes@,
            final(self).clients@ == old(self).clients@,
            final(self).jobs@ == old(self).jobs@,
            final(self).config == old(self).config,
    {
        broadcast use vstd::std_specs::hash::group_hash_axioms;

        if !self.jobs.contains_key(&job_id) || self.chunks.contains_key(&chunk_id) {
            return None;
        }
        match self.nodes.remove(&node_id) {
            Some(mut node) => {
                let ghost before = node;
                node.current_chunks.push(chunk_id);
                self.nodes.insert(node_id, node);
                self.chunks.insert(
                    chunk_id,
                    ChunkAssignment {
                        chunk_id,
                        job_id,
                        chunk_index,
                        node_id,
                        status: ChunkStatus::Assigned,
                        assigned_at: now,
                        started_at: None,
                        completed_at: None,
                        progress_percent: 0,
                    },
                );
                proof {
                    assert(final(self).nodes@.dom() =~= old(self).nodes@.dom());
                    assert forall|id: u128, k: int|
                        final(self).nodes@.contains_key(id) && 0 <= k < final(self).nodes@[id].current_chunks@.len() implies {
                        let c = #[trigger] final(self).nodes@[id].current_chunks@[k];
                        final(self).chunks@.contains_key(c) && final(self).chunks@[c].node_id == id
                    } by {
                        let c = final(self).nodes@[id].current_chunks@[k];
                        if id == node_id {
                            if k < before.current_chunks@.len() {
                                assert(c == old(self).nodes@[id].current_chunks@[k]);
                            }
                        } else {
                            assert(c == old(self).nodes@[id].current_chunks@[k]);
                        }
                    }
                }
                Some(chunk_id)
            },
            None => {
                proof {
                    assert(final(self).nodes@ =~= old(self).nodes@);
                }
                None
            },
        }
    }

    /// Gives a chunk of a job to a node, under a fresh identifier and at the
    /// time that the clock shows.
    ///
    /// Where the job and the node are there, the assignment is recorded
    /// under an identifier that was not in use, the node lists it, and the
    /// identifier is the answer. Otherwise nothing changes and there is no
    /// answer. The identifier is the one that was drawn, or, should that one
    /// be in use, the first free one after it.
    pub fn assign_chunk(&mut self, job_id: u128, chunk_index: u32, node_id: u128) -> (assigned:
        Option<u128>)
        requires
            old(self).wf(),
        ensures
            final(self).wf(),
            assigned is Some <==> old(self).jobs@.contains_key(job_id) && old(self).nodes@.contains_key(node_id),
            assigned is Some ==> exists|now: i64|
                #[trigger] chunk_assigned(
                    old(self).chunks@,
                    final(self).chunks@,
                    old(self).nodes@,
                    final(self).nodes@,
                    assigned->0,
                    job_id,
                    chunk_index,
                    node_id,
                    now,
                ),
            assigned is None ==> final(self).chunks@ == old(self).chunks@ && final(self).nodes@
                == old(self).nodes@,
            final(self).clients@ == old(self).clients@,
            final(self).jobs@ == old(self).jobs@,
            final(self).config == old(self).config,
    {
        let chunk_id = free_id(&self.chunks, fresh_uuid());
        let now = now_millis();
        let assigned = self.assign_chunk_at(job_id, chunk_index, node_id, chunk_id, now);
        proof {
            if assigned is Some {
                assert(assigned->0 == chunk_id);
                assert(chunk_assigned(
                    old(self).chunks@,
                    self.chunks@,
                    old(self).nodes@,
                    self.nodes@,
                    assigned->0,
                    job_id,
                    chunk_index,
                    node_id,
                    now,
                ));
            }
        }
        assigned
    }

    /// Records the report `update` on the chunk assignment `chunk_id` at
    /// the time `now`.
    ///
    /// An assignment that is there becomes what [`updated_chunk`] says, and
    /// the answer is `true`. For any other identifier nothing changes, and
    /// the answer is `false`.
    pub fn update_chunk_status_at(&mut self, chunk_id: u128, update: ChunkUpdate, now: i64) -> (found:
        bool)
        requires
            old(self).wf(),
        ensures
            final(self).wf(),
            found == old(self).chunks@.contains_key(chunk_id),
            found ==> final(self).chunks@ == old(self).chunks@.insert(
                chunk_id,
                updated_chunk(
                    old(self).chunks@[chunk_id],
                    update.status,
                    update.progress_percent,
                    now,
                ),
            ),
            !found ==> final(self).chunks@ == old(self).chunks@,
            final(self).nodes@ == old(self).nodes@,
            final(self).clients@ == old(self).clients@,
            final(self).jobs@ == old(self).jobs@,
            final(self).config == old(self).config,
    {
        broadcast use vstd::std_specs::hash::group_hash_axioms;

        match self.chunks.remove(&chunk_id) {
            Some(mut chunk) => {
                if update.progress_percent > 100 {
                    chunk.progress_percent = 100;
                } else {
                    chunk.progress_percent = update.progress_percent;
                }
                let terminal = update.status.terminal();
                let in_progress = match &update.status {
                    ChunkStatus::InProgress => true,
                    _ => false,
                };
                if in_progress && chunk.started_at.is_none() && chunk.completed_at.is_none() {
                    chunk.started_at = Some(now);
                }
                if terminal && chunk.completed_at.is_none() {
                    let stamp = match chunk.started_at {
                        Some(started) => if now < started {
                            started
                        } else {
                            now
                        },
                        None => now,
                    };
                    chunk.completed_at = Some(stamp);
                }
                chunk.status = update.status;
                self.chunks.insert(chunk_id, chunk);
                proof {
                    assert(final(self).chunks@ =~= old(self).chunks@.insert(
                        chunk_id,
                        updated_chunk(
                            old(self).chunks@[chunk_id],
                            update.status,
                            update.progress_percent,
                            now,
                        ),
                    ));
                }
                true
            },
            None => {
                proof {
                    assert(final(self).chunks@ =~= old(self).chunks@);
                }
                false
            },
        }
    }

    /// Records a report on a chunk assignment, at the time that the clock
    /// shows.
    pub fn update_chunk_status(&mut self, chunk_id: u128, update: ChunkUpdate) -> (found: bool)
        requires
            old(self).wf(),
        ensures
            final(self).wf(),
            found == old(self).chunks@.contains_key(chunk_id),
            found ==> exists|now: i64|
                final(self).chunks@ == old(self).chunks@.insert(
                    chunk_id,
                    updated_chunk(
                        old(self).chunks@[chunk_id],
                        update.status,
                        update.progress_percent,
                        now,
                    ),
                ),
            !found ==> final(self).chunks@ == old(self).chunks@,
            final(self).nodes@ == old(self).nodes@,
            final(self).clients@ == old(self).clients@,
            final(self).jobs@ == old(self).jobs@,
    {
        let now = now_millis();
        self.update_chunk_status_at(chunk_id, update, now)
    }

    /// Creates a job of the client `client_id` under the identifier
    /// `job_id` at the time `now`.
    ///
    /// The job is recorded as queued, with no chunks yet. Where the client
    /// is registered, it lists the job, by its identifier.
    pub fn create_job_at(
        &mut self,
        client_id: u128,
        video_file: String,
        encoder_parameters: Vec<String>,
        job_id: u128,
        now: i64,
    )
        requires
            old(self).wf(),
        ensures
            final(self).wf(),
            job_created(
                old(self).jobs@,
                final(self).jobs@,
                old(self).clients@,
                final(self).clients@,
                job_id,
                client_id,
                video_file,
                encoder_parameters,
                now,
            ),
            final(self).nodes@ == old(self).nodes@,
            final(self).chunks@ == old(self).chunks@,
            final(self).config == old(self).config,
    {
        broadcast use vstd::std_specs::hash::group_hash_axioms;

        let job = JobInfo {
            id: job_id,
            client_id,
            video_file,
            total_chunks: 0,
            completed_chunks: 0,
            failed_chunks: 0,
            status: JobStatus::Queued,
            started_at: now,
            estimated_completion: None,
            encoder_parameters,
        };
        self.jobs.insert(job_id, job);
        match self.clients.remove(&client_id) {
            Some(mut client) => {
                client.active_jobs.push(job_id);
                self.clients.insert(client_id, client);
            },
            None => {},
        }
        proof {
            assert(final(self).jobs@.dom() =~= old(self).jobs@.dom().insert(job_id));
            assert(final(self).clients@.dom() =~= old(self).clients@.dom());
        }
    }

    /// Creates a job under an identifier that was not in use, which is
    /// handed back, at the time that the clock shows. No job is replaced.
    pub fn create_job(
        &mut self,
        client_id: u128,
        video_file: String,
        encoder_parameters: Vec<String>,
    ) -> (job_id: u128)
        requires
            old(self).wf(),
        ensures
            final(self).wf(),
            !old(self).jobs@.contains_key(job_id),
            exists|now: i64|
                #[trigger] job_created(
                    old(self).jobs@,
                    final(self).jobs@,
                    old(self).clients@,
                    final(self).clients@,
                    job_id,
                    client_id,
                    video_file,
                    encoder_parameters,
                    now,
                ),
            final(self).nodes@ == old(self).nodes@,
            final(self).chunks@ == old(self).chunks@,
    {
        let job_id = free_id(&self.jobs, fresh_uuid());
        let now = now_millis();
        self.create_job_at(client_id, video_file, encoder_parameters, job_id, now);
        proof {
            assert(job_created(
                old(self).jobs@,
                self.jobs@,
                old(self).clients@,
                self.clients@,
                job_id,
                client_id,
                video_file,
                encoder_parameters,
                now,
            ));
        }
        job_id
    }

    /// Records the report `update` on the job `job_id`.
    ///
    /// A job that is there becomes what [`updated_job`] says, provided that
    /// its counters then add up; if they would not, the report is rejected
    /// and nothing changes. For any other identifier nothing changes either.
    pub fn update_job(&mut self, job_id: u128, update: JobUpdate) -> (outcome: JobUpdateOutcome)
        requires
            old(self).wf(),
        ensures
            final(self).wf(),
            outcome == if !old(self).jobs@.contains_key(job_id) {
                JobUpdateOutcome::NotFound
            } else if counters_add_up(updated_job(old(self).jobs@[job_id], update)) {
                JobUpdateOutcome::Updated
            } else {
                JobUpdateOutcome::Rejected
            },
            outcome == JobUpdateOutcome::Updated ==> final(self).jobs@ == old(self).jobs@.insert(
                job_id,
                updated_job(old(self).jobs@[job_id], update),
            ),
            outcome != JobUpdateOutcome::Updated ==> final(self).jobs@ == old(self).jobs@,
            final(self).nodes@ == old(self).nodes@,
            final(self).clients@ == old(self).clients@,
            final(self).chunks@ == old(self).chunks@,
            final(self).config == old(self).config,
    {
        broadcast use vstd::std_specs::hash::group_hash_axioms;

        match self.jobs.remove(&job_id) {
            Some(mut job) => {
                let total = match update.total_chunks {
                    Some(n) => n,
                    None => job.total_chunks,
                };
                let completed = match update.completed_chunks {
                    Some(n) => n,
                    None => job.completed_chunks,
                };
                let failed = match update.failed_chunks {
                    Some(n) => n,
                    None => job.failed_chunks,
                };
                if completed as u64 + failed as u64 > total as u64 {
                    self.jobs.insert(job_id, job);
                    proof {
                        assert(final(self).jobs@ =~= old(self).jobs@);
                    }
                    return JobUpdateOutcome::Rejected;
                }
                job.status = update.status;
                job.total_chunks = total;
                job.completed_chunks = completed;
                job.failed_chunks = failed;
                self.jobs.insert(job_id, job);
                proof {
                    assert(final(self).jobs@ =~= old(self).jobs@.insert(
                        job_id,
                        updated_job(old(self).jobs@[job_id], update),
                    ));
                }
                JobUpdateOutcome::Updated
            },
            None => {
                proof {
                    assert(final(self).jobs@ =~= old(self).jobs@);
                }
                JobUpdateOutcome::NotFound
            },
        }
    }
}


/// The registry does not look at addresses: a node that registers twice,
/// each time under an identifier that was not in use, is there twice. The
/// two identifiers differ from each other and from every one that was there
/// before; both nodes are new, online and without chunks, with the address
/// that was registered; and every node that was there before still is, as
/// it was.
pub proof fn lemma_registering_twice_keeps_both(
    start: Map<u128, NodeInfo>,
    between: Map<u128, NodeInfo>,
    end: Map<u128, NodeInfo>,
    first: u128,
    second: u128,
    registration: NodeRegistration,
    first_time: i64,
    second_time: i64,
)
    requires
        start.dom().finite(),
        !start.contains_key(first),
        node_registered(start, between, first, registration, first_time),
        !between.contains_key(second),
        node_registered(between, end, second, registration, second_time),
    ensures
        first != second,
        end.dom() == start.dom().insert(first).insert(second),
        end.dom().len() == start.dom().len() + 2,
        is_new_node(end[first], first, registration, first_time),
        is_new_node(end[second], second, registration, second_time),
        end[first].address == end[second].address,
        forall|other: u128| #[trigger]
            start.contains_key(other) ==> end.contains_key(other) && end[other] == start[other],
{
    broadcast use vstd::set::group_set_axioms;

    assert(between.contains_key(first));
    assert(end.dom().contains(second));
    assert(end[first] == between[first]);
    assert forall|other: u128| #[trigger] start.contains_key(other) implies end.contains_key(
        other,
    ) && end[other] == start[other] by {
        assert(between.dom().contains(other));
        assert(between.contains_key(other));
        assert(end.dom().contains(other));
    }
}

/// A report leaves the timestamps of an assignment in order, whatever the
/// report, whenever it comes, and whatever the clock shows; and an
/// assignment that has come to an end has the time of its end.
pub proof fn lemma_update_keeps_timestamps_in_order(
    chunk: ChunkAssignment,
    status: ChunkStatus,
    percent: u8,
    now: i64,
)
    requires
        began_before_end(chunk),
    ensures
        began_before_end(updated_chunk(chunk, status, percent, now)),
        updated_chunk(chunk, status, percent, now).status.is_terminal() ==> updated_chunk(
            chunk,
            status,
            percent,
            now,
        ).completed_at is Some,
{
}

/// Each timestamp is set once: the start by the first report of progress,
/// the end by the first report of an end. A report that is repeated changes
/// nothing more, whenever it comes; in particular a second report of
/// completion leaves the time of completion as the first one set it.
pub proof fn lemma_repeated_report_changes_nothing(
    chunk: ChunkAssignment,
    status: ChunkStatus,
    percent: u8,
    first_time: i64,
    second_time: i64,
)
    ensures
        updated_chunk(updated_chunk(chunk, status, percent, first_time), status, percent, second_time)
            == updated_chunk(chunk, status, percent, first_time),
        chunk.started_at is Some ==> updated_chunk(chunk, status, percent, first_time).started_at
            == chunk.started_at,
        chunk.completed_at is Some ==> updated_chunk(chunk, status, percent, first_time).completed_at
            == chunk.completed_at,
{
}

} // verus!
