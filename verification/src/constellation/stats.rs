//! The liveness sweep and the dashboard's figures.

use vstd::prelude::*;
use std::collections::HashMap;
use crate::clock::now_millis;
use crate::constellation::models::{
    ChunkAssignment,
    ChunkStatus,
    ClientInfo,
    ClientStatus,
    DashboardData,
    JobInfo,
    NodeInfo,
    NodeStatus,
    SystemStats,
};
use crate::constellation::registry_keys::keys_of;
use crate::constellation::state::{
    began_before_end,
    node_after_heartbeat,
    updated_chunk,
    ConstellationState,
};
use crate::constellation::tally::{
    lemma_seen_all,
    lemma_total_empty,
    lemma_total_step,
    seen,
    total_of,
};

verus! {

/// Seconds between two sweeps of the registry.
pub const SWEEP_INTERVAL_SECS: u64 = 60;

/// Whether a heartbeat at `last_heartbeat` is too long ago at the time
/// `now`: more than `timeout_seconds` seconds.
pub open spec fn is_stale(last_heartbeat: i64, now: i64, timeout_seconds: u64) -> bool {
    now - last_heartbeat > timeout_seconds * 1000
}

/// A node after the sweep at the time `now`: offline where its heartbeat is
/// stale, else as it was.
pub open spec fn swept_node(node: NodeInfo, now: i64, timeout_seconds: u64) -> NodeInfo {
    if is_stale(node.last_heartbeat, now, timeout_seconds) {
        NodeInfo { status: NodeStatus::Offline, ..node }
    } else {
        node
    }
}

/// A client after the sweep at the time `now`: disconnected where its
/// heartbeat is stale, else as it was.
pub open spec fn swept_client(client: ClientInfo, now: i64, timeout_seconds: u64) -> ClientInfo {
    if is_stale(client.last_heartbeat, now, timeout_seconds) {
        ClientInfo { status: ClientStatus::Disconnected, ..client }
    } else {
        client
    }
}

/// Whether the nodes `after` are the nodes `before` after the sweep at the
/// time `now`: the same nodes, each as [`swept_node`] says.
pub open spec fn nodes_swept(
    before: Map<u128, NodeInfo>,
    after: Map<u128, NodeInfo>,
    now: i64,
    timeout_seconds: u64,
) -> bool {
    &&& after.dom() == before.dom()
    &&& forall|id: u128| #[trigger]
        before.contains_key(id) ==> after[id] == swept_node(before[id], now, timeout_seconds)
}

/// Whether the clients `after` are the clients `before` after the sweep at
/// the time `now`: the same clients, each as [`swept_client`] says.
pub open spec fn clients_swept(
    before: Map<u128, ClientInfo>,
    after: Map<u128, ClientInfo>,
    now: i64,
    timeout_seconds: u64,
) -> bool {
    &&& after.dom() == before.dom()
    &&& forall|id: u128| #[trigger]
        before.contains_key(id) ==> after[id] == swept_client(before[id], now, timeout_seconds)
}

fn stale(last_heartbeat: i64, now: i64, timeout_seconds: u64) -> (r: bool)
    ensures
        r == is_stale(last_heartbeat, now, timeout_seconds),
{
    let gap: i128 = now as i128 - last_heartbeat as i128;
    let limit: i128 = timeout_seconds as i128 * 1000;
    gap > limit
}

fn sweep_nodes(nodes: &mut HashMap<u128, NodeInfo>, now: i64, timeout_seconds: u64)
    ensures
        final(nodes)@.dom() == old(nodes)@.dom(),
        forall|id: u128| #[trigger]
            old(nodes)@.contains_key(id) ==> final(nodes)@[id] == swept_node(
                old(nodes)@[id],
                now,
                timeout_seconds,
            ),
{
    broadcast use vstd::std_specs::hash::group_hash_axioms;

    let keys = keys_of(nodes);
    let mut i: usize = 0;
    while i < keys.len()
        invariant
            i <= keys@.len(),
            keys@.no_duplicates(),
            keys@.to_set() == old(nodes)@.dom(),
            nodes@.dom() == old(nodes)@.dom(),
            forall|j: int|
                0 <= j < i ==> nodes@[#[trigger] keys@[j]] == swept_node(
                    old(nodes)@[keys@[j]],
                    now,
                    timeout_seconds,
                ),
            forall|j: int| i <= j < keys@.len() ==> nodes@[#[trigger] keys@[j]] == old(nodes)@[keys@[j]],
        decreases keys@.len() - i,
    {
        let id = keys[i];
        let ghost before = nodes@;
        proof {
            assert(keys@.to_set().contains(keys@[i as int]));
        }
        match nodes.remove(&id) {
            Some(mut node) => {
                if stale(node.last_heartbeat, now, timeout_seconds) {
                    node.status = NodeStatus::Offline;
                }
                nodes.insert(id, node);
            },
            None => {},
        }
        proof {
            assert(nodes@.dom() =~= old(nodes)@.dom());
            assert forall|j: int| 0 <= j < keys@.len() && j != i implies nodes@[#[trigger] keys@[j]]
                == before[keys@[j]] by {
                assert(keys@[j] != keys@[i as int]);
            }
        }
        i += 1;
    }
    proof {
        assert forall|id: u128| #[trigger] old(nodes)@.contains_key(id) implies nodes@[id]
            == swept_node(old(nodes)@[id], now, timeout_seconds) by {
            assert(keys@.to_set().contains(id));
            let j = choose|j: int| 0 <= j < keys@.len() && keys@[j] == id;
            assert(nodes@[keys@[j]] == swept_node(old(nodes)@[keys@[j]], now, timeout_seconds));
        }
    }
}

fn sweep_clients(clients: &mut HashMap<u128, ClientInfo>, now: i64, timeout_seconds: u64)
    ensures
        final(clients)@.dom() == old(clients)@.dom(),
        forall|id: u128| #[trigger]
            old(clients)@.contains_key(id) ==> final(clients)@[id] == swept_client(
                old(clients)@[id],
                now,
                timeout_seconds,
            ),
{
    broadcast use vstd::std_specs::hash::group_hash_axioms;

    let keys = keys_of(clients);
    let mut i: usize = 0;
    while i < keys.len()
        invariant
            i <= keys@.len(),
            keys@.no_duplicates(),
            keys@.to_set() == old(clients)@.dom(),
            clients@.dom() == old(clients)@.dom(),
            forall|j: int|
                0 <= j < i ==> clients@[#[trigger] keys@[j]] == swept_client(
                    old(clients)@[keys@[j]],
                    now,
                    timeout_seconds,
                ),
            forall|j: int|
                i <= j < keys@.len() ==> clients@[#[trigger] keys@[j]] == old(clients)@[keys@[j]],
        decreases keys@.len() - i,
    {
        let id = keys[i];
        let ghost before = clients@;
        proof {
            assert(keys@.to_set().contains(keys@[i as int]));
        }
        match clients.remove(&id) {
            Some(mut client) => {
                if stale(client.last_heartbeat, now, timeout_seconds) {
                    client.status = ClientStatus::Disconnected;
                }
                clients.insert(id, client);
            },
            None => {},
        }
        proof {
            assert(clients@.dom() =~= old(clients)@.dom());
            assert forall|j: int| 0 <= j < keys@.len() && j != i implies clients@[#[trigger] keys@[j]]
                == before[keys@[j]] by {
                assert(keys@[j] != keys@[i as int]);
            }
        }
        i += 1;
    }
    proof {
        assert forall|id: u128| #[trigger] old(clients)@.contains_key(id) implies clients@[id]
            == swept_client(old(clients)@[id], now, timeout_seconds) by {
            assert(keys@.to_set().contains(id));
            let j = choose|j: int| 0 <= j < keys@.len() && keys@[j] == id;
            assert(clients@[keys@[j]] == swept_client(
                old(clients)@[keys@[j]],
                now,
                timeout_seconds,
            ));
        }
    }
}

/// Whether a node is online or busy, as a number.
pub open spec fn node_is_active(nodes: Map<u128, NodeInfo>) -> spec_fn(u128) -> nat {
    |id: u128|
        if nodes[id].status.is_active() {
            1nat
        } else {
            0nat
        }
}

/// The chunks that a node has processed.
pub open spec fn node_processed(nodes: Map<u128, NodeInfo>) -> spec_fn(u128) -> nat {
    |id: u128| nodes[id].total_processed as nat
}

/// Whether a job is queued or in progress, as a number.
pub open spec fn job_is_active(jobs: Map<u128, JobInfo>) -> spec_fn(u128) -> nat {
    |id: u128|
        if jobs[id].status.is_active() {
            1nat
        } else {
            0nat
        }
}

/// Whether a chunk assignment has both its timestamps.
pub open spec fn is_timed(chunk: ChunkAssignment) -> bool {
    chunk.started_at is Some && chunk.completed_at is Some
}

/// Whether a chunk assignment has both its timestamps, as a number.
pub open spec fn chunk_is_timed(chunks: Map<u128, ChunkAssignment>) -> spec_fn(u128) -> nat {
    |id: u128|
        if is_timed(chunks[id]) {
            1nat
        } else {
            0nat
        }
}

/// The milliseconds from the start of a chunk assignment to its end, where
/// it has both and the end is not before the start; else zero.
pub open spec fn chunk_gain(chunks: Map<u128, ChunkAssignment>) -> spec_fn(u128) -> nat {
    |id: u128|
        if is_timed(chunks[id]) && chunks[id].completed_at->0 >= chunks[id].started_at->0 {
            (chunks[id].completed_at->0 - chunks[id].started_at->0) as nat
        } else {
            0nat
        }
}

/// The milliseconds from the end of a chunk assignment to its start, where
/// it has both and the end is before the start; else zero.
pub open spec fn chunk_loss(chunks: Map<u128, ChunkAssignment>) -> spec_fn(u128) -> nat {
    |id: u128|
        if is_timed(chunks[id]) && chunks[id].completed_at->0 < chunks[id].started_at->0 {
            (chunks[id].started_at->0 - chunks[id].completed_at->0) as nat
        } else {
            0nat
        }
}

/// Whether no chunk assignment ends before it began.
pub open spec fn timestamps_ordered(chunks: Map<u128, ChunkAssignment>) -> bool {
    forall|id: u128| #[trigger]
        chunks.contains_key(id) && is_timed(chunks[id]) ==> chunks[id].started_at->0
            <= chunks[id].completed_at->0
}

/// `n`, or the largest number of its type where `n` is larger.
pub open spec fn capped(n: nat) -> u64 {
    if n > u64::MAX {
        u64::MAX
    } else {
        n as u64
    }
}

/// Whether `stats` are the figures of a registry with these four maps.
///
/// The nodes, those of them that are online or busy, the clients, the jobs
/// that are queued or in progress, the chunks that the nodes have processed
/// between them, and the time that the chunk assignments with both
/// timestamps took.
pub open spec fn is_figures_of(
    stats: SystemStats,
    nodes: Map<u128, NodeInfo>,
    clients: Map<u128, ClientInfo>,
    jobs: Map<u128, JobInfo>,
    chunks: Map<u128, ChunkAssignment>,
) -> bool {
    &&& stats.total_nodes == nodes.dom().len()
    &&& stats.active_nodes == total_of(nodes.dom(), node_is_active(nodes))
    &&& stats.total_clients == clients.dom().len()
    &&& stats.active_jobs == total_of(jobs.dom(), job_is_active(jobs))
    &&& stats.total_chunks_processed == capped(total_of(nodes.dom(), node_processed(nodes)))
    &&& stats.timed_chunks == total_of(chunks.dom(), chunk_is_timed(chunks))
    &&& stats.chunk_time_gained_ms == total_of(chunks.dom(), chunk_gain(chunks))
    &&& stats.chunk_time_lost_ms == total_of(chunks.dom(), chunk_loss(chunks))
    &&& stats.load_base == if stats.total_nodes == 0 {
        1usize
    } else {
        stats.total_nodes
    }
}

/// Whether the figures `stats` are sound: no more nodes active than there
/// are, so that the load lies between nought and one.
pub open spec fn figures_are_sound(stats: SystemStats) -> bool {
    &&& stats.active_nodes <= stats.total_nodes
    &&& stats.active_nodes <= stats.load_base
    &&& stats.load_base >= 1
}

fn tally_nodes(nodes: &HashMap<u128, NodeInfo>) -> (r: (usize, usize, u64))
    ensures
        r.0 == nodes@.dom().len(),
        r.1 == total_of(nodes@.dom(), node_is_active(nodes@)),
        r.1 <= r.0,
        r.2 == capped(total_of(nodes@.dom(), node_processed(nodes@))),
{
    broadcast use vstd::std_specs::hash::group_hash_axioms;

    let keys = keys_of(nodes);
    let mut active: usize = 0;
    let mut processed: u64 = 0;
    let mut i: usize = 0;
    proof {
        lemma_seen_all(keys@);
        lemma_total_empty(node_is_active(nodes@));
        lemma_total_empty(node_processed(nodes@));
    }
    while i < keys.len()
        invariant
            i <= keys@.len(),
            keys@.no_duplicates(),
            keys@.to_set() == nodes@.dom(),
            active == total_of(seen(keys@, i as int), node_is_active(nodes@)),
            active <= i,
            processed == capped(total_of(seen(keys@, i as int), node_processed(nodes@))),
        decreases keys@.len() - i,
    {
        let id = keys[i];
        proof {
            assert(keys@.to_set().contains(keys@[i as int]));
            lemma_total_step(keys@, node_is_active(nodes@), i as int);
            lemma_total_step(keys@, node_processed(nodes@), i as int);
        }
        match nodes.get(&id) {
            Some(node) => {
                if node.status.active() {
                    active += 1;
                }
                processed = processed.saturating_add(node.total_processed);
            },
            None => {},
        }
        i += 1;
    }
    proof {
        lemma_seen_all(keys@);
    }
    (keys.len(), active, processed)
}

fn tally_jobs(jobs: &HashMap<u128, JobInfo>) -> (active: usize)
    ensures
        active == total_of(jobs@.dom(), job_is_active(jobs@)),
{
    broadcast use vstd::std_specs::hash::group_hash_axioms;

    let keys = keys_of(jobs);
    let mut active: usize = 0;
    let mut i: usize = 0;
    proof {
        lemma_seen_all(keys@);
        lemma_total_empty(job_is_active(jobs@));
    }
    while i < keys.len()
        invariant
            i <= keys@.len(),
            keys@.no_duplicates(),
            keys@.to_set() == jobs@.dom(),
            active == total_of(seen(keys@, i as int), job_is_active(jobs@)),
            active <= i,
        decreases keys@.len() - i,
    {
        let id = keys[i];
        proof {
            assert(keys@.to_set().contains(keys@[i as int]));
            lemma_total_step(keys@, job_is_active(jobs@), i as int);
        }
        match jobs.get(&id) {
            Some(job) => {
                if job.status.active() {
                    active += 1;
                }
            },
            None => {},
        }
        i += 1;
    }
    proof {
        lemma_seen_all(keys@);
    }
    active
}

fn tally_chunks(chunks: &HashMap<u128, ChunkAssignment>) -> (r: (usize, u128, u128))
    ensures
        r.0 == total_of(chunks@.dom(), chunk_is_timed(chunks@)),
        r.1 == total_of(chunks@.dom(), chunk_gain(chunks@)),
        r.2 == total_of(chunks@.dom(), chunk_loss(chunks@)),
        timestamps_ordered(chunks@) ==> r.2 == 0,
{
    broadcast use vstd::std_specs::hash::group_hash_axioms;

    let keys = keys_of(chunks);
    let mut timed: usize = 0;
    let mut gained: u128 = 0;
    let mut lost: u128 = 0;
    let mut i: usize = 0;
    proof {
        lemma_seen_all(keys@);
        lemma_total_empty(chunk_is_timed(chunks@));
        lemma_total_empty(chunk_gain(chunks@));
        lemma_total_empty(chunk_loss(chunks@));
    }
    while i < keys.len()
        invariant
            i <= keys@.len(),
            keys@.no_duplicates(),
            keys@.to_set() == chunks@.dom(),
            timed == total_of(seen(keys@, i as int), chunk_is_timed(chunks@)),
            timed <= i,
            gained == total_of(seen(keys@, i as int), chunk_gain(chunks@)),
            lost == total_of(seen(keys@, i as int), chunk_loss(chunks@)),
            gained <= i * 0xffff_ffff_ffff_ffff,
            lost <= i * 0xffff_ffff_ffff_ffff,
            timestamps_ordered(chunks@) ==> lost == 0,
        decreases keys@.len() - i,
    {
        let id = keys[i];
        proof {
            assert(keys@.to_set().contains(keys@[i as int]));
            lemma_total_step(keys@, chunk_is_timed(chunks@), i as int);
            lemma_total_step(keys@, chunk_gain(chunks@), i as int);
            lemma_total_step(keys@, chunk_loss(chunks@), i as int);
            assert((i + 1) * 0xffff_ffff_ffff_ffff == i * 0xffff_ffff_ffff_ffff
                + 0xffff_ffff_ffff_ffff) by (nonlinear_arith);
            assert(i * 0xffff_ffff_ffff_ffff + 0xffff_ffff_ffff_ffff <= u128::MAX) by (nonlinear_arith)
                requires
                    i <= 0xffff_ffff_ffff_ffff,
            {}
        }
        match chunks.get(&id) {
            Some(chunk) => {
                match (chunk.started_at, chunk.completed_at) {
                    (Some(started), Some(completed)) => {
                        timed += 1;
                        if completed >= started {
                            let span: i128 = completed as i128 - started as i128;
                            gained += span as u128;
                        } else {
                            let span: i128 = started as i128 - completed as i128;
                            lost += span as u128;
                        }
                    },
                    _ => {},
                }
            },
            None => {},
        }
        i += 1;
    }
    proof {
        lemma_seen_all(keys@);
    }
    (timed, gained, lost)
}

impl ConstellationState {
    /// Marks what has not been heard of for too long, as of the time `now`.
    ///
    /// Every node whose last heartbeat lies more than the node timeout back
    /// is set offline, every client whose last heartbeat lies more than the
    /// client timeout back is set disconnected. Nothing else changes, and
    /// nothing is removed. Afterwards every node is offline or was heard of
    /// within the timeout.
    pub fn cleanup_stale_entries_at(&mut self, now: i64)
        requires
            old(self).wf(),
        ensures
            final(self).wf(),
            nodes_swept(
                old(self).nodes@,
                final(self).nodes@,
                now,
                old(self).config.server.node_timeout_seconds,
            ),
            clients_swept(
                old(self).clients@,
                final(self).clients@,
                now,
                old(self).config.server.client_timeout_seconds,
            ),
            forall|id: u128| #[trigger]
                final(self).nodes@.contains_key(id) ==> final(self).nodes@[id].status
                    == NodeStatus::Offline || now - final(self).nodes@[id].last_heartbeat
                    <= final(self).config.server.node_timeout_seconds * 1000,
            final(self).jobs@ == old(self).jobs@,
            final(self).chunks@ == old(self).chunks@,
            final(self).config == old(self).config,
    {
        let node_timeout = self.config.server.node_timeout_seconds;
        let client_timeout = self.config.server.client_timeout_seconds;
        sweep_nodes(&mut self.nodes, now, node_timeout);
        sweep_clients(&mut self.clients, now, client_timeout);
        proof {
            assert forall|id: u128, k: int|
                self.nodes@.contains_key(id) && 0 <= k < self.nodes@[id].current_chunks@.len() implies {
                let chunk_id = #[trigger] self.nodes@[id].current_chunks@[k];
                self.chunks@.contains_key(chunk_id) && self.chunks@[chunk_id].node_id == id
            } by {
                assert(old(self).nodes@.contains_key(id));
                assert(self.nodes@[id].current_chunks == old(self).nodes@[id].current_chunks);
                let c = old(self).nodes@[id].current_chunks@[k];
            }
            assert forall|id: u128| #[trigger] self.nodes@.contains_key(id) implies self.nodes@[id].id
                == id by {
                assert(old(self).nodes@.contains_key(id));
            }
            assert forall|id: u128| #[trigger] self.clients@.contains_key(id) implies self.clients@[id].id
                == id by {
                assert(old(self).clients@.contains_key(id));
            }
            assert forall|id: u128| #[trigger] self.nodes@.contains_key(id) implies self.nodes@[id].status
                == NodeStatus::Offline || now - self.nodes@[id].last_heartbeat
                <= self.config.server.node_timeout_seconds * 1000 by {
                assert(old(self).nodes@.contains_key(id));
            }
        }
    }

    /// Marks what has not been heard of for too long, as of the time that
    /// the clock shows.
    pub fn cleanup_stale_entries(&mut self)
        requires
            old(self).wf(),
        ensures
            final(self).wf(),
            exists|now: i64|
                #[trigger] nodes_swept(
                    old(self).nodes@,
                    final(self).nodes@,
                    now,
                    old(self).config.server.node_timeout_seconds,
                ) && clients_swept(
                    old(self).clients@,
                    final(self).clients@,
                    now,
                    old(self).config.server.client_timeout_seconds,
                ),
            final(self).jobs@ == old(self).jobs@,
            final(self).chunks@ == old(self).chunks@,
    {
        let now = now_millis();
        self.cleanup_stale_entries_at(now);
        proof {
            assert(nodes_swept(
                old(self).nodes@,
                self.nodes@,
                now,
                old(self).config.server.node_timeout_seconds,
            ));
        }
    }

    /// The dashboard's figures, as [`is_figures_of`] defines them.
    ///
    /// Never more nodes are active than there are, so the load lies between
    /// nought and one; and where no assignment ends before it began, no time
    /// is lost, so the average chunk time is not negative.
    pub fn calculate_stats(&self) -> (stats: SystemStats)
        ensures
            is_figures_of(stats, self.nodes@, self.clients@, self.jobs@, self.chunks@),
            figures_are_sound(stats),
            timestamps_ordered(self.chunks@) ==> stats.chunk_time_lost_ms == 0,
            self.wf() ==> stats.chunk_time_lost_ms == 0,
    {
        proof {
            if self.wf() {
                assert forall|id: u128| #[trigger]
                    self.chunks@.contains_key(id) && is_timed(self.chunks@[id]) implies self.chunks@[id].started_at->0
                    <= self.chunks@[id].completed_at->0 by {
                    assert(began_before_end(self.chunks@[id]));
                }
            }
        }
        let (total_nodes, active_nodes, total_chunks_processed) = tally_nodes(&self.nodes);
        let total_clients = keys_of(&self.clients).len();
        let active_jobs = tally_jobs(&self.jobs);
        let (timed_chunks, gained, lost) = tally_chunks(&self.chunks);
        SystemStats {
            total_nodes,
            active_nodes,
            total_clients,
            active_jobs,
            total_chunks_processed,
            timed_chunks,
            chunk_time_gained_ms: gained,
            chunk_time_lost_ms: lost,
            load_base: if total_nodes == 0 {
                1
            } else {
                total_nodes
            },
        }
    }

    /// All that the dashboard shows, as of the time `now`: the four maps as
    /// they are, their figures, and the time.
    pub fn get_dashboard_data_at(&self, now: i64) -> (data: DashboardData)
        ensures
            data.nodes@ == self.nodes@,
            data.clients@ == self.clients@,
            data.jobs@ == self.jobs@,
            data.chunks@ == self.chunks@,
            data.last_updated == now,
            is_figures_of(data.stats, self.nodes@, self.clients@, self.jobs@, self.chunks@),
            figures_are_sound(data.stats),
            timestamps_ordered(self.chunks@) ==> data.stats.chunk_time_lost_ms == 0,
            self.wf() ==> data.stats.chunk_time_lost_ms == 0,
    {
        let stats = self.calculate_stats();
        DashboardData {
            nodes: self.nodes.clone(),
            clients: self.clients.clone(),
            jobs: self.jobs.clone(),
            chunks: self.chunks.clone(),
            stats,
            last_updated: now,
        }
    }

    /// All that the dashboard shows, as of the time that the clock shows.
    pub fn get_dashboard_data(&self) -> (data: DashboardData)
        ensures
            data.nodes@ == self.nodes@,
            data.clients@ == self.clients@,
            data.jobs@ == self.jobs@,
            data.chunks@ == self.chunks@,
            data.last_updated >= 0,
            is_figures_of(data.stats, self.nodes@, self.clients@, self.jobs@, self.chunks@),
            figures_are_sound(data.stats),
            timestamps_ordered(self.chunks@) ==> data.stats.chunk_time_lost_ms == 0,
            self.wf() ==> data.stats.chunk_time_lost_ms == 0,
    {
        self.get_dashboard_data_at(now_millis())
    }
}


/// A node that was heard of within the timeout is left alone by the sweep,
/// whatever it reported; in particular one that is heard of at the very
/// moment of the sweep.
pub proof fn lemma_a_fresh_node_is_not_swept(
    node: NodeInfo,
    status: NodeStatus,
    heard_at: i64,
    now: i64,
    timeout_seconds: u64,
)
    requires
        now - heard_at <= timeout_seconds * 1000,
    ensures
        swept_node(
            node_after_heartbeat(node, status, heard_at),
            now,
            timeout_seconds,
        ) == node_after_heartbeat(node, status, heard_at),
        !is_stale(now, now, timeout_seconds),
{
}

/// Sweeping twice at the same moment does no more than sweeping once, and
/// after a sweep every node is offline or was heard of within the timeout.
pub proof fn lemma_sweep_settles(node: NodeInfo, now: i64, timeout_seconds: u64)
    ensures
        swept_node(swept_node(node, now, timeout_seconds), now, timeout_seconds) == swept_node(
            node,
            now,
            timeout_seconds,
        ),
        swept_node(node, now, timeout_seconds).status == NodeStatus::Offline || now - swept_node(
            node,
            now,
            timeout_seconds,
        ).last_heartbeat <= timeout_seconds * 1000,
        swept_node(node, now, timeout_seconds).last_heartbeat == node.last_heartbeat,
{
}

/// A report keeps the timestamps of the whole registry in order, whatever
/// the report and whatever the clock shows. The average chunk time then
/// stays free of lost time.
pub proof fn lemma_report_keeps_registry_in_order(
    chunks: Map<u128, ChunkAssignment>,
    chunk_id: u128,
    status: ChunkStatus,
    percent: u8,
    now: i64,
)
    requires
        timestamps_ordered(chunks),
        chunks.contains_key(chunk_id),
    ensures
        timestamps_ordered(
            chunks.insert(chunk_id, updated_chunk(chunks[chunk_id], status, percent, now)),
        ),
{
    let after = chunks.insert(chunk_id, updated_chunk(chunks[chunk_id], status, percent, now));
    assert forall|id: u128| #[trigger] after.contains_key(id) && is_timed(after[id]) implies after[id].started_at->0
        <= after[id].completed_at->0 by {
        if id != chunk_id {
            assert(chunks.contains_key(id));
        }
    }
}

} // verus!
