//! What the HTTP interface decides: how a request is read, what it does to
//! the registry, and which answer it gets.

use vstd::prelude::*;
use vstd::string::*;
use crate::clock::now_millis;
use crate::constellation::models::{
    NodeInfo,
    ChunkUpdate,
    ClientStatus,
    DashboardData,
    HeartbeatRequest,
    JobUpdate,
    NodeStatus,
};
use crate::constellation::registry_keys::keys_of;
use crate::constellation::state::{
    client_after_heartbeat,
    client_registered,
    job_created,
    node_after_heartbeat,
    counters_add_up,
    node_registered,
    updated_chunk,
    updated_job,
    ConstellationState,
    JobUpdateOutcome,
};
use crate::constellation::stats::{figures_are_sound, is_figures_of, timestamps_ordered};
use crate::ids::{parse_uuid, uuid_from_text};
use crate::models::{ClientRegistration, NodeRegistration};
use crate::text::same_text;

verus! {

/// Why a request is refused.
#[derive(Debug, Clone, Copy, PartialEq, Eq, Structural)]
pub enum ApiError {
    /// The request names something that is not in the registry.
    NotFound,
    /// The request lacks a field, or a field does not hold what it should.
    BadRequest,
}

impl ApiError {
    /// The HTTP status that the refusal is answered with.
    pub fn status_code(&self) -> (code: u16)
        ensures
            code == match *self {
                ApiError::NotFound => 404u16,
                ApiError::BadRequest => 400u16,
            },
    {
        match self {
            ApiError::NotFound => 404,
            ApiError::BadRequest => 400,
        }
    }
}

/// Whether `status` is the status that a node's heartbeat of `text`
/// reports: `online`, `busy` and `offline` are themselves, and anything else
/// is an error that carries the text.
pub open spec fn is_node_status(status: NodeStatus, text: Seq<char>) -> bool {
    if text == "online"@ {
        status == NodeStatus::Online
    } else if text == "busy"@ {
        status == NodeStatus::Busy
    } else if text == "offline"@ {
        status == NodeStatus::Offline
    } else {
        status is Error && status->Error_0@ == text
    }
}

/// Whether the nodes `after` are the nodes `before` after a heartbeat of
/// the node `node_id` that reports `text` at the time `now`: that node has
/// the time and the status that the text stands for, and is otherwise as it
/// was, as is every other node.
pub open spec fn node_heard(
    before: Map<u128, NodeInfo>,
    after: Map<u128, NodeInfo>,
    node_id: u128,
    text: Seq<char>,
    now: i64,
) -> bool {
    exists|status: NodeStatus|
        is_node_status(status, text) && after == before.insert(
            node_id,
            #[trigger] node_after_heartbeat(before[node_id], status, now),
        )
}

/// The status that a client's heartbeat of `text` reports: `connected` and
/// `processing` are themselves, anything else counts as disconnected.
pub open spec fn client_status_of(text: Seq<char>) -> ClientStatus {
    if text == "connected"@ {
        ClientStatus::Connected
    } else if text == "processing"@ {
        ClientStatus::Processing
    } else {
        ClientStatus::Disconnected
    }
}

/// Reads the status out of a node's heartbeat.
pub fn node_status_from(text: &str) -> (status: NodeStatus)
    ensures
        is_node_status(status, text@),
{
    if same_text(text, "online") {
        NodeStatus::Online
    } else if same_text(text, "busy") {
        NodeStatus::Busy
    } else if same_text(text, "offline") {
        NodeStatus::Offline
    } else {
        NodeStatus::Error(String::from_str(text))
    }
}

/// Reads the status out of a client's heartbeat.
pub fn client_status_from(text: &str) -> (status: ClientStatus)
    ensures
        status == client_status_of(text@),
{
    if same_text(text, "connected") {
        ClientStatus::Connected
    } else if same_text(text, "processing") {
        ClientStatus::Processing
    } else {
        ClientStatus::Disconnected
    }
}

/// `POST /api/nodes`: registers the node and answers with its identifier.
pub fn register_node(state: &mut ConstellationState, registration: NodeRegistration) -> (id: u128)
    requires
        old(state).wf(),
    ensures
        final(state).wf(),
        !old(state).nodes@.contains_key(id),
        exists|now: i64|
            #[trigger] node_registered(
                old(state).nodes@,
                final(state).nodes@,
                id,
                registration,
                now,
            ),
        final(state).clients@ == old(state).clients@,
        final(state).jobs@ == old(state).jobs@,
        final(state).chunks@ == old(state).chunks@,
{
    state.register_node(registration)
}

/// `POST /api/clients`: registers the client and answers with its
/// identifier.
pub fn register_client(state: &mut ConstellationState, registration: ClientRegistration) -> (id:
    u128)
    requires
        old(state).wf(),
    ensures
        final(state).wf(),
        !old(state).clients@.contains_key(id),
        exists|now: i64|
            #[trigger] client_registered(
                old(state).clients@,
                final(state).clients@,
                id,
                registration,
                now,
            ),
        final(state).nodes@ == old(state).nodes@,
        final(state).jobs@ == old(state).jobs@,
        final(state).chunks@ == old(state).chunks@,
{
    state.register_client(registration)
}

/// `PUT /api/nodes/:id/heartbeat` at the time `now`: a node that is
/// registered is marked as heard of, with the status it reports; any other
/// identifier is not found, and nothing changes.
pub fn node_heartbeat_at(
    state: &mut ConstellationState,
    node_id: u128,
    heartbeat: &HeartbeatRequest,
    now: i64,
) -> (r: Result<(), ApiError>)
    requires
        old(state).wf(),
    ensures
        final(state).wf(),
        r is Ok <==> old(state).nodes@.contains_key(node_id),
        r is Err ==> r == Err::<(), ApiError>(ApiError::NotFound) && final(state).nodes@ == old(state).nodes@,
        r is Ok ==> node_heard(
            old(state).nodes@,
            final(state).nodes@,
            node_id,
            heartbeat.status@,
            now,
        ),
        final(state).clients@ == old(state).clients@,
        final(state).jobs@ == old(state).jobs@,
        final(state).chunks@ == old(state).chunks@,
{
    let status = node_status_from(heartbeat.status.as_str());
    if state.update_node_heartbeat_at(node_id, status, now) {
        proof {
            assert(state.nodes@ == old(state).nodes@.insert(
                node_id,
                node_after_heartbeat(old(state).nodes@[node_id], status, now),
            ));
        }
        Ok(())
    } else {
        Err(ApiError::NotFound)
    }
}

/// `PUT /api/clients/:id/heartbeat` at the time `now`: a client that is
/// registered is marked as heard of, with the status it reports; any other
/// identifier is not found, and nothing changes.
pub fn client_heartbeat_at(
    state: &mut ConstellationState,
    client_id: u128,
    heartbeat: &HeartbeatRequest,
    now: i64,
) -> (r: Result<(), ApiError>)
    requires
        old(state).wf(),
    ensures
        final(state).wf(),
        r is Ok <==> old(state).clients@.contains_key(client_id),
        r is Err ==> r == Err::<(), ApiError>(ApiError::NotFound) && final(state).clients@
            == old(state).clients@,
        r is Ok ==> final(state).clients@ == old(state).clients@.insert(
            client_id,
            client_after_heartbeat(
                old(state).clients@[client_id],
                client_status_of(heartbeat.status@),
                now,
            ),
        ),
        final(state).nodes@ == old(state).nodes@,
        final(state).jobs@ == old(state).jobs@,
        final(state).chunks@ == old(state).chunks@,
{
    let status = client_status_from(heartbeat.status.as_str());
    if state.update_client_heartbeat_at(client_id, status, now) {
        Ok(())
    } else {
        Err(ApiError::NotFound)
    }
}

/// `PUT /api/nodes/:id/heartbeat`, at the time that the clock shows.
pub fn node_heartbeat(state: &mut ConstellationState, node_id: u128, heartbeat: &HeartbeatRequest)
    -> (r: Result<(), ApiError>)
    requires
        old(state).wf(),
    ensures
        final(state).wf(),
        r is Ok <==> old(state).nodes@.contains_key(node_id),
        r is Err ==> r == Err::<(), ApiError>(ApiError::NotFound) && final(state).nodes@ == old(state).nodes@,
        r is Ok ==> exists|now: i64|
            #[trigger] node_heard(
                old(state).nodes@,
                final(state).nodes@,
                node_id,
                heartbeat.status@,
                now,
            ),
        final(state).clients@ == old(state).clients@,
        final(state).jobs@ == old(state).jobs@,
        final(state).chunks@ == old(state).chunks@,
{
    let now = now_millis();
    let r = node_heartbeat_at(state, node_id, heartbeat, now);
    proof {
        if r is Ok {
            assert(node_heard(old(state).nodes@, state.nodes@, node_id, heartbeat.status@, now));
        }
    }
    r
}

/// `PUT /api/clients/:id/heartbeat`, at the time that the clock shows.
pub fn client_heartbeat(
    state: &mut ConstellationState,
    client_id: u128,
    heartbeat: &HeartbeatRequest,
) -> (r: Result<(), ApiError>)
    requires
        old(state).wf(),
    ensures
        final(state).wf(),
        r is Ok <==> old(state).clients@.contains_key(client_id),
        r is Err ==> r == Err::<(), ApiError>(ApiError::NotFound) && final(state).clients@
            == old(state).clients@,
        r is Ok ==> exists|now: i64|
            final(state).clients@ == old(state).clients@.insert(
                client_id,
                #[trigger] client_after_heartbeat(
                    old(state).clients@[client_id],
                    client_status_of(heartbeat.status@),
                    now,
                ),
            ),
        final(state).nodes@ == old(state).nodes@,
        final(state).jobs@ == old(state).jobs@,
        final(state).chunks@ == old(state).chunks@,
{
    let now = now_millis();
    let r = client_heartbeat_at(state, client_id, heartbeat, now);
    proof {
        if r is Ok {
            assert(state.clients@ == old(state).clients@.insert(
                client_id,
                client_after_heartbeat(
                    old(state).clients@[client_id],
                    client_status_of(heartbeat.status@),
                    now,
                ),
            ));
        }
    }
    r
}

/// The body of `POST /api/jobs` as it was read: each field as far as it was
/// there and of the right type. In the list of encoder parameters an item
/// that is no string is kept as nothing.
#[derive(Debug, Clone, PartialEq, Eq)]
pub struct CreateJobRequest {
    pub client_id: Option<String>,
    pub video_file: Option<String>,
    pub encoder_parameters: Option<Vec<Option<String>>>,
}

/// A request to create a job that has been found in order.
#[derive(Debug, Clone, PartialEq, Eq)]
pub struct NewJob {
    pub client_id: u128,
    pub video_file: String,
    pub encoder_parameters: Vec<String>,
}

/// Whether `job` is what the request `request` asks for: its three fields
/// as they were read, the client's identifier as the `uuid` crate reads it,
/// and of the encoder parameters those that are strings.
pub open spec fn is_the_job_of(job: NewJob, request: CreateJobRequest) -> bool {
    &&& request.client_id is Some
    &&& uuid_from_text(request.client_id->0@) == Some(job.client_id)
    &&& request.video_file == Some(job.video_file)
    &&& request.encoder_parameters is Some
    &&& job.encoder_parameters@ == strings_among(request.encoder_parameters->0@)
}

/// The strings among `items`, in order.
pub open spec fn strings_among(items: Seq<Option<String>>) -> Seq<String>
    decreases items.len(),
{
    if items.len() == 0 {
        Seq::empty()
    } else {
        match items.last() {
            Some(s) => strings_among(items.drop_last()).push(s),
            None => strings_among(items.drop_last()),
        }
    }
}

fn keep_strings(items: Vec<Option<String>>) -> (out: Vec<String>)
    ensures
        out@ == strings_among(items@),
{
    let mut out: Vec<String> = Vec::new();
    let ghost all = items@;
    let n = items.len();
    let mut i: usize = 0;
    while i < n
        invariant
            i <= n,
            n == all.len(),
            items@ == all,
            out@ == strings_among(all.subrange(0, i as int)),
        decreases n - i,
    {
        proof {
            assert(all.subrange(0, i + 1).drop_last() =~= all.subrange(0, i as int));
            assert(all.subrange(0, i + 1).last() == all[i as int]);
        }
        match &items[i] {
            Some(s) => {
                out.push(s.clone());
            },
            None => {},
        }
        i += 1;
    }
    proof {
        assert(all.subrange(0, n as int) =~= all);
    }
    out
}

/// Checks a request to create a job whose client identifier has been read
/// already: it is in order when the identifier is one, the video file is
/// named, and the encoder parameters are a list. Items of that list that are
/// no strings are dropped.
pub fn validate_create_job(
    client_id: Option<u128>,
    video_file: Option<String>,
    encoder_parameters: Option<Vec<Option<String>>>,
) -> (r: Result<NewJob, ApiError>)
    ensures
        match (client_id, video_file, encoder_parameters) {
            (Some(id), Some(file), Some(items)) => r is Ok && r->Ok_0.client_id == id
                && r->Ok_0.video_file == file && r->Ok_0.encoder_parameters@ == strings_among(
                items@,
            ),
            _ => r == Err::<NewJob, ApiError>(ApiError::BadRequest),
        },
{
    match (client_id, video_file, encoder_parameters) {
        (Some(id), Some(file), Some(items)) => Ok(
            NewJob { client_id: id, video_file: file, encoder_parameters: keep_strings(items) },
        ),
        _ => Err(ApiError::BadRequest),
    }
}

/// Reads a request to create a job. The client's identifier must be a UUID
/// as the `uuid` crate reads it; beyond that, see [`validate_create_job`].
pub fn read_create_job(request: CreateJobRequest) -> (r: Result<NewJob, ApiError>)
    ensures
        match (
            match request.client_id {
                Some(text) => uuid_from_text(text@),
                None => None,
            },
            request.video_file,
            request.encoder_parameters,
        ) {
            (Some(id), Some(file), Some(items)) => r is Ok && r->Ok_0.client_id == id
                && r->Ok_0.video_file == file && r->Ok_0.encoder_parameters@ == strings_among(
                items@,
            ),
            _ => r == Err::<NewJob, ApiError>(ApiError::BadRequest),
        },
{
    let client_id = match &request.client_id {
        Some(text) => parse_uuid(text.as_str()),
        None => None,
    };
    validate_create_job(client_id, request.video_file, request.encoder_parameters)
}

/// `POST /api/jobs`: a request that is in order creates a job, whose
/// identifier is the answer; any other is a bad request and changes nothing.
pub fn create_job(state: &mut ConstellationState, request: CreateJobRequest) -> (r: Result<
    u128,
    ApiError,
>)
    requires
        old(state).wf(),
    ensures
        final(state).wf(),
        r is Err ==> r == Err::<u128, ApiError>(ApiError::BadRequest) && final(state).jobs@
            == old(state).jobs@ && final(state).clients@ == old(state).clients@,
        r is Ok ==> !old(state).jobs@.contains_key(r->Ok_0) && exists|now: i64, job: NewJob|
            is_the_job_of(job, request) && #[trigger] job_created(
                old(state).jobs@,
                final(state).jobs@,
                old(state).clients@,
                final(state).clients@,
                r->Ok_0,
                job.client_id,
                job.video_file,
                job.encoder_parameters,
                now,
            ),
        r is Ok <==> (match request.client_id {
            Some(text) => uuid_from_text(text@),
            None => None,
        }) is Some && request.video_file is Some && request.encoder_parameters is Some,
        final(state).nodes@ == old(state).nodes@,
        final(state).chunks@ == old(state).chunks@,
{
    match read_create_job(request) {
        Ok(job) => {
            proof {
                assert(is_the_job_of(job, request));
            }
            let id = state.create_job(job.client_id, job.video_file, job.encoder_parameters);
            proof {
                let now = choose|now: i64|
                    job_created(
                        old(state).jobs@,
                        state.jobs@,
                        old(state).clients@,
                        state.clients@,
                        id,
                        job.client_id,
                        job.video_file,
                        job.encoder_parameters,
                        now,
                    );
                assert(job_created(
                    old(state).jobs@,
                    state.jobs@,
                    old(state).clients@,
                    state.clients@,
                    id,
                    job.client_id,
                    job.video_file,
                    job.encoder_parameters,
                    now,
                ));
            }
            Ok(id)
        },
        Err(e) => Err(e),
    }
}

/// `PUT /api/jobs/:id`: a job that is there is updated, provided that its
/// counters then add up. A job that is not there is not found; counters
/// that would not add up are a bad request. Either refusal changes nothing.
pub fn update_job(state: &mut ConstellationState, job_id: u128, update: JobUpdate) -> (r: Result<
    (),
    ApiError,
>)
    requires
        old(state).wf(),
    ensures
        final(state).wf(),
        r == if !old(state).jobs@.contains_key(job_id) {
            Err::<(), ApiError>(ApiError::NotFound)
        } else if counters_add_up(updated_job(old(state).jobs@[job_id], update)) {
            Ok::<(), ApiError>(())
        } else {
            Err::<(), ApiError>(ApiError::BadRequest)
        },
        r is Ok ==> final(state).jobs@ == old(state).jobs@.insert(
            job_id,
            updated_job(old(state).jobs@[job_id], update),
        ),
        r is Err ==> final(state).jobs@ == old(state).jobs@,
        final(state).nodes@ == old(state).nodes@,
        final(state).clients@ == old(state).clients@,
        final(state).chunks@ == old(state).chunks@,
{
    match state.update_job(job_id, update) {
        JobUpdateOutcome::Updated => Ok(()),
        JobUpdateOutcome::NotFound => Err(ApiError::NotFound),
        JobUpdateOutcome::Rejected => Err(ApiError::BadRequest),
    }
}

/// `PUT /api/chunks/:id` at the time `now`: a chunk assignment that is there
/// is updated; any other identifier is not found, and nothing changes.
pub fn update_chunk_at(
    state: &mut ConstellationState,
    chunk_id: u128,
    update: ChunkUpdate,
    now: i64,
) -> (r: Result<(), ApiError>)
    requires
        old(state).wf(),
    ensures
        final(state).wf(),
        r is Ok <==> old(state).chunks@.contains_key(chunk_id),
        r is Err ==> r == Err::<(), ApiError>(ApiError::NotFound) && final(state).chunks@
            == old(state).chunks@,
        r is Ok ==> final(state).chunks@ == old(state).chunks@.insert(
            chunk_id,
            updated_chunk(
                old(state).chunks@[chunk_id],
                update.status,
                update.progress_percent,
                now,
            ),
        ),
        final(state).nodes@ == old(state).nodes@,
        final(state).clients@ == old(state).clients@,
        final(state).jobs@ == old(state).jobs@,
{
    if state.update_chunk_status_at(chunk_id, update, now) {
        Ok(())
    } else {
        Err(ApiError::NotFound)
    }
}

/// `PUT /api/chunks/:id`, at the time that the clock shows.
pub fn update_chunk(state: &mut ConstellationState, chunk_id: u128, update: ChunkUpdate) -> (r:
    Result<(), ApiError>)
    requires
        old(state).wf(),
    ensures
        final(state).wf(),
        r is Ok <==> old(state).chunks@.contains_key(chunk_id),
        r is Err ==> r == Err::<(), ApiError>(ApiError::NotFound) && final(state).chunks@
            == old(state).chunks@,
        r is Ok ==> exists|now: i64|
            final(state).chunks@ == old(state).chunks@.insert(
                chunk_id,
                #[trigger] updated_chunk(
                    old(state).chunks@[chunk_id],
                    update.status,
                    update.progress_percent,
                    now,
                ),
            ),
        final(state).nodes@ == old(state).nodes@,
        final(state).clients@ == old(state).clients@,
        final(state).jobs@ == old(state).jobs@,
{
    let now = now_millis();
    let r = update_chunk_at(state, chunk_id, update, now);
    proof {
        if r is Ok {
            assert(state.chunks@ == old(state).chunks@.insert(
                chunk_id,
                updated_chunk(
                    old(state).chunks@[chunk_id],
                    update.status,
                    update.progress_percent,
                    now,
                ),
            ));
        }
    }
    r
}

/// `GET /api/dashboard/data`.
pub fn get_dashboard_data(state: &ConstellationState) -> (data: DashboardData)
    ensures
        data.nodes@ == state.nodes@,
        data.clients@ == state.clients@,
        data.jobs@ == state.jobs@,
        data.chunks@ == state.chunks@,
        data.last_updated >= 0,
        is_figures_of(data.stats, state.nodes@, state.clients@, state.jobs@, state.chunks@),
        figures_are_sound(data.stats),
        timestamps_ordered(state.chunks@) ==> data.stats.chunk_time_lost_ms == 0,
        state.wf() ==> data.stats.chunk_time_lost_ms == 0,
{
    state.get_dashboard_data()
}

/// What `GET /api/status` answers.
#[derive(Debug, Clone, PartialEq, Eq)]
pub struct StatusReport {
    pub service: String,
    pub status: String,
    pub nodes: usize,
    pub clients: usize,
    pub jobs: usize,
    pub chunks: usize,
    pub uptime: String,
}

/// `GET /api/status`: how many of each kind the registry holds.
pub fn get_status(state: &ConstellationState) -> (report: StatusReport)
    ensures
        report.service@ == "constellation"@,
        report.status@ == "running"@,
        report.uptime@ == "N/A"@,
        report.nodes == state.nodes@.dom().len(),
        report.clients == state.clients@.dom().len(),
        report.jobs == state.jobs@.dom().len(),
        report.chunks == state.chunks@.dom().len(),
{
    StatusReport {
        service: String::from_str("constellation"),
        status: String::from_str("running"),
        nodes: keys_of(&state.nodes).len(),
        clients: keys_of(&state.clients).len(),
        jobs: keys_of(&state.jobs).len(),
        chunks: keys_of(&state.chunks).len(),
        uptime: String::from_str("N/A"),
    }
}

/// What `GET /api/health` answers.
#[derive(Debug, Clone, PartialEq, Eq)]
pub struct HealthReport {
    pub status: String,
    pub service: String,
    pub version: String,
}

/// `GET /api/health`.
pub fn health_check() -> (report: HealthReport)
    ensures
        report.status@ == "healthy"@,
        report.service@ == "ferris-swarm-constellation"@,
        report.version@ == "1.0"@,
{
    HealthReport {
        status: String::from_str("healthy"),
        service: String::from_str("ferris-swarm-constellation"),
        version: String::from_str("1.0"),
    }
}

} // verus!
