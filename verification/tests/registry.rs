use ferris_swarm::constellation::auto_register::{
    pass_over_bad_addresses, AutoRegister, NodeConfig,
};
use ferris_swarm::constellation::config::{
    start_constellation, ConstellationConfig, StartOptions, StartPlan,
};
use ferris_swarm::constellation::handlers::{
    client_heartbeat_at, client_status_from, create_job, get_status, health_check,
    node_heartbeat, node_heartbeat_at, node_status_from, read_create_job, register_node,
    update_chunk_at, update_job, validate_create_job, ApiError, CreateJobRequest,
};
use ferris_swarm::constellation::models::{
    ChunkStatus, ChunkUpdate, ClientStatus, HeartbeatRequest, JobStatus, JobUpdate, NodeStatus,
};
use ferris_swarm::constellation::registry_keys::free_id;
use ferris_swarm::constellation::state::{ConstellationState, JobUpdateOutcome};
use ferris_swarm::constellation::websocket::{
    handle_websocket_message, websocket_handler, push_interval_ms, push_type, WsCommand, WsFrame, WsStep,
};
use ferris_swarm::models::{ClientRegistration, NodeCapabilities, NodeRegistration};

fn capabilities() -> NodeCapabilities {
    NodeCapabilities {
        max_concurrent_chunks: 2,
        supported_encoders: vec!["h264".to_string()],
        cpu_cores: 4,
        memory_gb: 8,
    }
}

fn registration(address: &str) -> NodeRegistration {
    NodeRegistration { address: address.to_string(), capabilities: capabilities() }
}

fn registry() -> ConstellationState {
    ConstellationState::new(ConstellationConfig::default())
}

fn report(status: ChunkStatus, percent: u8) -> ChunkUpdate {
    ChunkUpdate { chunk_id: 0, status, progress_percent: percent, error_message: None }
}

#[test]
fn a_node_registers() {
    let mut state = registry();
    state.register_node_at(7, registration("10.0.0.1:50051"), 1_000);
    let node = state.nodes.get(&7).unwrap();
    assert_eq!(node.id, 7);
    assert_eq!(node.address, "10.0.0.1:50051");
    assert_eq!(node.status, NodeStatus::Online);
    assert_eq!(node.last_heartbeat, 1_000);
    assert_eq!(node.capabilities, capabilities());
    assert!(node.current_chunks.is_empty());
    assert_eq!(node.total_processed, 0);
    assert_eq!(node.total_failed, 0);
}

#[test]
fn registering_twice_gives_two_nodes() {
    let mut state = registry();
    let first = register_node(&mut state, registration("10.0.0.1:50051"));
    let second = register_node(&mut state, registration("10.0.0.1:50051"));
    assert_ne!(first, second);
    let data = state.get_dashboard_data();
    assert_eq!(data.nodes.len(), 2);
    assert_eq!(data.nodes.get(&first).unwrap().address, "10.0.0.1:50051");
    assert_eq!(data.nodes.get(&second).unwrap().address, "10.0.0.1:50051");
    assert_eq!(data.stats.total_nodes, 2);
    assert!(data.last_updated >= 0);
    // A random UUID: version four, variant of RFC 4122.
    for id in [first, second] {
        assert_eq!((id >> 76) & 0xf, 4);
        assert_eq!((id >> 62) & 0x3, 2);
    }
}

#[test]
fn heartbeats() {
    let mut state = registry();
    state.register_node_at(1, registration("10.0.0.1:50051"), 1_000);
    state.register_client_at(2, ClientRegistration { address: "10.0.0.9:4000".to_string() }, 1_000);
    assert!(state.update_node_heartbeat_at(1, NodeStatus::Busy, 2_000));
    assert_eq!(state.nodes.get(&1).unwrap().status, NodeStatus::Busy);
    assert_eq!(state.nodes.get(&1).unwrap().last_heartbeat, 2_000);
    assert!(!state.update_node_heartbeat_at(99, NodeStatus::Busy, 2_000));
    assert_eq!(state.nodes.len(), 1);
    assert!(state.update_client_heartbeat_at(2, ClientStatus::Processing, 3_000));
    assert_eq!(state.clients.get(&2).unwrap().status, ClientStatus::Processing);
    assert_eq!(state.clients.get(&2).unwrap().last_heartbeat, 3_000);
    assert!(!state.update_client_heartbeat_at(1, ClientStatus::Processing, 3_000));

    let beat = HeartbeatRequest { id: 1, status: "overheated".to_string() };
    assert_eq!(node_heartbeat_at(&mut state, 1, &beat, 4_000), Ok(()));
    assert_eq!(
        state.nodes.get(&1).unwrap().status,
        NodeStatus::Error("overheated".to_string())
    );
    assert_eq!(node_heartbeat_at(&mut state, 5, &beat, 4_000), Err(ApiError::NotFound));
    assert_eq!(node_heartbeat(&mut state, 5, &beat), Err(ApiError::NotFound));
    assert_eq!(ApiError::NotFound.status_code(), 404);
    assert_eq!(ApiError::BadRequest.status_code(), 400);
    let beat = HeartbeatRequest { id: 2, status: "whatever".to_string() };
    assert_eq!(client_heartbeat_at(&mut state, 2, &beat, 5_000), Ok(()));
    assert_eq!(state.clients.get(&2).unwrap().status, ClientStatus::Disconnected);
    assert_eq!(client_heartbeat_at(&mut state, 3, &beat, 5_000), Err(ApiError::NotFound));
}

#[test]
fn statuses_as_text() {
    assert_eq!(node_status_from("online"), NodeStatus::Online);
    assert_eq!(node_status_from("busy"), NodeStatus::Busy);
    assert_eq!(node_status_from("offline"), NodeStatus::Offline);
    assert_eq!(node_status_from("Online"), NodeStatus::Error("Online".to_string()));
    assert_eq!(client_status_from("connected"), ClientStatus::Connected);
    assert_eq!(client_status_from("processing"), ClientStatus::Processing);
    assert_eq!(client_status_from("disconnected"), ClientStatus::Disconnected);
    assert_eq!(client_status_from(""), ClientStatus::Disconnected);
}

#[test]
fn heartbeat_timeout() {
    let mut config = ConstellationConfig::default();
    config.server.node_timeout_seconds = 2;
    config.server.client_timeout_seconds = 2;
    let mut state = ConstellationState::new(config);
    state.register_node_at(1, registration("10.0.0.1:50051"), 0);
    state.register_node_at(2, registration("10.0.0.2:50051"), 0);
    state.register_client_at(3, ClientRegistration { address: "c:1".to_string() }, 0);
    assert!(state.update_node_heartbeat_at(1, NodeStatus::Online, 500));
    assert!(state.update_node_heartbeat_at(2, NodeStatus::Busy, 1_500));

    state.cleanup_stale_entries_at(2_500);
    assert_eq!(state.nodes.get(&1).unwrap().status, NodeStatus::Online);
    state.cleanup_stale_entries_at(3_000);
    let data = state.get_dashboard_data_at(3_000);
    assert_eq!(data.nodes.len(), 2);
    assert_eq!(data.nodes.get(&1).unwrap().status, NodeStatus::Offline);
    assert_eq!(data.nodes.get(&1).unwrap().last_heartbeat, 500);
    assert_eq!(data.nodes.get(&2).unwrap().status, NodeStatus::Busy);
    assert_eq!(data.clients.get(&3).unwrap().status, ClientStatus::Disconnected);
    assert_eq!(data.stats.total_nodes, 2);
    assert_eq!(data.stats.active_nodes, 1);
    assert_eq!(data.stats.load_base, 2);
    assert_eq!(data.last_updated, 3_000);

    // Exactly at the limit a node is not stale yet; a clock that has run
    // backwards makes nothing stale.
    state.cleanup_stale_entries_at(3_500);
    assert_eq!(state.nodes.get(&2).unwrap().status, NodeStatus::Busy);
    state.cleanup_stale_entries_at(-10_000);
    assert_eq!(state.nodes.get(&2).unwrap().status, NodeStatus::Busy);
    state.cleanup_stale_entries_at(3_501);
    assert_eq!(state.nodes.get(&2).unwrap().status, NodeStatus::Offline);
    assert_eq!(state.nodes.len(), 2);
    state.cleanup_stale_entries();
}

#[test]
fn jobs_and_chunks() {
    let mut state = registry();
    state.register_node_at(1, registration("10.0.0.1:50051"), 0);
    state.register_client_at(2, ClientRegistration { address: "c:1".to_string() }, 0);
    state.create_job_at(2, "film.mkv".to_string(), vec!["-y".to_string()], 10, 100);
    let job = state.jobs.get(&10).unwrap();
    assert_eq!(job.client_id, 2);
    assert_eq!(job.video_file, "film.mkv");
    assert_eq!(job.status, JobStatus::Queued);
    assert_eq!((job.total_chunks, job.completed_chunks, job.failed_chunks), (0, 0, 0));
    assert_eq!(job.started_at, 100);
    assert_eq!(job.estimated_completion, None);
    assert_eq!(state.clients.get(&2).unwrap().active_jobs, vec![10]);
    // A job of a client that is not registered is recorded all the same.
    state.create_job_at(77, "other.mkv".to_string(), vec![], 11, 100);
    assert!(state.jobs.contains_key(&11));

    assert_eq!(state.assign_chunk_at(10, 0, 1, 20, 200), Some(20));
    assert_eq!(state.assign_chunk_at(10, 1, 1, 21, 200), Some(21));
    assert_eq!(state.nodes.get(&1).unwrap().current_chunks, vec![20, 21]);
    let chunk = state.chunks.get(&20).unwrap();
    assert_eq!((chunk.job_id, chunk.chunk_index, chunk.node_id), (10, 0, 1));
    assert_eq!(chunk.status, ChunkStatus::Assigned);
    assert_eq!((chunk.assigned_at, chunk.started_at, chunk.completed_at), (200, None, None));
    assert_eq!(chunk.progress_percent, 0);
    assert_eq!(state.assign_chunk_at(99, 0, 1, 22, 200), None);
    assert_eq!(state.assign_chunk_at(10, 0, 99, 22, 200), None);
    assert_eq!(state.assign_chunk_at(10, 0, 1, 20, 200), None);
    assert_eq!(state.chunks.len(), 2);
    assert_eq!(state.nodes.get(&1).unwrap().current_chunks, vec![20, 21]);
    let assigned = state.assign_chunk(10, 2, 1).unwrap();
    assert_eq!(state.chunks.get(&assigned).unwrap().chunk_index, 2);
}

#[test]
fn chunk_reports_stamp_each_time_once() {
    let mut state = registry();
    state.register_node_at(1, registration("10.0.0.1:50051"), 0);
    state.create_job_at(2, "film.mkv".to_string(), vec![], 10, 0);
    state.assign_chunk_at(10, 0, 1, 20, 100);

    assert!(state.update_chunk_status_at(20, report(ChunkStatus::InProgress, 10), 1_000));
    assert!(state.update_chunk_status_at(20, report(ChunkStatus::InProgress, 250), 2_000));
    let chunk = state.chunks.get(&20).unwrap();
    assert_eq!(chunk.started_at, Some(1_000));
    assert_eq!(chunk.completed_at, None);
    assert_eq!(chunk.progress_percent, 100);

    assert!(state.update_chunk_status_at(20, report(ChunkStatus::Completed, 100), 5_000));
    let first = state.chunks.get(&20).unwrap().clone();
    assert_eq!(first.completed_at, Some(5_000));
    assert!(first.started_at.unwrap() <= first.completed_at.unwrap());
    assert!(state.update_chunk_status_at(20, report(ChunkStatus::Completed, 100), 9_000));
    assert_eq!(state.chunks.get(&20).unwrap(), &first);
    assert!(state.update_chunk_status_at(
        20,
        report(ChunkStatus::Failed("late".to_string()), 100),
        9_500
    ));
    assert_eq!(state.chunks.get(&20).unwrap().completed_at, Some(5_000));
    assert_eq!(state.chunks.get(&20).unwrap().started_at, Some(1_000));

    assert!(!state.update_chunk_status_at(21, report(ChunkStatus::Completed, 100), 9_000));
    assert_eq!(update_chunk_at(&mut state, 21, report(ChunkStatus::Cancelled, 0), 1), Err(ApiError::NotFound));
    assert_eq!(update_chunk_at(&mut state, 20, report(ChunkStatus::Cancelled, 0), 1), Ok(()));
}

#[test]
fn job_reports() {
    let mut state = registry();
    state.create_job_at(2, "film.mkv".to_string(), vec![], 10, 0);
    let update = |total, completed, failed| JobUpdate {
        job_id: 10,
        status: JobStatus::InProgress,
        total_chunks: total,
        completed_chunks: completed,
        failed_chunks: failed,
    };
    assert_eq!(state.update_job(10, update(Some(4), Some(1), None)), JobUpdateOutcome::Updated);
    let job = state.jobs.get(&10).unwrap();
    assert_eq!(job.status, JobStatus::InProgress);
    assert_eq!((job.total_chunks, job.completed_chunks, job.failed_chunks), (4, 1, 0));
    assert_eq!(state.update_job(10, update(None, Some(3), Some(2))), JobUpdateOutcome::Rejected);
    let job = state.jobs.get(&10).unwrap();
    assert_eq!((job.total_chunks, job.completed_chunks, job.failed_chunks), (4, 1, 0));
    assert_eq!(state.update_job(11, update(None, None, None)), JobUpdateOutcome::NotFound);
    assert_eq!(update_job(&mut state, 10, update(None, Some(3), Some(1))), Ok(()));
    assert_eq!(update_job(&mut state, 10, update(Some(3), None, None)), Err(ApiError::BadRequest));
    assert_eq!(update_job(&mut state, 12, update(None, None, None)), Err(ApiError::NotFound));
    assert_eq!(
        update_job(&mut state, 10, update(Some(u32::MAX), Some(u32::MAX), Some(1))),
        Err(ApiError::BadRequest)
    );
}

#[test]
fn dashboard_figures() {
    let mut state = registry();
    let stats = state.calculate_stats();
    assert_eq!(stats.total_nodes, 0);
    assert_eq!(stats.active_nodes, 0);
    assert_eq!(stats.load_base, 1);
    assert_eq!(stats.timed_chunks, 0);

    for id in 1..=4u128 {
        state.register_node_at(id, registration("n:1"), 0);
    }
    state.update_node_heartbeat_at(2, NodeStatus::Busy, 0);
    state.update_node_heartbeat_at(3, NodeStatus::Offline, 0);
    state.update_node_heartbeat_at(4, NodeStatus::Error("x".to_string()), 0);
    state.nodes.get_mut(&1).unwrap().total_processed = 5;
    state.nodes.get_mut(&2).unwrap().total_processed = 7;
    state.register_client_at(9, ClientRegistration { address: "c:1".to_string() }, 0);
    state.create_job_at(9, "a.mkv".to_string(), vec![], 10, 0);
    state.create_job_at(9, "b.mkv".to_string(), vec![], 11, 0);
    state.create_job_at(9, "c.mkv".to_string(), vec![], 12, 0);
    state.update_job(
        11,
        JobUpdate {
            job_id: 11,
            status: JobStatus::InProgress,
            total_chunks: None,
            completed_chunks: None,
            failed_chunks: None,
        },
    );
    state.update_job(
        12,
        JobUpdate {
            job_id: 12,
            status: JobStatus::Completed,
            total_chunks: None,
            completed_chunks: None,
            failed_chunks: None,
        },
    );
    for chunk in 20..=23u128 {
        state.assign_chunk_at(10, chunk as u32, 1, chunk, 0);
    }
    state.update_chunk_status_at(20, report(ChunkStatus::InProgress, 1), 1_000);
    state.update_chunk_status_at(20, report(ChunkStatus::Completed, 100), 4_000);
    state.update_chunk_status_at(21, report(ChunkStatus::InProgress, 1), 2_000);
    state.update_chunk_status_at(21, report(ChunkStatus::Failed("x".to_string()), 1), 3_500);
    state.update_chunk_status_at(22, report(ChunkStatus::InProgress, 1), 2_000);
    state.update_chunk_status_at(23, report(ChunkStatus::Completed, 100), 2_000);

    let stats = state.calculate_stats();
    assert_eq!(stats.total_nodes, 4);
    assert_eq!(stats.active_nodes, 2);
    assert_eq!(stats.load_base, 4);
    assert_eq!(stats.total_clients, 1);
    assert_eq!(stats.active_jobs, 2);
    assert_eq!(stats.total_chunks_processed, 12);
    assert_eq!(stats.timed_chunks, 2);
    assert_eq!(stats.chunk_time_gained_ms, 4_500);
    assert_eq!(stats.chunk_time_lost_ms, 0);
    assert!(stats.active_nodes <= stats.total_nodes);
    assert!(stats.active_nodes <= stats.load_base && stats.load_base >= 1);
    assert!(stats.chunk_time_gained_ms >= stats.chunk_time_lost_ms);

    // A clock that ran backwards does not make an assignment end before
    // it began: the end is stamped with the start.
    state.update_chunk_status_at(22, report(ChunkStatus::Completed, 100), 500);
    assert_eq!(state.chunks.get(&22).unwrap().started_at, Some(2_000));
    assert_eq!(state.chunks.get(&22).unwrap().completed_at, Some(2_000));
    let stats = state.calculate_stats();
    assert_eq!(stats.timed_chunks, 3);
    assert_eq!(stats.chunk_time_gained_ms, 4_500);
    assert_eq!(stats.chunk_time_lost_ms, 0);

    state.nodes.get_mut(&1).unwrap().total_processed = u64::MAX;
    assert_eq!(state.calculate_stats().total_chunks_processed, u64::MAX);

    let status = get_status(&state);
    assert_eq!(status.service, "constellation");
    assert_eq!(status.status, "running");
    assert_eq!(status.uptime, "N/A");
    assert_eq!((status.nodes, status.clients, status.jobs, status.chunks), (4, 1, 3, 4));
    let health = health_check();
    assert_eq!(health.status, "healthy");
    assert_eq!(health.service, "ferris-swarm-constellation");
    assert_eq!(health.version, "1.0");
}

#[test]
fn job_requests_are_read() {
    let id = "a1a2a3a4-b1b2-c1c2-d1d2-d3d4d5d6d7d8";
    let request = |client: Option<&str>, file: Option<&str>, params: Option<Vec<Option<String>>>| {
        CreateJobRequest {
            client_id: client.map(|s| s.to_string()),
            video_file: file.map(|s| s.to_string()),
            encoder_parameters: params,
        }
    };
    let params = Some(vec![Some("-c:v".to_string()), None, Some("libx264".to_string())]);
    let job = read_create_job(request(Some(id), Some("film.mkv"), params.clone())).unwrap();
    assert_eq!(job.client_id, 0xa1a2a3a4b1b2c1c2d1d2d3d4d5d6d7d8);
    assert_eq!(job.video_file, "film.mkv");
    assert_eq!(job.encoder_parameters, vec!["-c:v".to_string(), "libx264".to_string()]);
    for bad in [
        request(None, Some("film.mkv"), params.clone()),
        request(Some("not-a-uuid"), Some("film.mkv"), params.clone()),
        request(Some(id), None, params.clone()),
        request(Some(id), Some("film.mkv"), None),
    ] {
        assert_eq!(read_create_job(bad), Err(ApiError::BadRequest));
    }
    assert_eq!(validate_create_job(None, None, None), Err(ApiError::BadRequest));

    let mut state = registry();
    let created = create_job(&mut state, request(Some(id), Some("film.mkv"), params)).unwrap();
    assert_eq!(state.jobs.get(&created).unwrap().video_file, "film.mkv");
    assert_eq!(
        create_job(&mut state, request(Some("x"), Some("film.mkv"), Some(vec![]))),
        Err(ApiError::BadRequest)
    );
    assert_eq!(state.jobs.len(), 1);
}

#[test]
fn manifest_nodes_are_registered_once() {
    let mut state = registry();
    state.register_node_at(1, registration("192.168.1.102:8080"), 0);
    let mut memo = AutoRegister::new();
    let mut config = AutoRegister::generate_sample_config();
    assert_eq!(config.nodes.len(), 3);
    assert_eq!(config.nodes[0].name, "workstation-01");
    assert_eq!(config.nodes[0].address, "192.168.1.101:8080");
    assert_eq!(config.nodes[0].capabilities.supported_encoders, vec!["av1", "h264", "hevc"]);
    assert_eq!(config.nodes[1].capabilities.supported_encoders, vec!["h264", "hevc"]);
    assert_eq!(
        config.nodes[2].tags,
        vec![
            ("environment".to_string(), "production".to_string()),
            ("gpu".to_string(), "nvidia-rtx-4090".to_string()),
            ("priority".to_string(), "high".to_string()),
        ]
    );
    assert!(!config.nodes[2].enabled);
    assert_eq!(config.constellation.url, "http://localhost:3030");
    assert_eq!(config.constellation.registration_interval, 60);

    assert_eq!(memo.process_config(&mut state, &config), 1);
    assert_eq!(state.nodes.len(), 2);
    assert_eq!(memo.registered_nodes.len(), 1);
    assert_eq!(memo.registered_nodes[0].0, "192.168.1.101:8080");
    let id = memo.registered_nodes[0].1;
    assert_eq!(state.nodes.get(&id).unwrap().capabilities.cpu_cores, 16);
    assert_eq!(state.nodes.get(&1).unwrap().capabilities, capabilities());
    assert!(memo.is_node_registered(&state, "192.168.1.101:8080"));
    assert!(memo.is_node_registered(&state, "192.168.1.102:8080"));
    assert!(!memo.is_node_registered(&state, "192.168.1.103:8080"));

    assert_eq!(memo.process_config(&mut state, &config), 0);
    assert_eq!(state.nodes.len(), 2);

    config.constellation.auto_register = false;
    config.nodes[2].enabled = true;
    assert_eq!(memo.process_config(&mut state, &config), 0);
    config.constellation.auto_register = true;
    assert_eq!(memo.process_config(&mut state, &config), 1);
    assert_eq!(state.nodes.len(), 3);

    let entry: NodeConfig = config.nodes[0].clone();
    assert!(!memo.register_node_from_config(&mut state, &entry, 5, 0));
    let mut fresh = entry.clone();
    fresh.address = "192.168.1.200:8080".to_string();
    assert!(!memo.register_node_from_config(&mut state, &fresh, 1, 0));
    assert!(memo.register_node_from_config(&mut state, &fresh, 5, 0));
    assert_eq!(state.nodes.get(&5).unwrap().address, "192.168.1.200:8080");
}

#[test]
fn websocket_frames_and_messages() {
    assert_eq!(websocket_handler(WsFrame::Text("{}".to_string())), WsStep::Read("{}".to_string()));
    assert_eq!(websocket_handler(WsFrame::Close), WsStep::End);
    assert_eq!(websocket_handler(WsFrame::Failed), WsStep::End);
    assert_eq!(websocket_handler(WsFrame::Other), WsStep::Skip);
    assert_eq!(handle_websocket_message(Some("ping"), None), WsCommand::Ping);
    assert_eq!(handle_websocket_message(Some("request_update"), None), WsCommand::RequestUpdate);
    assert_eq!(
        handle_websocket_message(Some("subscribe"), Some("nodes".to_string())),
        WsCommand::Subscribe(Some("nodes".to_string()))
    );
    assert_eq!(handle_websocket_message(Some("subscribe"), None), WsCommand::Subscribe(None));
    assert_eq!(handle_websocket_message(Some("dance"), None), WsCommand::Unknown);
    assert_eq!(handle_websocket_message(None, Some("nodes".to_string())), WsCommand::Unknown);
    assert_eq!(push_type(), "dashboard_update");
    let mut config = ConstellationConfig::default();
    assert_eq!(push_interval_ms(&config), 1000);
    config.dashboard.refresh_interval_ms = 200;
    assert_eq!(push_interval_ms(&config), 200);
}

#[test]
fn default_configuration() {
    let config = ConstellationConfig::default();
    assert_eq!(config.server.bind_address, "0.0.0.0:3030");
    assert_eq!(config.server.max_connections, 1000);
    assert_eq!(config.server.heartbeat_interval_seconds, 30);
    assert_eq!(config.server.node_timeout_seconds, 120);
    assert_eq!(config.server.client_timeout_seconds, 300);
    assert_eq!(config.dashboard.title, "Ferris Swarm Constellation");
    assert_eq!(config.dashboard.refresh_interval_ms, 1000);
    assert_eq!(config.dashboard.max_log_entries, 1000);
    assert!(config.monitoring.enable_metrics);
    assert_eq!(config.monitoring.metrics_retention_hours, 24);
    assert_eq!(config.monitoring.alert_thresholds.node_offline_minutes, 5);
    assert_eq!(config.monitoring.alert_thresholds.job_stalled_minutes, 30);
}

#[test]
fn how_a_constellation_starts() {
    let config = ConstellationConfig::default();
    let options = |bind: Option<&str>, manifest: Option<&str>, auto_register, no_mdns| StartOptions {
        bind: bind.map(|s| s.to_string()),
        nodes_config: manifest.map(|s| s.to_string()),
        auto_register,
        no_mdns,
    };
    assert_eq!(
        start_constellation(options(None, None, false, false), &config),
        StartPlan { bind_address: "0.0.0.0:3030".to_string(), manifest: None, advertise: true }
    );
    assert_eq!(
        start_constellation(options(Some("127.0.0.1:4000"), Some("nodes.toml"), true, true), &config),
        StartPlan {
            bind_address: "127.0.0.1:4000".to_string(),
            manifest: Some("nodes.toml".to_string()),
            advertise: false,
        }
    );
    assert_eq!(
        start_constellation(options(None, Some("nodes.toml"), false, false), &config).manifest,
        None
    );
    assert_eq!(start_constellation(options(None, None, true, false), &config).manifest, None);
}

#[test]
fn an_identifier_in_use_gives_way_to_the_next_free_one() {
    let mut map = std::collections::HashMap::new();
    assert_eq!(free_id(&map, 7), 7);
    map.insert(7u128, ());
    map.insert(8u128, ());
    map.insert(10u128, ());
    assert_eq!(free_id(&map, 7), 9);
    assert_eq!(free_id(&map, 10), 11);
    assert_eq!(free_id(&map, 6), 6);
    map.insert(u128::MAX, ());
    assert_eq!(free_id(&map, u128::MAX), 0);
    map.insert(0u128, ());
    assert_eq!(free_id(&map, u128::MAX), 1);
}

#[test]
fn every_assignment_gets_an_identifier_of_its_own() {
    let mut state = registry();
    state.register_node_at(1, registration("10.0.0.1:50051"), 0);
    state.create_job_at(2, "film.mkv".to_string(), vec![], 10, 0);
    let mut seen = Vec::new();
    for index in 0..20u32 {
        let id = state.assign_chunk(10, index, 1).unwrap();
        assert!(!seen.contains(&id));
        assert_eq!(state.chunks.get(&id).unwrap().chunk_index, index);
        assert_eq!(state.chunks.get(&id).unwrap().node_id, 1);
        seen.push(id);
    }
    assert_eq!(state.nodes.get(&1).unwrap().current_chunks, seen);
    assert_eq!(state.assign_chunk(11, 0, 1), None);
    assert_eq!(state.assign_chunk(10, 0, 2), None);
    assert_eq!(state.chunks.len(), 20);
}

#[test]
fn a_manifest_registers_each_address_once_with_what_it_declares() {
    let mut state = registry();
    let mut memo = AutoRegister::new();
    let mut config = AutoRegister::generate_sample_config();
    let mut twin = config.nodes[0].clone();
    twin.name = "workstation-01-again".to_string();
    config.nodes.push(twin);
    assert_eq!(memo.process_config(&mut state, &config), 2);
    let addresses: Vec<&str> = memo.registered_nodes.iter().map(|(a, _)| a.as_str()).collect();
    assert_eq!(addresses, vec!["192.168.1.101:8080", "192.168.1.102:8080"]);
    for (k, (address, id)) in memo.registered_nodes.iter().enumerate() {
        let node = state.nodes.get(id).unwrap();
        assert_eq!(&node.address, address);
        assert_eq!(node.id, *id);
        assert_eq!(node.status, NodeStatus::Online);
        assert_eq!(node.capabilities, config.nodes[k].capabilities);
        assert!(node.current_chunks.is_empty());
    }
    assert_eq!(state.nodes.len(), 2);
}

#[test]
fn no_assignment_ends_before_it_began() {
    let mut state = registry();
    state.register_node_at(1, registration("n:1"), 0);
    state.create_job_at(2, "film.mkv".to_string(), vec![], 10, 0);
    state.assign_chunk_at(10, 0, 1, 20, 0);
    // Ended without having begun; progress reported afterwards stamps no
    // start, and a later end changes nothing.
    assert!(state.update_chunk_status_at(20, report(ChunkStatus::Completed, 100), 10));
    assert!(state.update_chunk_status_at(20, report(ChunkStatus::InProgress, 50), 20));
    assert!(state.update_chunk_status_at(20, report(ChunkStatus::Completed, 100), 30));
    let chunk = state.chunks.get(&20).unwrap();
    assert_eq!(chunk.status, ChunkStatus::Completed);
    assert_eq!(chunk.started_at, None);
    assert_eq!(chunk.completed_at, Some(10));
}

#[test]
fn registrations_never_share_an_identifier() {
    let mut state = registry();
    for id in 1..=5u128 {
        state.register_node_at(id, registration("n:0"), 0);
    }
    let before: Vec<u128> = state.nodes.keys().copied().collect();
    let a = state.register_node(registration("10.0.0.1:50051"));
    let b = state.register_node(registration("10.0.0.1:50051"));
    assert_ne!(a, b);
    assert!(!before.contains(&a) && !before.contains(&b));
    assert_eq!(state.nodes.len(), 7);
    for id in [a, b] {
        let node = state.nodes.get(&id).unwrap();
        assert_eq!(node.id, id);
        assert_eq!(node.address, "10.0.0.1:50051");
        assert_eq!(node.status, NodeStatus::Online);
        assert!(node.current_chunks.is_empty());
        assert_eq!((node.total_processed, node.total_failed), (0, 0));
        assert_eq!(node.capabilities, capabilities());
    }
    let data = state.get_dashboard_data();
    assert!(data.nodes.contains_key(&a) && data.nodes.contains_key(&b));
    let c = state.register_client(ClientRegistration { address: "c:1".to_string() });
    let d = state.register_client(ClientRegistration { address: "c:1".to_string() });
    assert_ne!(c, d);
    let j = state.create_job(c, "a.mkv".to_string(), vec![]);
    let k = state.create_job(c, "a.mkv".to_string(), vec![]);
    assert_ne!(j, k);
    assert_eq!(state.clients.get(&c).unwrap().active_jobs, vec![j, k]);
}

#[test]
fn a_heartbeat_touches_time_and_status_only() {
    let mut state = registry();
    state.register_node_at(1, registration("10.0.0.1:50051"), 0);
    state.create_job_at(2, "film.mkv".to_string(), vec![], 10, 0);
    state.assign_chunk_at(10, 0, 1, 20, 0);
    state.nodes.get_mut(&1).unwrap().total_processed = 3;
    let before = state.nodes.get(&1).unwrap().clone();
    let beat = HeartbeatRequest { id: 1, status: "busy".to_string() };
    assert_eq!(node_heartbeat_at(&mut state, 1, &beat, 700), Ok(()));
    let mut expected = before;
    expected.status = NodeStatus::Busy;
    expected.last_heartbeat = 700;
    assert_eq!(state.nodes.get(&1).unwrap(), &expected);
}

#[test]
fn manifest_entries_with_bad_addresses_are_passed_over() {
    let config = AutoRegister::generate_sample_config();
    let out = pass_over_bad_addresses(config.clone(), &vec![true, false, true]);
    assert_eq!(out.constellation, config.constellation);
    assert_eq!(out.nodes.len(), 3);
    let enabled: Vec<bool> = out.nodes.iter().map(|n| n.enabled).collect();
    assert_eq!(enabled, vec![true, false, false]);
    for (a, b) in out.nodes.iter().zip(config.nodes.iter()) {
        assert_eq!((&a.name, &a.address, &a.capabilities, &a.tags), (&b.name, &b.address, &b.capabilities, &b.tags));
    }
    let out = pass_over_bad_addresses(config.clone(), &vec![true]);
    let enabled: Vec<bool> = out.nodes.iter().map(|n| n.enabled).collect();
    assert_eq!(enabled, vec![true, false, false]);
    assert_eq!(pass_over_bad_addresses(config.clone(), &vec![true, true, true]), config);
}
