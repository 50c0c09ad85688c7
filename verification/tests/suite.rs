use ferris_swarm::chunk::Chunk;
use ferris_swarm::client::tasks::EncodingTaskState;
use ferris_swarm::constellation::config::ConstellationConfig;
use ferris_swarm::constellation::state::ConstellationState;
use ferris_swarm::node::service::NodeEncodingService;

#[test]
fn test_suite_smoke_test() {
    assert!(true);
}

#[test]
fn test_orchestration_placeholder() {
    assert!(true);
}

#[test]
fn test_client_placeholder() {
    assert!(true);
}

#[test]
fn test_node_placeholder() {
    assert!(true);
}

#[test]
fn test_constellation_placeholder() {
    assert!(true);
}

#[test]
fn the_three_parts_start_empty() {
    let state = EncodingTaskState::new(Vec::<Chunk>::new());
    assert!(state.pending_chunks.is_empty());
    assert!(state.completed_chunks.is_empty());

    let registry = ConstellationState::new(ConstellationConfig::default());
    assert!(registry.nodes.is_empty());
    assert!(registry.clients.is_empty());
    assert!(registry.jobs.is_empty());
    assert!(registry.chunks.is_empty());

    let service = NodeEncodingService::new("/scratch".to_string());
    assert_eq!(service.get_received_chunks_dir(), "/scratch/received_chunks");
    assert_eq!(service.get_locally_encoded_dir(), "/scratch/locally_encoded");
}
