use ferris_swarm::chunk::{chunks_from_probes, Chunk};
use ferris_swarm::client::tasks::{
    begin_job, finish_job, process_chunks_on_node_worker, sort_by_index, EncodingTaskState, NodeWorker,
    WorkerAction, WorkerEvent,
};
use ferris_swarm::error::VideoEncodeError;
use ferris_swarm::node::service::EncodeChunkResponse;

fn job(n: usize) -> EncodingTaskState {
    let segments: Vec<String> = (0..n).map(|i| format!("seg/chunk_{:04}.mp4", i)).collect();
    let chunks = chunks_from_probes(segments, vec!["-y".to_string()], &vec![true; n]).unwrap();
    EncodingTaskState::new(chunks)
}

fn answer(index: usize, success: bool) -> WorkerEvent {
    WorkerEvent::Answered {
        index,
        response: EncodeChunkResponse {
            encoded_chunk_data: if success { vec![index as u8] } else { vec![] },
            chunk_index: index as i32,
            success,
            error_message: if success { String::new() } else { "failed".to_string() },
        },
    }
}

fn sent_index(action: &WorkerAction) -> usize {
    match action {
        WorkerAction::Send { chunk } => chunk.index,
        other => panic!("expected a chunk to be sent, got {:?}", other),
    }
}

fn indices(chunks: &[Chunk]) -> Vec<usize> {
    chunks.iter().map(|c| c.index).collect()
}

#[test]
fn single_chunk_single_node() {
    let mut state = job(1);
    let mut worker = NodeWorker::new("http://a:50051".to_string(), 1, "/job/encoded".to_string());
    assert_eq!(worker.available_permits(), 1);

    let action = process_chunks_on_node_worker(&mut worker, &mut state, WorkerEvent::Wake);
    assert_eq!(sent_index(&action), 0);
    assert_eq!(worker.available_permits(), 0);
    assert_eq!(worker.in_flight(), 1);
    assert!(state.pending_chunks.is_empty());

    assert_eq!(
        process_chunks_on_node_worker(&mut worker, &mut state, WorkerEvent::Wake),
        WorkerAction::AwaitTask
    );
    assert_eq!(
        process_chunks_on_node_worker(&mut worker, &mut state, answer(0, true)),
        WorkerAction::Store {
            index: 0,
            path: "/job/encoded/encoded_chunk_0.mkv".to_string(),
            data: vec![0],
        }
    );
    assert_eq!(worker.in_flight(), 1);
    assert_eq!(
        process_chunks_on_node_worker(&mut worker, &mut state, WorkerEvent::Stored { index: 0 }),
        WorkerAction::Resume
    );
    assert_eq!(worker.in_flight(), 0);
    assert_eq!(
        process_chunks_on_node_worker(&mut worker, &mut state, WorkerEvent::Wake),
        WorkerAction::Finish
    );
    assert_eq!(
        process_chunks_on_node_worker(&mut worker, &mut state, WorkerEvent::Wake),
        WorkerAction::Finish
    );
    assert_eq!(indices(&state.completed_chunks), vec![0]);
    let done = finish_job(state, 1).unwrap();
    assert_eq!(done[0].encoded_path, Some("/job/encoded/encoded_chunk_0.mkv".to_string()));
    assert_eq!(done[0].source_path, "seg/chunk_0000.mp4");
}

#[test]
fn three_chunks_two_nodes_one_transient_failure() {
    let mut state = job(3);
    let mut a = NodeWorker::new("http://a:50051".to_string(), 2, "/job/encoded".to_string());
    let mut b = NodeWorker::new("http://b:50051".to_string(), 1, "/job/encoded".to_string());
    let mut requests = 0;

    // The queue is served from its end: node B gets chunk 2 first.
    let action = process_chunks_on_node_worker(&mut b, &mut state, WorkerEvent::Wake);
    assert_eq!(sent_index(&action), 2);
    requests += 1;
    let action = process_chunks_on_node_worker(&mut a, &mut state, WorkerEvent::Wake);
    assert_eq!(sent_index(&action), 1);
    requests += 1;
    let action = process_chunks_on_node_worker(&mut a, &mut state, WorkerEvent::Wake);
    assert_eq!(sent_index(&action), 0);
    requests += 1;
    assert_eq!(
        process_chunks_on_node_worker(&mut a, &mut state, WorkerEvent::Wake),
        WorkerAction::AwaitTask
    );
    assert_eq!(a.available_permits(), 0);

    // Node B fails on chunk 2: nothing is stored, the chunk waits again.
    assert_eq!(
        process_chunks_on_node_worker(&mut b, &mut state, answer(2, false)),
        WorkerAction::Resume
    );
    assert_eq!(indices(&state.pending_chunks), vec![2]);
    assert_eq!(state.pending_chunks[0].encoded_path, None);
    assert!(state.completed_chunks.is_empty());
    assert_eq!(b.in_flight(), 0);

    // Node B picks it up again and succeeds.
    let action = process_chunks_on_node_worker(&mut b, &mut state, WorkerEvent::Wake);
    assert_eq!(sent_index(&action), 2);
    requests += 1;
    assert!(matches!(
        process_chunks_on_node_worker(&mut b, &mut state, answer(2, true)),
        WorkerAction::Store { index: 2, .. }
    ));
    process_chunks_on_node_worker(&mut b, &mut state, WorkerEvent::Stored { index: 2 });

    for index in [0, 1] {
        assert!(matches!(
            process_chunks_on_node_worker(&mut a, &mut state, answer(index, true)),
            WorkerAction::Store { .. }
        ));
        process_chunks_on_node_worker(&mut a, &mut state, WorkerEvent::Stored { index });
    }
    assert_eq!(
        process_chunks_on_node_worker(&mut a, &mut state, WorkerEvent::Wake),
        WorkerAction::Finish
    );
    assert_eq!(
        process_chunks_on_node_worker(&mut b, &mut state, WorkerEvent::Wake),
        WorkerAction::Finish
    );

    assert!(requests >= 4);
    assert_eq!(indices(&state.completed_chunks), vec![2, 0, 1]);
    let done = finish_job(state, 3).unwrap();
    assert_eq!(indices(&done), vec![0, 1, 2]);
    for (i, chunk) in done.iter().enumerate() {
        assert_eq!(chunk.source_path, format!("seg/chunk_{:04}.mp4", i));
        assert_eq!(chunk.encoded_path, Some(format!("/job/encoded/encoded_chunk_{}.mkv", i)));
    }
}

#[test]
fn a_node_that_always_fails_keeps_nothing() {
    let mut state = job(2);
    let mut worker = NodeWorker::new("http://a:50051".to_string(), 1, "/job/encoded".to_string());
    for _ in 0..5 {
        let action = process_chunks_on_node_worker(&mut worker, &mut state, WorkerEvent::Wake);
        let index = sent_index(&action);
        let action = process_chunks_on_node_worker(&mut worker, &mut state, answer(index, false));
        assert_eq!(action, WorkerAction::Resume);
        assert_eq!(state.pending_chunks.len(), 2);
        assert!(state.completed_chunks.is_empty());
        assert_eq!(state.pending_chunks.last().unwrap().index, index);
    }
}

#[test]
fn transport_and_storage_failures_requeue() {
    let mut state = job(1);
    let mut worker = NodeWorker::new("http://a:50051".to_string(), 1, "/job/encoded".to_string());
    process_chunks_on_node_worker(&mut worker, &mut state, WorkerEvent::Wake);
    assert_eq!(
        process_chunks_on_node_worker(&mut worker, &mut state, WorkerEvent::Unreachable { index: 0 }),
        WorkerAction::Resume
    );
    assert_eq!(indices(&state.pending_chunks), vec![0]);
    process_chunks_on_node_worker(&mut worker, &mut state, WorkerEvent::Wake);
    process_chunks_on_node_worker(&mut worker, &mut state, answer(0, true));
    assert_eq!(
        process_chunks_on_node_worker(&mut worker, &mut state, WorkerEvent::StoreFailed { index: 0 }),
        WorkerAction::Resume
    );
    assert_eq!(indices(&state.pending_chunks), vec![0]);
    assert!(state.completed_chunks.is_empty());
}

#[test]
fn events_for_unknown_chunks_change_nothing() {
    let mut state = job(2);
    let mut worker = NodeWorker::new("http://a:50051".to_string(), 2, "/job/encoded".to_string());
    process_chunks_on_node_worker(&mut worker, &mut state, WorkerEvent::Wake);
    for event in [
        answer(7, true),
        answer(7, false),
        WorkerEvent::Stored { index: 7 },
        WorkerEvent::StoreFailed { index: 7 },
        WorkerEvent::Unreachable { index: 7 },
    ] {
        assert_eq!(
            process_chunks_on_node_worker(&mut worker, &mut state, event),
            WorkerAction::Resume
        );
        assert_eq!(worker.in_flight(), 1);
        assert_eq!(indices(&state.pending_chunks), vec![0]);
        assert!(state.completed_chunks.is_empty());
    }
}

#[test]
fn a_worker_without_slots_yields() {
    let mut state = job(1);
    let mut worker = NodeWorker::new("http://a:50051".to_string(), 0, "/job/encoded".to_string());
    assert_eq!(
        process_chunks_on_node_worker(&mut worker, &mut state, WorkerEvent::Wake),
        WorkerAction::Yield
    );
    assert_eq!(state.pending_chunks.len(), 1);
}

#[test]
fn a_draining_worker_takes_no_more_chunks() {
    let mut state = job(1);
    let mut a = NodeWorker::new("http://a:50051".to_string(), 1, "/job/encoded".to_string());
    let mut b = NodeWorker::new("http://b:50051".to_string(), 1, "/job/encoded".to_string());
    process_chunks_on_node_worker(&mut a, &mut state, WorkerEvent::Wake);
    assert_eq!(
        process_chunks_on_node_worker(&mut b, &mut state, WorkerEvent::Wake),
        WorkerAction::Finish
    );
    process_chunks_on_node_worker(&mut a, &mut state, answer(0, false));
    assert_eq!(
        process_chunks_on_node_worker(&mut b, &mut state, WorkerEvent::Wake),
        WorkerAction::Finish
    );
    assert_eq!(indices(&state.pending_chunks), vec![0]);
}

#[test]
fn an_unfinished_job_fails() {
    let mut state = job(2);
    let mut worker = NodeWorker::new("http://a:50051".to_string(), 1, "/job/encoded".to_string());
    process_chunks_on_node_worker(&mut worker, &mut state, WorkerEvent::Wake);
    process_chunks_on_node_worker(&mut worker, &mut state, answer(1, true));
    process_chunks_on_node_worker(&mut worker, &mut state, WorkerEvent::Stored { index: 1 });
    assert_eq!(
        finish_job(state, 2),
        Err(VideoEncodeError::ChunkProcessing(
            "Encoding failed: Not all chunks were processed successfully.".to_string()
        ))
    );
    assert_eq!(finish_job(job(0), 0), Ok(vec![]));
    assert!(finish_job(job(0), 1).is_err());
}

#[test]
fn sorting_by_index() {
    let chunks: Vec<Chunk> = [3usize, 1, 2, 0, 1]
        .iter()
        .enumerate()
        .map(|(k, &i)| Chunk::from_probe(format!("s{}", k), i, vec![], true).unwrap())
        .collect();
    let sorted = sort_by_index(chunks);
    assert_eq!(indices(&sorted), vec![0, 1, 1, 2, 3]);
    assert_eq!(sorted[1].source_path, "s1");
    assert_eq!(sorted[2].source_path, "s4");
    assert_eq!(sort_by_index(vec![]), vec![]);
}

#[test]
fn a_source_without_segments_leaves_nothing_to_do() {
    assert!(begin_job(vec![]).is_none());
    let chunks = chunks_from_probes(vec!["a.mp4".to_string()], vec![], &vec![true]).unwrap();
    let state = begin_job(chunks).unwrap();
    assert_eq!(indices(&state.pending_chunks), vec![0]);
    assert!(state.completed_chunks.is_empty());
}
