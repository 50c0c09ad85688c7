use ferris_swarm::node::service::{
    EncodeChunkRequest, EncodeChunkResponse, EncodeSession, EncodeStage, NodeAction, NodeEncodingService,
    NodeEvent,
};
use ferris_swarm::video::encoder::{
    encode_with_ffmpeg, ffmpeg_encode_arguments, ChunkEncoder, Launch, ProcessOutput,
};
use ferris_swarm::chunk::Chunk;
use ferris_swarm::error::VideoEncodeError;

fn strings(list: &[&str]) -> Vec<String> {
    list.iter().map(|s| s.to_string()).collect()
}

fn exited(success: bool, stderr: &str) -> Launch {
    Launch::Exited(ProcessOutput {
        success,
        stdout: String::new(),
        stderr: stderr.to_string(),
    })
}

fn open(index: i32) -> (EncodeSession, NodeAction) {
    NodeEncodingService::new("/node".to_string()).encode_chunk(EncodeChunkRequest {
        chunk_data: vec![1, 2, 3],
        chunk_index: index,
        encoder_parameters: strings(&["-c:v", "libx264", "-y"]),
    })
}

fn remove_both(index: i32) -> NodeAction {
    NodeAction::RemoveFiles {
        input: format!("/node/received_chunks/chunk_{}_received.mkv", index),
        output: format!("/node/locally_encoded/chunk_{}_encoded.mkv", index),
    }
}

fn failure(index: i32, reason: &str) -> NodeAction {
    NodeAction::Reply(EncodeChunkResponse {
        encoded_chunk_data: vec![],
        chunk_index: index,
        success: false,
        error_message: reason.to_string(),
    })
}

#[test]
fn a_chunk_is_encoded() {
    let (session, action) = open(4);
    assert_eq!(session.stage(), EncodeStage::MakingDirs);
    assert_eq!(
        action,
        NodeAction::CreateDirs {
            received_dir: "/node/received_chunks".to_string(),
            encoded_dir: "/node/locally_encoded".to_string(),
        }
    );
    let (session, action) = session.advance(NodeEvent::Done);
    assert_eq!(
        action,
        NodeAction::WriteInput {
            path: "/node/received_chunks/chunk_4_received.mkv".to_string(),
            data: vec![1, 2, 3],
        }
    );
    let (session, action) = session.advance(NodeEvent::Done);
    assert_eq!(
        action,
        NodeAction::RunEncoder {
            arguments: strings(&[
                "-hide_banner",
                "-i",
                "/node/received_chunks/chunk_4_received.mkv",
                "-c:v",
                "libx264",
                "-y",
                "/node/locally_encoded/chunk_4_encoded.mkv",
            ]),
        }
    );
    let (session, action) = session.advance(NodeEvent::Ran(exited(true, "")));
    assert_eq!(
        action,
        NodeAction::ReadOutput { path: "/node/locally_encoded/chunk_4_encoded.mkv".to_string() }
    );
    let (session, action) = session.advance(NodeEvent::Loaded(vec![7, 8]));
    assert_eq!(action, remove_both(4));
    assert_eq!(session.stage(), EncodeStage::Cleaning);
    let (session, action) = session.advance(NodeEvent::Done);
    assert_eq!(
        action,
        NodeAction::Reply(EncodeChunkResponse {
            encoded_chunk_data: vec![7, 8],
            chunk_index: 4,
            success: true,
            error_message: String::new(),
        })
    );
    assert_eq!(session.stage(), EncodeStage::Closed);
    let (session, action) = session.advance(NodeEvent::Done);
    assert_eq!(action, NodeAction::Idle);
    assert_eq!(session.stage(), EncodeStage::Closed);
}

#[test]
fn a_failed_deletion_does_not_change_the_reply() {
    let (session, _) = open(0);
    let (session, _) = session.advance(NodeEvent::Done);
    let (session, _) = session.advance(NodeEvent::Done);
    let (session, _) = session.advance(NodeEvent::Ran(exited(true, "")));
    let (session, _) = session.advance(NodeEvent::Loaded(vec![5]));
    let (_, action) = session.advance(NodeEvent::Failed("busy".to_string()));
    assert!(matches!(action, NodeAction::Reply(EncodeChunkResponse { success: true, .. })));
}

#[test]
fn directories_that_cannot_be_made_fail_the_call() {
    let (session, _) = open(1);
    let (session, action) = session.advance(NodeEvent::Failed("read-only".to_string()));
    assert_eq!(action, NodeAction::Abort("Node temporary directory error".to_string()));
    assert_eq!(session.stage(), EncodeStage::Closed);
}

#[test]
fn a_write_failure_is_reported_after_cleanup() {
    let (session, _) = open(2);
    let (session, _) = session.advance(NodeEvent::Done);
    let (session, action) = session.advance(NodeEvent::Failed("disk full".to_string()));
    assert_eq!(action, remove_both(2));
    let (_, action) = session.advance(NodeEvent::Done);
    assert_eq!(action, failure(2, "disk full"));
}

#[test]
fn an_encoder_failure_is_reported_after_cleanup() {
    let (session, _) = open(-3);
    let (session, _) = session.advance(NodeEvent::Done);
    let (session, _) = session.advance(NodeEvent::Done);
    let (session, action) = session.advance(NodeEvent::Ran(exited(false, "bad codec")));
    assert_eq!(action, remove_both(-3));
    let (_, action) = session.advance(NodeEvent::Done);
    assert_eq!(
        action,
        failure(-3, "Encoding error: Failed to encode with ffmpeg. Stderr: bad codec")
    );
}

#[test]
fn an_encoder_that_does_not_start_is_reported() {
    let (session, _) = open(5);
    let (session, _) = session.advance(NodeEvent::Done);
    let (session, _) = session.advance(NodeEvent::Done);
    let (session, action) =
        session.advance(NodeEvent::Ran(Launch::NotStarted("not found".to_string())));
    assert_eq!(action, remove_both(5));
    let (_, action) = session.advance(NodeEvent::Done);
    assert_eq!(action, failure(5, "I/O error: not found"));
}

#[test]
fn a_read_failure_is_reported_after_cleanup() {
    let (session, _) = open(6);
    let (session, _) = session.advance(NodeEvent::Done);
    let (session, _) = session.advance(NodeEvent::Done);
    let (session, _) = session.advance(NodeEvent::Ran(exited(true, "")));
    let (session, action) = session.advance(NodeEvent::Failed("vanished".to_string()));
    assert_eq!(action, remove_both(6));
    let (_, action) = session.advance(NodeEvent::Done);
    assert_eq!(action, failure(6, "vanished"));
}

#[test]
fn an_event_out_of_turn_fails_the_step() {
    let (session, _) = open(7);
    let (session, _) = session.advance(NodeEvent::Done);
    let (session, action) = session.advance(NodeEvent::Loaded(vec![1]));
    assert_eq!(action, remove_both(7));
    let (_, action) = session.advance(NodeEvent::Done);
    assert_eq!(action, failure(7, "Unexpected event"));

    let (session, _) = open(8);
    let (session, _) = session.advance(NodeEvent::Done);
    let (session, _) = session.advance(NodeEvent::Done);
    let (session, action) = session.advance(NodeEvent::Done);
    assert_eq!(action, remove_both(8));
    let (_, action) = session.advance(NodeEvent::Done);
    assert_eq!(action, failure(8, "Unexpected event"));
}

#[test]
fn encoder_arguments_and_verdict() {
    assert_eq!(
        ffmpeg_encode_arguments("in.mkv", "out.mkv", &strings(&["-crf", "23"])),
        strings(&["-hide_banner", "-i", "in.mkv", "-crf", "23", "out.mkv"])
    );
    assert_eq!(
        ffmpeg_encode_arguments("in.mkv", "out.mkv", &vec![]),
        strings(&["-hide_banner", "-i", "in.mkv", "out.mkv"])
    );
    assert_eq!(encode_with_ffmpeg(&exited(true, "warnings")), Ok(()));
    assert_eq!(
        encode_with_ffmpeg(&exited(false, "boom")),
        Err(VideoEncodeError::Encoding(
            "Failed to encode with ffmpeg. Stderr: boom".to_string()
        ))
    );
    assert_eq!(
        encode_with_ffmpeg(&Launch::NotStarted("no such file".to_string())),
        Err(VideoEncodeError::Io("no such file".to_string()))
    );
}

#[test]
fn a_chunk_records_where_it_was_encoded() {
    let chunk = Chunk::from_probe("in.mkv".to_string(), 3, strings(&["-y"]), true).unwrap();
    let encoded = chunk.encode("out.mkv".to_string(), &exited(true, "")).unwrap();
    assert_eq!(encoded.encoded_path, Some("out.mkv".to_string()));
    assert_eq!(encoded.index, 3);
    assert_eq!(encoded.source_path, "in.mkv");
    assert_eq!(encoded.encoder_parameters, strings(&["-y"]));
    assert_eq!(
        chunk.encode("out.mkv".to_string(), &exited(false, "x")),
        Err(VideoEncodeError::Encoding("Failed to encode with ffmpeg. Stderr: x".to_string()))
    );
}

#[test]
fn the_encoder_trait_gives_what_the_chunk_gives() {
    let chunk = Chunk::from_probe("in.mkv".to_string(), 3, strings(&["-y"]), true).unwrap();
    assert_eq!(
        ChunkEncoder::encode(&chunk, "out.mkv".to_string(), &exited(true, "")),
        chunk.encode("out.mkv".to_string(), &exited(true, ""))
    );
    assert_eq!(
        ChunkEncoder::encode(&chunk, "out.mkv".to_string(), &exited(false, "x")),
        chunk.encode("out.mkv".to_string(), &exited(false, "x"))
    );
}
