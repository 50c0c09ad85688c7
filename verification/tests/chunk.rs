use ferris_swarm::chunk::{chunks_from_probes, convert_files_to_chunks, Chunk};
use ferris_swarm::error::VideoEncodeError;

fn create_test_chunk() -> Chunk {
    let temp_file = tempfile::NamedTempFile::new().expect("Failed to create temp file");
    let temp_path = temp_file.path().to_string_lossy().into_owned();
    Chunk::new(temp_path, 0, vec!["test_param".to_string()]).expect("Failed to create test chunk")
}

#[test]
fn test_chunk_creation_with_existing_file() {
    let temp_file = tempfile::NamedTempFile::new().expect("Failed to create temp file");
    let temp_path = temp_file.path().to_string_lossy().into_owned();

    let chunk = Chunk::new(temp_path, 0, vec!["test_param".to_string()]);

    assert!(chunk.is_ok());
    let chunk = chunk.unwrap();
    assert_eq!(chunk.index, 0);
    assert_eq!(chunk.encoder_parameters, vec!["test_param".to_string()]);
}

#[test]
fn test_chunk_creation_with_nonexistent_file() {
    let result = Chunk::new(
        "/nonexistent/file.mp4".to_string(),
        0,
        vec!["test_param".to_string()],
    );

    assert!(result.is_err());
}

#[test]
fn test_chunk_mock_data() {
    let chunk = create_test_chunk();
    assert_eq!(chunk.index, 0);
    assert_eq!(chunk.encoder_parameters, vec!["test_param".to_string()]);
}

#[test]
fn test_video_encode_error_display() {
    let error = VideoEncodeError::Encoding("test error".to_string());
    assert!(error.to_string().contains("test error"));
}

#[test]
fn missing_source_names_the_path() {
    let result = Chunk::new("/nonexistent/file.mp4".to_string(), 3, vec![]);
    assert_eq!(
        result,
        Err(VideoEncodeError::Io(
            "Source path does not exist: /nonexistent/file.mp4".to_string()
        ))
    );
}

#[test]
fn chunks_take_their_index_from_segment_order() {
    let segments = vec!["a.mp4".to_string(), "b.mp4".to_string(), "c.mp4".to_string()];
    let params = vec!["-c:v".to_string(), "libx264".to_string()];
    let chunks = chunks_from_probes(segments, params.clone(), &vec![true, true, true]).unwrap();
    assert_eq!(chunks.len(), 3);
    for (i, chunk) in chunks.iter().enumerate() {
        assert_eq!(chunk.index, i);
        assert_eq!(chunk.encoded_path, None);
        assert_eq!(chunk.encoder_parameters, params);
    }
    assert_eq!(chunks[1].source_path, "b.mp4");
}

#[test]
fn first_missing_segment_is_reported() {
    let segments = vec!["a.mp4".to_string(), "b.mp4".to_string(), "c.mp4".to_string()];
    let result = chunks_from_probes(segments, vec![], &vec![true, false, false]);
    assert_eq!(
        result,
        Err(VideoEncodeError::Io("Source path does not exist: b.mp4".to_string()))
    );
}

#[test]
fn segment_without_an_answer_counts_as_missing() {
    let segments = vec!["a.mp4".to_string(), "b.mp4".to_string()];
    let result = chunks_from_probes(segments, vec![], &vec![true]);
    assert_eq!(
        result,
        Err(VideoEncodeError::Io("Source path does not exist: b.mp4".to_string()))
    );
}

#[test]
fn no_segments_give_no_chunks() {
    assert_eq!(convert_files_to_chunks(vec![], vec!["-y".to_string()]), Ok(vec![]));
}

#[test]
fn encoded_path_is_recorded() {
    let mut chunk = Chunk::from_probe("a.mp4".to_string(), 7, vec!["-y".to_string()], true).unwrap();
    let copy = chunk.with_encoded_path("out/encoded_chunk_7.mkv".to_string());
    assert_eq!(chunk.encoded_path, None);
    assert_eq!(copy.encoded_path, Some("out/encoded_chunk_7.mkv".to_string()));
    assert_eq!(copy.index, 7);
    assert_eq!(copy.source_path, "a.mp4");
    chunk.set_encoded_path("elsewhere.mkv".to_string());
    assert_eq!(chunk.encoded_path, Some("elsewhere.mkv".to_string()));
    assert_eq!(chunk.duplicate(), chunk);
}
