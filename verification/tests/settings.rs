use ferris_swarm::client::comms::{
    encode_request, initialize_node_connections, require_connections, send_chunk_for_encoding,
    slots_to_use, RpcOutcome,
};
use ferris_swarm::chunk::Chunk;
use ferris_swarm::client::config::{
    concatenator_from_flag, encoder_params_from, load_settings_with_cli_overrides, CliOverrides,
};
use ferris_swarm::error::VideoEncodeError;
use ferris_swarm::job_config::{create_job_temp_config, generate_hash, JobTempConfig};
use ferris_swarm::node::service::EncodeChunkResponse;
use ferris_swarm::settings::{
    ClientSettings, ConcatenatorChoice, NodeSettings, ProcessingSection, Settings,
};

fn strings(list: &[&str]) -> Vec<String> {
    list.iter().map(|s| s.to_string()).collect()
}

fn no_overrides() -> CliOverrides {
    CliOverrides {
        nodes: vec![],
        slots: vec![],
        encoder_params: None,
        temp_dir: None,
        concatenator: None,
    }
}

#[test]
fn test_settings_default() {
    let settings = Settings::default();
    assert!(settings.client.encoder_params.len() > 0);
    assert!(settings.node.address.len() > 0);
}

#[test]
fn default_settings_in_full() {
    let settings = Settings::default();
    assert_eq!(settings.client.node_addresses, strings(&["127.0.0.1:50051"]));
    assert_eq!(
        settings.client.encoder_params,
        strings(&["-c:v", "libx264", "-crf", "23"])
    );
    assert_eq!(settings.node.address, "0.0.0.0:50051");
    assert_eq!(settings.node.temp_dir, "/tmp/ferris_swarm_node");
    assert_eq!(settings.processing.temp_dir, "/tmp/ferris_swarm_processing");
    assert_eq!(settings.processing.concatenator, ConcatenatorChoice::Ffmpeg);
    assert_eq!(ConcatenatorChoice::default(), ConcatenatorChoice::Ffmpeg);
    assert_eq!(NodeSettings::in_temp_root("/var/tmp").temp_dir, "/var/tmp/ferris_swarm_node");
}

#[test]
fn concatenator_names() {
    assert_eq!(ConcatenatorChoice::from_name("ffmpeg"), Some(ConcatenatorChoice::Ffmpeg));
    assert_eq!(ConcatenatorChoice::from_name("FFmpeg"), Some(ConcatenatorChoice::Ffmpeg));
    assert_eq!(ConcatenatorChoice::from_name("MKVMERGE"), Some(ConcatenatorChoice::Mkvmerge));
    assert_eq!(ConcatenatorChoice::from_name("x264"), None);
    assert_eq!(concatenator_from_flag("concat"), Some(ConcatenatorChoice::Ffmpeg));
    assert_eq!(concatenator_from_flag("merge"), Some(ConcatenatorChoice::Mkvmerge));
    assert_eq!(concatenator_from_flag("mkvmerge"), Some(ConcatenatorChoice::Mkvmerge));
    assert_eq!(concatenator_from_flag("Concat"), None);
}

#[test]
fn encoder_params_are_split_and_get_the_overwrite_flag() {
    assert_eq!(
        encoder_params_from(&strings(&["-c:v libx264", "  -crf   23 "])),
        strings(&["-c:v", "libx264", "-crf", "23", "-y"])
    );
    assert_eq!(
        encoder_params_from(&strings(&["-y -c:v libx265"])),
        strings(&["-y", "-c:v", "libx265"])
    );
    assert_eq!(encoder_params_from(&vec![]), strings(&["-y"]));
}

#[test]
fn nodes_need_slots() {
    let mut cli = no_overrides();
    cli.nodes = strings(&["http://a:50051", "http://b:50051"]);
    assert_eq!(
        load_settings_with_cli_overrides(&cli, Settings::default()),
        Err(VideoEncodeError::Config(
            "If --nodes are provided via CLI, --slots must also be provided.".to_string()
        ))
    );
    cli.slots = vec![2];
    assert_eq!(
        load_settings_with_cli_overrides(&cli, Settings::default()),
        Err(VideoEncodeError::Config(
            "Number of --nodes (2) must match number of --slots (1) via CLI.".to_string()
        ))
    );
    cli.slots = vec![2, 1];
    let settings = load_settings_with_cli_overrides(&cli, Settings::default()).unwrap();
    assert_eq!(settings.client.node_addresses, cli.nodes);
}

#[test]
fn overrides_replace_what_they_name_and_nothing_else() {
    let defaults = Settings::default();
    assert_eq!(
        load_settings_with_cli_overrides(&no_overrides(), Settings::default()),
        Ok(defaults.clone())
    );
    let mut cli = no_overrides();
    cli.encoder_params = Some(strings(&["-c:v libsvtav1"]));
    cli.temp_dir = Some("/scratch".to_string());
    cli.concatenator = Some("merge".to_string());
    let settings = load_settings_with_cli_overrides(&cli, Settings::default()).unwrap();
    assert_eq!(settings.client.encoder_params, strings(&["-c:v", "libsvtav1", "-y"]));
    assert_eq!(settings.client.node_addresses, defaults.client.node_addresses);
    assert_eq!(settings.processing.temp_dir, "/scratch");
    assert_eq!(settings.processing.concatenator, ConcatenatorChoice::Mkvmerge);
    assert_eq!(settings.node, defaults.node);

    cli.concatenator = Some("nonsense".to_string());
    let settings = load_settings_with_cli_overrides(&cli, Settings::default()).unwrap();
    assert_eq!(settings.processing.concatenator, ConcatenatorChoice::Ffmpeg);
}

#[test]
fn slots_only_stand_without_nodes() {
    let mut cli = no_overrides();
    cli.slots = vec![4];
    assert!(load_settings_with_cli_overrides(&cli, Settings::default()).is_ok());
}

#[test]
fn hash_of_a_job_is_fixed() {
    assert_eq!(generate_hash("/a/b.mkv", "out.mkv"), "54098089429ee8bd");
    assert_eq!(generate_hash("/a/b.mkv", "out.mkv"), generate_hash("/a/b.mkv", "out.mkv"));
    assert_eq!(generate_hash("input.mp4", "output.mkv"), "24b0178e55e8f25f");
    assert_eq!(generate_hash("", ""), "e3b0c44298fc1c14");
    assert_ne!(generate_hash("/a/b.mkv", "out.mkv"), generate_hash("/a/b.mkv", "out2.mkv"));
}

#[test]
fn test_temp_config_creation() {
    let temp_dir = tempfile::tempdir().expect("Failed to create temp directory");
    let root = temp_dir.path().to_string_lossy().into_owned();
    let input_file = format!("{}/input.mp4", root);
    let output_file = "output.mkv";

    let config = JobTempConfig::new(Some(root.clone()), &input_file, output_file);

    // The layout is computed; making the directories is the caller's part.
    assert_eq!(config.delete_job_temp_dirs(), None);
    let runtime = tokio::runtime::Builder::new_current_thread().build().unwrap();
    for dir in config.directories() {
        runtime.block_on(tokio::fs::create_dir_all(&dir)).expect("Failed to create job directory");
    }
    assert!(std::path::Path::new(&config.base_dir).exists());
    assert!(std::path::Path::new(&config.segments_dir()).exists());
    assert!(std::path::Path::new(&config.encoded_chunks_dir()).exists());

    let hash = generate_hash(&input_file, output_file);
    assert_eq!(config.base_dir, format!("{}/ferris_swarm_jobs/{}", root, hash));
    assert_eq!(config.segments_dir(), format!("{}/segments", config.base_dir));
    assert_eq!(config.encoded_chunks_dir(), format!("{}/encoded_chunks", config.base_dir));
    assert_eq!(config.delete_job_temp_dirs(), Some(config.base_dir.clone()));
}

#[test]
fn a_job_directory_that_is_there_is_to_be_removed() {
    let temp_dir = tempfile::tempdir().expect("Failed to create temp directory");
    let base = temp_dir.path().to_string_lossy().into_owned();
    let config = JobTempConfig {
        base_dir: base.clone(),
        segments_subdir: format!("{}/segments", base),
        encoded_subdir: format!("{}/encoded_chunks", base),
    };
    assert_eq!(config.delete_job_temp_dirs(), Some(base));
}

#[test]
fn scratch_layout() {
    let config = JobTempConfig::new(None, "/a/b.mkv", "out.mkv");
    assert_eq!(config.base_dir, "/tmp/ferris_swarm_jobs/54098089429ee8bd");
    assert_eq!(config.segments_subdir, "/tmp/ferris_swarm_jobs/54098089429ee8bd/segments");
    assert_eq!(
        config.encoded_subdir,
        "/tmp/ferris_swarm_jobs/54098089429ee8bd/encoded_chunks"
    );
    let mut settings = Settings::default();
    settings.processing.temp_dir = "/scratch".to_string();
    let config = create_job_temp_config(&settings, "/a/b.mkv", "out.mkv");
    assert_eq!(config.base_dir, "/scratch/ferris_swarm_jobs/54098089429ee8bd");
}

#[test]
fn connection_plan() {
    let addresses = strings(&["http://a:50051", "http://b:50051"]);
    let plan = initialize_node_connections(&addresses, &vec![2, 1]).unwrap();
    assert_eq!(plan.len(), 2);
    assert_eq!(plan[0].address, "http://a:50051");
    assert_eq!(plan[0].slots, 2);
    assert_eq!(plan[1].slots, 1);
    assert_eq!(
        initialize_node_connections(&addresses, &vec![2]),
        Err(VideoEncodeError::NodeConnection(
            "Mismatch between number of node addresses (2) and slot counts (1).".to_string()
        ))
    );
    assert_eq!(
        initialize_node_connections(&addresses, &vec![2, 0]),
        Err(VideoEncodeError::NodeConnection(
            "Node 1 (http://b:50051) must have at least 1 slot.".to_string()
        ))
    );
    assert_eq!(initialize_node_connections(&vec![], &vec![]), Ok(vec![]));
    assert_eq!(slots_to_use(&vec![], 3), vec![1, 1, 1]);
    assert_eq!(slots_to_use(&vec![4, 2], 3), vec![4, 2]);
    assert_eq!(slots_to_use(&vec![], 0), Vec::<usize>::new());
    assert!(require_connections(1).is_ok());
    assert_eq!(
        require_connections(0),
        Err(VideoEncodeError::NodeConnection(
            "No worker nodes available. Cannot proceed with distributed encoding.".to_string()
        ))
    );
}

#[test]
fn request_and_answer() {
    let chunk = Chunk::from_probe("seg/chunk_0002.mp4".to_string(), 2, strings(&["-y"]), true).unwrap();
    let request = encode_request(&chunk, vec![1, 2, 3]);
    assert_eq!(request.chunk_index, 2);
    assert_eq!(request.chunk_data, vec![1, 2, 3]);
    assert_eq!(request.encoder_parameters, strings(&["-y"]));

    let good = RpcOutcome::Answered(EncodeChunkResponse {
        encoded_chunk_data: vec![9, 9],
        chunk_index: 2,
        success: true,
        error_message: String::new(),
    });
    let (done, data) = send_chunk_for_encoding(chunk.clone(), good, "/job/encoded_chunks").unwrap();
    assert_eq!(done.encoded_path, Some("/job/encoded_chunks/encoded_chunk_2.mkv".to_string()));
    assert_eq!(done.index, 2);
    assert_eq!(done.source_path, "seg/chunk_0002.mp4");
    assert_eq!(data, vec![9, 9]);

    let bad = RpcOutcome::Answered(EncodeChunkResponse {
        encoded_chunk_data: vec![],
        chunk_index: 2,
        success: false,
        error_message: "no such codec".to_string(),
    });
    assert_eq!(
        send_chunk_for_encoding(chunk.clone(), bad, "/job/encoded_chunks"),
        Err(VideoEncodeError::ChunkProcessing(
            "Node reported failure for chunk 2: no such codec".to_string()
        ))
    );
    assert_eq!(
        send_chunk_for_encoding(chunk, RpcOutcome::Failed("refused".to_string()), "/job"),
        Err(VideoEncodeError::Transport(
            "gRPC call to encode_chunk 2 failed: refused".to_string()
        ))
    );
}

#[test]
fn error_texts() {
    assert_eq!(VideoEncodeError::Io("gone".to_string()).to_string(), "I/O error: gone");
    assert_eq!(VideoEncodeError::FfmpegNotFound.to_string(), "FFmpeg not found");
    assert_eq!(VideoEncodeError::MkvmergeNotFound.to_string(), "mkvmerge not found");
    assert_eq!(
        VideoEncodeError::Serialization("x".to_string()).to_string(),
        "Serialization error: x"
    );
    assert_eq!(
        VideoEncodeError::Concatenation("x".to_string()).to_string(),
        "Concatenation error: x"
    );
    assert_eq!(VideoEncodeError::Config("x".to_string()).to_string(), "Configuration error: x");
    assert_eq!(
        VideoEncodeError::Transport("x".to_string()).to_string(),
        "Network transport error: x"
    );
    assert_eq!(
        VideoEncodeError::NodeConnection("x".to_string()).to_string(),
        "Node connection error: x"
    );
    assert_eq!(
        VideoEncodeError::ChunkProcessing("x".to_string()).to_string(),
        "Chunk processing error: x"
    );
}

#[test]
fn a_settings_file_may_leave_sections_out() {
    assert_eq!(Settings::from_sections("/tmp", None, None, None), Ok(Settings::default()));
    let client = ClientSettings {
        node_addresses: strings(&["http://a:1"]),
        encoder_params: strings(&["-c:v", "libx265"]),
    };
    let node = NodeSettings { address: "0.0.0.0:6000".to_string(), temp_dir: "/n".to_string() };
    let section = |name: Option<&str>| ProcessingSection {
        temp_dir: "/p".to_string(),
        concatenator: name.map(|s| s.to_string()),
    };
    let settings = Settings::from_sections(
        "/var/tmp",
        Some(client.clone()),
        None,
        Some(section(Some("MkvMerge"))),
    )
    .unwrap();
    assert_eq!(settings.client, client);
    assert_eq!(settings.node.temp_dir, "/var/tmp/ferris_swarm_node");
    assert_eq!(settings.processing.temp_dir, "/p");
    assert_eq!(settings.processing.concatenator, ConcatenatorChoice::Mkvmerge);
    let settings =
        Settings::from_sections("/var/tmp", None, Some(node.clone()), Some(section(None))).unwrap();
    assert_eq!(settings.node, node);
    assert_eq!(settings.processing.concatenator, ConcatenatorChoice::Ffmpeg);
    assert_eq!(
        Settings::from_sections("/var/tmp", None, None, Some(section(Some("handbrake")))),
        Err(VideoEncodeError::Config("Unknown concatenator: handbrake".to_string()))
    );
}
