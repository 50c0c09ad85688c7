use ferris_swarm::discovery::{
    QueryEnd,
    local_ip_from, local_ip_of, needs_fallback,
    octets_to_ipv4, pick_local_ip, record_service, Candidate, ConstellationInfo, DiscoveryRound,
    DiscoveryService, InterfaceAddress, Record, RecordKind,
};
use ferris_swarm::error::VideoEncodeError;
use ferris_swarm::net::Ipv4;
use ferris_swarm::node::auto_register::{
    auto_register_config, capabilities_from, choose_node_name, detect_available_encoders, detect_node_capabilities,
    detect_system_memory_gb, needs_discovery, AutoRegisterConfig, HeartbeatAction, HeartbeatEvent,
    NodeAutoRegister, RegistrationReply,
};
use ferris_swarm::node::cli::Cli;
use ferris_swarm::node::config::{load_settings_with_cli_overrides, registration_address};
use ferris_swarm::models::NodeCapabilities;
use ferris_swarm::settings::Settings;

const SERVICE: &str = "host._ferris-swarm._tcp.local";

fn record(name: &str, kind: RecordKind) -> Record {
    Record { name: name.to_string(), kind }
}

fn ip(a: u8, b: u8, c: u8, d: u8) -> Ipv4 {
    Ipv4 { a, b, c, d }
}

fn info(name: &str, host: &str) -> ConstellationInfo {
    ConstellationInfo {
        name: name.to_string(),
        address: format!("{}:3030", host),
        url: format!("http://{}:3030", host),
    }
}

fn capabilities() -> NodeCapabilities {
    NodeCapabilities {
        max_concurrent_chunks: 1,
        supported_encoders: vec!["h264".to_string()],
        cpu_cores: 2,
        memory_gb: 8,
    }
}

#[test]
fn test_discovery_service_creation() {
    let _service = DiscoveryService::new();
    println!("Discovery service created successfully");
    assert!(true);
}

#[test]
fn test_get_local_ip() {
    let service = DiscoveryService::new();
    let result = service.get_local_ip();

    match result {
        Ok(ip) => {
            assert!(!(ip.a == 127));
            println!("Local IP: {}.{}.{}.{}", ip.a, ip.b, ip.c, ip.d);
        },
        Err(e) => {
            println!(
                "Failed to get local IP (this might be expected in test environment): {}",
                e.to_string()
            );
        },
    }
}

#[test]
fn service_names() {
    let service = DiscoveryService::default();
    assert_eq!(service.query_name(), "_ferris-swarm._tcp.local");
    assert_eq!(service.instance_name("render-01"), "render-01._ferris-swarm._tcp.local");
}

#[test]
fn a_response_names_a_candidate() {
    let service = DiscoveryService::new();
    let records = vec![
        record(SERVICE, RecordKind::A(ip(10, 0, 0, 5))),
        record("other._http._tcp.local", RecordKind::A(ip(10, 0, 0, 6))),
        record(SERVICE, RecordKind::Srv { port: 3030, target: "host.local".to_string() }),
        record("other._http._tcp.local", RecordKind::Srv { port: 80, target: "x".to_string() }),
        record(SERVICE, RecordKind::Other),
    ];
    let candidate = service.parse_mdns_response(Some("host.local"), &records).unwrap();
    assert_eq!(
        candidate,
        Candidate { name: "host.local".to_string(), host: "10.0.0.5".to_string(), port: 3030 }
    );
    assert_eq!(candidate.health_url(), "http://10.0.0.5:3030/api/health");
    assert_eq!(candidate.clone().confirm(false), None);
    assert_eq!(candidate.confirm(true), Some(info("host.local", "10.0.0.5")));
    assert_eq!(service.parse_mdns_response(None, &records).unwrap().name, "unknown");
}

#[test]
fn a_response_without_address_or_port_names_none() {
    let service = DiscoveryService::new();
    assert_eq!(service.parse_mdns_response(Some("h"), &vec![]), None);
    assert_eq!(
        service.parse_mdns_response(Some("h"), &vec![record(SERVICE, RecordKind::A(ip(1, 2, 3, 4)))]),
        None
    );
    assert_eq!(
        service.parse_mdns_response(
            Some("h"),
            &vec![record(SERVICE, RecordKind::Srv { port: 1, target: "t".to_string() })]
        ),
        None
    );
    assert_eq!(
        service.parse_mdns_response(
            Some("h"),
            &vec![
                record("elsewhere.local", RecordKind::A(ip(1, 2, 3, 4))),
                record(SERVICE, RecordKind::Srv { port: 1, target: "t".to_string() }),
            ]
        ),
        None
    );
}

#[test]
fn text_records_can_set_the_address() {
    let service = DiscoveryService::new();
    let txt = |strings: &[&str]| RecordKind::Txt(strings.iter().map(|s| s.to_string()).collect());
    let srv = record(SERVICE, RecordKind::Srv { port: 3030, target: "t".to_string() });
    let found = |records: Vec<Record>| {
        service.parse_mdns_response(Some("h"), &records).map(|c| c.host)
    };
    assert_eq!(
        found(vec![srv.clone(), record(SERVICE, txt(&["version=1", "ip=10.1.2.3"]))]),
        Some("10.1.2.3".to_string())
    );
    assert_eq!(
        found(vec![
            srv.clone(),
            record(SERVICE, RecordKind::A(ip(10, 0, 0, 5))),
            record(SERVICE, txt(&["ip=10.1.2.3", "ip=bogus", "ip=10.1.2.4"])),
        ]),
        Some("10.1.2.4".to_string())
    );
    assert_eq!(
        found(vec![
            srv.clone(),
            record(SERVICE, txt(&["ip=10.1.2.3"])),
            record(SERVICE, RecordKind::A(ip(10, 0, 0, 5))),
        ]),
        Some("10.0.0.5".to_string())
    );
    assert_eq!(found(vec![srv.clone(), record(SERVICE, txt(&["ip=999.1.1.1", "IP=1.1.1.1"]))]), None);
    assert_eq!(found(vec![srv, record("x.local", txt(&["ip=10.1.2.3"]))]), None);
}

#[test]
fn fallback_hosts() {
    let service = DiscoveryService::new();
    let names = |list: &[Candidate]| -> Vec<(String, String, u16)> {
        list.iter().map(|c| (c.name.clone(), c.host.clone(), c.port)).collect()
    };
    assert_eq!(
        names(&service.fallback_candidates(None)),
        vec![
            ("localhost".to_string(), "127.0.0.1".to_string(), 3030),
            ("constellation".to_string(), "constellation".to_string(), 3030),
        ]
    );
    assert_eq!(
        names(&service.fallback_candidates(Some(ip(192, 168, 7, 42)))),
        vec![
            ("localhost".to_string(), "127.0.0.1".to_string(), 3030),
            ("constellation".to_string(), "constellation".to_string(), 3030),
            ("node-1".to_string(), "192.168.7.1".to_string(), 3030),
            ("node-10".to_string(), "192.168.7.10".to_string(), 3030),
            ("node-100".to_string(), "192.168.7.100".to_string(), 3030),
            ("node-101".to_string(), "192.168.7.101".to_string(), 3030),
            ("node-200".to_string(), "192.168.7.200".to_string(), 3030),
        ]
    );
}

#[test]
fn local_address() {
    let addresses = vec![
        InterfaceAddress { loopback: true, v4: Some(ip(127, 0, 0, 1)) },
        InterfaceAddress { loopback: false, v4: None },
        InterfaceAddress { loopback: false, v4: Some(ip(10, 0, 0, 7)) },
        InterfaceAddress { loopback: false, v4: Some(ip(10, 0, 0, 8)) },
    ];
    assert_eq!(pick_local_ip(&addresses), Some(ip(10, 0, 0, 7)));
    assert_eq!(pick_local_ip(&addresses[..2].to_vec()), None);
    assert_eq!(pick_local_ip(&vec![]), None);
    assert_eq!(local_ip_from(Some(ip(10, 0, 0, 7))), Ok(ip(10, 0, 0, 7)));
    assert_eq!(
        local_ip_from(None),
        Err(VideoEncodeError::Transport("No suitable network interface found".to_string()))
    );
    assert_eq!(octets_to_ipv4([1, 2, 3, 4]), ip(1, 2, 3, 4));
    assert_eq!(local_ip_of(Ok(addresses.clone())), Ok(ip(10, 0, 0, 7)));
    assert_eq!(
        local_ip_of(Ok(vec![])),
        Err(VideoEncodeError::Transport("No suitable network interface found".to_string()))
    );
    assert_eq!(
        local_ip_of(Err("permission denied".to_string())),
        Err(VideoEncodeError::Io("permission denied".to_string()))
    );
}

#[test]
fn services_are_listed_once() {
    let mut services = vec![];
    record_service(&mut services, info("a", "10.0.0.1"));
    record_service(&mut services, info("b", "10.0.0.2"));
    record_service(&mut services, info("a", "10.0.0.3"));
    assert_eq!(services, vec![info("a", "10.0.0.3"), info("b", "10.0.0.2")]);
}

#[test]
fn rounds_of_discovery() {
    let found = DiscoveryRound::Found(vec![info("a", "10.0.0.1"), info("b", "10.0.0.2")]);
    assert_eq!(DiscoveryService::new().discover_constellation(found.clone()), Ok(info("a", "10.0.0.1")));
    assert_eq!(
        DiscoveryService::new().discover_all_constellations(found.clone()),
        Ok(vec![info("a", "10.0.0.1"), info("b", "10.0.0.2")])
    );
    assert!(!needs_fallback(&found));
    let nothing = DiscoveryRound::Found(vec![]);
    assert_eq!(
        DiscoveryService::new().discover_constellation(nothing.clone()),
        Err(VideoEncodeError::Transport(
            "No constellation services found on local network".to_string()
        ))
    );
    assert_eq!(DiscoveryService::new().discover_all_constellations(nothing.clone()), Ok(vec![]));
    assert!(needs_fallback(&nothing));
    assert_eq!(
        DiscoveryService::new().discover_all_constellations(DiscoveryRound::TimedOut),
        Ok(vec![])
    );
    assert_eq!(
        DiscoveryService::new().discover_constellation(DiscoveryRound::TimedOut),
        Err(VideoEncodeError::Transport(
            "No constellation services found on local network".to_string()
        ))
    );
    assert!(needs_fallback(&DiscoveryRound::TimedOut));
    assert_eq!(
        DiscoveryService::new().discover_all_constellations(DiscoveryRound::Failed("no socket".to_string())),
        Err(VideoEncodeError::Transport("no socket".to_string()))
    );
    assert!(needs_fallback(&DiscoveryRound::Failed("x".to_string())));
}

#[test]
fn a_node_without_a_constellation_falls_back_to_this_machine() {
    assert!(needs_discovery(&None));
    assert!(!needs_discovery(&Some("http://c:3030".to_string())));
    let config = NodeAutoRegister::create_with_discovery_fallback(None, None, Some("n1".to_string()), capabilities(), 30);
    assert_eq!(
        config,
        AutoRegisterConfig {
            constellation_url: "http://localhost:3030".to_string(),
            node_name: "n1".to_string(),
            capabilities: capabilities(),
            heartbeat_interval: 30,
        }
    );
    let config = NodeAutoRegister::create_with_discovery_fallback(
        None,
        Some("http://10.0.0.5:3030".to_string()),
        Some("n1".to_string()),
        capabilities(),
        30,
    );
    assert_eq!(config.constellation_url, "http://10.0.0.5:3030");
    let config = NodeAutoRegister::create_with_discovery_fallback(
        Some("http://given:3030".to_string()),
        Some("http://10.0.0.5:3030".to_string()),
        None,
        capabilities(),
        30,
    );
    assert_eq!(config.constellation_url, "http://given:3030");
    assert!(!config.node_name.is_empty());

    let config = auto_register_config(None, None, None, None, 0xab, capabilities(), 5);
    assert_eq!(config.node_name, "node-000000000000000000000000000000ab");
    assert_eq!(config.heartbeat_interval, 5);
    assert_eq!(choose_node_name(None, Some("render-01".to_string()), 1), "render-01");
    assert_eq!(
        choose_node_name(Some("given".to_string()), Some("render-01".to_string()), 1),
        "given"
    );

    let config =
        NodeAutoRegister::create_with_discovery(Ok("http://10.0.0.5:3030".to_string()), Some("n".to_string()), capabilities(), 30)
            .unwrap();
    assert_eq!(config.constellation_url, "http://10.0.0.5:3030");
    assert_eq!(config.node_name, "n");
    assert_eq!(
        NodeAutoRegister::create_with_discovery(
            Err(VideoEncodeError::Transport("nothing there".to_string())),
            None,
            capabilities(),
            30
        ),
        Err(VideoEncodeError::Transport(
            "Constellation discovery failed: Network transport error: nothing there".to_string()
        ))
    );
}

#[test]
fn registration_and_heartbeat() {
    let config = AutoRegisterConfig {
        constellation_url: "http://c:3030".to_string(),
        node_name: "n1".to_string(),
        capabilities: capabilities(),
        heartbeat_interval: 30,
    };
    let mut node = NodeAutoRegister::new(config, "10.0.0.7:50051".to_string());
    assert_eq!(node.registration_url(), "http://c:3030/api/nodes");
    assert_eq!(node.registration().address, "10.0.0.7:50051");
    assert_eq!(node.registration().capabilities, capabilities());
    assert_eq!(node.heartbeat_url(), None);
    assert_eq!(node.start_heartbeat_service(HeartbeatEvent::Tick), HeartbeatAction::Stop);

    for (reply, message) in [
        (RegistrationReply::Unsent("refused".to_string()), "Failed to send registration request: refused"),
        (
            RegistrationReply::Refused("500 Internal Server Error".to_string()),
            "Registration failed with status: 500 Internal Server Error",
        ),
        (
            RegistrationReply::Unreadable("not json".to_string()),
            "Failed to parse registration response: not json",
        ),
        (RegistrationReply::Accepted(None), "No node_id in registration response"),
        (
            RegistrationReply::Accepted(Some("12345".to_string())),
            "Invalid node_id format: 12345",
        ),
    ] {
        assert_eq!(node.register(reply), Err(VideoEncodeError::Transport(message.to_string())));
        assert_eq!(node.node_id, None);
    }
    let text = "a1a2a3a4-b1b2-c1c2-d1d2-d3d4d5d6d7d8";
    assert_eq!(
        node.register(RegistrationReply::Accepted(Some(text.to_string()))),
        Ok(0xa1a2a3a4b1b2c1c2d1d2d3d4d5d6d7d8)
    );
    assert_eq!(node.node_id, Some(0xa1a2a3a4b1b2c1c2d1d2d3d4d5d6d7d8));
    let url = format!("http://c:3030/api/nodes/{}/heartbeat", text);
    assert_eq!(node.heartbeat_url(), Some(url.clone()));
    assert_eq!(
        node.start_heartbeat_service(HeartbeatEvent::Tick),
        HeartbeatAction::Send { url: url.clone() }
    );
    assert_eq!(node.start_heartbeat_service(HeartbeatEvent::Delivered), HeartbeatAction::Wait);
    // One miss is tried again at the next tick; the second in a row is not.
    assert_eq!(node.start_heartbeat_service(HeartbeatEvent::Missed), HeartbeatAction::Wait);
    assert_eq!(node.missed, 1);
    assert_eq!(node.start_heartbeat_service(HeartbeatEvent::Tick), HeartbeatAction::Send { url });
    assert_eq!(node.start_heartbeat_service(HeartbeatEvent::Missed), HeartbeatAction::Reregister);
    assert_eq!(
        node.start_heartbeat_service(HeartbeatEvent::ReregisterFailed),
        HeartbeatAction::Pause { seconds: 60 }
    );
    assert_eq!(node.start_heartbeat_service(HeartbeatEvent::Missed), HeartbeatAction::Reregister);
    assert_eq!(node.start_heartbeat_service(HeartbeatEvent::Reregistered), HeartbeatAction::Wait);
    assert_eq!(node.missed, 0);
    assert_eq!(node.start_heartbeat_service(HeartbeatEvent::Missed), HeartbeatAction::Wait);
    assert_eq!(node.start_heartbeat_service(HeartbeatEvent::Delivered), HeartbeatAction::Wait);
    assert_eq!(node.start_heartbeat_service(HeartbeatEvent::Missed), HeartbeatAction::Wait);
}

#[test]
fn memory_is_read_from_meminfo() {
    let text = "MemFree:  1 kB\nMemTotal:       16384256 kB\nMemTotal: 1 kB\n";
    assert_eq!(detect_system_memory_gb(text), Some(15));
    assert_eq!(detect_system_memory_gb("MemTotal:\t33554432 kB\r\n"), Some(32));
    assert_eq!(detect_system_memory_gb("MemTotal: 1048575 kB"), Some(0));
    assert_eq!(detect_system_memory_gb("MemTotal:"), None);
    assert_eq!(detect_system_memory_gb("MemTotal: lots kB"), None);
    assert_eq!(detect_system_memory_gb("MemTotal:123"), None);
    assert_eq!(detect_system_memory_gb("SwapTotal: 5 kB\n"), None);
    assert_eq!(detect_system_memory_gb(""), None);
    assert_eq!(detect_system_memory_gb(" MemTotal: 2097152 kB"), None);
    assert_eq!(
        detect_system_memory_gb("MemTotal: 18446744073709551615 kB"),
        Some(u32::MAX)
    );
}

#[test]
fn encoders_are_read_from_the_listing() {
    let listing = " V..... libx264   H.264\n V..... libvpx-vp9 VP9\n A..... aac\n";
    assert_eq!(detect_available_encoders(Some(listing)), vec!["h264", "vp9"]);
    assert_eq!(
        detect_available_encoders(Some("libvpx-vp9 libaom-av1 libx265 libx264")),
        vec!["h264", "hevc", "av1", "vp9"]
    );
    assert_eq!(detect_available_encoders(Some("aac mp3")), vec!["h264"]);
    assert_eq!(detect_available_encoders(None), vec!["h264"]);
}

#[test]
fn capabilities_from_findings_and_overrides() {
    let found = capabilities_from(None, None, None, None, 8, Some("MemTotal: 8388608 kB"), Some("libx265"));
    assert_eq!(
        found,
        NodeCapabilities {
            max_concurrent_chunks: 4,
            supported_encoders: vec!["hevc".to_string()],
            cpu_cores: 8,
            memory_gb: 8,
        }
    );
    assert_eq!(capabilities_from(None, None, None, None, 1, None, None).max_concurrent_chunks, 1);
    assert_eq!(capabilities_from(None, None, None, None, 3, None, None).max_concurrent_chunks, 1);
    assert_eq!(capabilities_from(None, None, None, None, 1, None, None).memory_gb, 8);
    assert_eq!(capabilities_from(None, None, None, None, 1, Some("junk"), None).memory_gb, 8);
    let told = capabilities_from(
        Some(32),
        Some(64),
        Some(3),
        Some(" av1 , h264,hevc ".to_string()),
        8,
        Some("MemTotal: 8388608 kB"),
        Some("libx265"),
    );
    assert_eq!(
        told,
        NodeCapabilities {
            max_concurrent_chunks: 3,
            supported_encoders: vec!["av1".to_string(), "h264".to_string(), "hevc".to_string()],
            cpu_cores: 32,
            memory_gb: 64,
        }
    );
    assert_eq!(capabilities_from(Some(0), None, None, None, 8, None, None).max_concurrent_chunks, 1);
    assert_eq!(capabilities_from(Some(40), None, None, None, 8, None, None).max_concurrent_chunks, 20);
    let detected = detect_node_capabilities(None, None, None, None, None, None);
    assert!(detected.cpu_cores >= 1);
    assert!(detected.max_concurrent_chunks >= 1);
    assert_eq!(detected.memory_gb, 8);
    assert_eq!(detected.supported_encoders, vec!["h264"]);
}

#[test]
fn node_command_line() {
    let cli = Cli {
        config_file: None,
        address: Some("0.0.0.0:6000".to_string()),
        temp_dir: Some("/scratch/node".to_string()),
        no_auto_register: false,
        constellation_url: None,
        node_name: None,
        cpu_cores: None,
        memory_gb: None,
        max_chunks: None,
        encoders: None,
        no_heartbeat: true,
        heartbeat_interval: 30,
    };
    assert!(cli.should_auto_register());
    assert!(!cli.should_enable_heartbeat());
    let settings = load_settings_with_cli_overrides(&cli, Settings::default());
    assert_eq!(settings.node.address, "0.0.0.0:6000");
    assert_eq!(settings.node.temp_dir, "/scratch/node");
    assert_eq!(settings.client, Settings::default().client);
    let mut plain = cli.clone();
    plain.address = None;
    plain.temp_dir = None;
    assert_eq!(load_settings_with_cli_overrides(&plain, Settings::default()), Settings::default());

    assert_eq!(registration_address(Some("1.2.3.4:9"), "10.0.0.7", "0.0.0.0:50051"), "1.2.3.4:9");
    assert_eq!(registration_address(None, "10.0.0.7", "0.0.0.0:50051"), "10.0.0.7:50051");
    assert_eq!(registration_address(None, "10.0.0.7", "nonsense"), "10.0.0.7:8080");
}

#[test]
fn the_fallback_scan_stops_at_the_first_host_that_is_up() {
    let service = DiscoveryService::new();
    let candidates = service.fallback_candidates(Some(ip(10, 0, 0, 7)));
    let probed = |up: &[usize]| -> Vec<(Candidate, bool)> {
        candidates.iter().cloned().enumerate().map(|(i, c)| (c, up.contains(&i))).collect()
    };
    assert_eq!(service.fallback_discover(probed(&[])), vec![]);
    assert_eq!(service.fallback_discover(vec![]), vec![]);
    assert_eq!(
        service.fallback_discover(probed(&[3, 5])),
        vec![ConstellationInfo {
            name: "node-10".to_string(),
            address: "10.0.0.10:3030".to_string(),
            url: "http://10.0.0.10:3030".to_string(),
        }]
    );
    assert_eq!(service.fallback_discover(probed(&[0, 1])), vec![info("localhost", "127.0.0.1")]);
}

#[test]
fn what_the_query_found_is_kept_however_it_ended() {
    let service = DiscoveryService::new();
    let found = vec![info("a", "10.0.0.1")];
    for end in [
        QueryEnd::Finished,
        QueryEnd::TimedOut,
        QueryEnd::StreamFailed("reset".to_string()),
    ] {
        assert_eq!(service.mdns_discover(found.clone(), end.clone()), DiscoveryRound::Found(found.clone()));
        assert_eq!(service.mdns_discover(vec![], end), DiscoveryRound::Found(vec![]));
    }
    assert_eq!(
        service.mdns_discover(found, QueryEnd::NotStarted("no socket".to_string())),
        DiscoveryRound::Failed("no socket".to_string())
    );
    // Nobody answers the query, nobody answers the probes: the empty set.
    let nothing = service.mdns_discover(vec![], QueryEnd::TimedOut);
    assert!(needs_fallback(&nothing));
    let candidates = service.fallback_candidates(None);
    let probed = candidates.into_iter().map(|c| (c, false)).collect();
    let after = DiscoveryRound::Found(service.fallback_discover(probed));
    assert_eq!(service.discover_all_constellations(after), Ok(vec![]));
}
