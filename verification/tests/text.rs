use ferris_swarm::net::{format_http_url, format_ipv4, listen_port, parse_ipv4, Ipv4};
use ferris_swarm::paths::{extension_is, join};
use ferris_swarm::text::{format_decimal, format_signed, parse_decimal, to_chars};
use ferris_swarm::words::{find_in, has_prefix, has_suffix, split_fields, split_on, trim};

fn chars(s: &str) -> Vec<char> {
    s.chars().collect()
}

fn strings(rows: Vec<Vec<char>>) -> Vec<String> {
    rows.into_iter().map(|r| r.into_iter().collect()).collect()
}

#[test]
fn decimal_numerals() {
    assert_eq!(format_decimal(0), "0");
    assert_eq!(format_decimal(7), "7");
    assert_eq!(format_decimal(10), "10");
    assert_eq!(format_decimal(3030), "3030");
    assert_eq!(format_decimal(u64::MAX), "18446744073709551615");
    assert_eq!(format_signed(-5), "-5");
    assert_eq!(format_signed(0), "0");
    assert_eq!(format_signed(i32::MIN), "-2147483648");
    assert_eq!(format_signed(i32::MAX), "2147483647");
}

#[test]
fn decimal_numerals_are_read_back() {
    assert_eq!(parse_decimal(&chars("0"), 255), Some(0));
    assert_eq!(parse_decimal(&chars("255"), 255), Some(255));
    assert_eq!(parse_decimal(&chars("256"), 255), None);
    assert_eq!(parse_decimal(&chars("007"), 255), Some(7));
    assert_eq!(parse_decimal(&chars("+12"), 255), Some(12));
    assert_eq!(parse_decimal(&chars("+"), 255), None);
    assert_eq!(parse_decimal(&chars(""), 255), None);
    assert_eq!(parse_decimal(&chars("12a"), 255), None);
    assert_eq!(parse_decimal(&chars("-1"), 255), None);
    assert_eq!(
        parse_decimal(&chars("18446744073709551615"), u64::MAX),
        Some(u64::MAX)
    );
    assert_eq!(parse_decimal(&chars("18446744073709551616"), u64::MAX), None);
    for n in [0u64, 9, 10, 99, 100, 65535, 1 << 40] {
        assert_eq!(parse_decimal(&chars(&format_decimal(n)), u64::MAX), Some(n));
    }
}

#[test]
fn characters_of_a_string() {
    assert_eq!(to_chars("aé✓"), vec!['a', 'é', '✓']);
    assert_eq!(to_chars(""), Vec::<char>::new());
}

#[test]
fn words_between_white_space() {
    assert_eq!(
        strings(split_fields(&chars("  -c:v  libx264\t-crf 23\n"))),
        vec!["-c:v", "libx264", "-crf", "23"]
    );
    assert_eq!(strings(split_fields(&chars(""))), Vec::<String>::new());
    assert_eq!(strings(split_fields(&chars("   "))), Vec::<String>::new());
    assert_eq!(strings(split_fields(&chars("one"))), vec!["one"]);
    assert_eq!(strings(split_fields(&chars("a\u{a0}b\u{3000}c"))), vec!["a", "b", "c"]);
}

#[test]
fn pieces_between_separators() {
    assert_eq!(strings(split_on(&chars("a,b,,c"), ',')), vec!["a", "b", "", "c"]);
    assert_eq!(strings(split_on(&chars(""), ',')), vec![""]);
    assert_eq!(strings(split_on(&chars(","), ',')), vec!["", ""]);
    assert_eq!(strings(split_on(&chars("abc"), ',')), vec!["abc"]);
}

#[test]
fn trimming() {
    assert_eq!(trim(&chars("  h264 \t")), chars("h264"));
    assert_eq!(trim(&chars("   ")), chars(""));
    assert_eq!(trim(&chars("")), chars(""));
    assert_eq!(trim(&chars("a b")), chars("a b"));
}

#[test]
fn searching() {
    assert!(find_in(&chars("x._ferris-swarm._tcp.local"), &chars("_ferris-swarm._tcp")));
    assert!(!find_in(&chars("x._other._tcp.local"), &chars("_ferris-swarm._tcp")));
    assert!(find_in(&chars("abc"), &chars("")));
    assert!(!find_in(&chars("ab"), &chars("abc")));
    assert!(has_prefix(&chars("ip=10.0.0.1"), &chars("ip=")));
    assert!(!has_prefix(&chars("i"), &chars("ip=")));
    assert!(has_suffix(&chars("chunk_0001.mp4"), &chars(".mp4")));
    assert!(!has_suffix(&chars("chunk_0001.mkv"), &chars(".mp4")));
}

#[test]
fn paths_are_joined_with_one_slash() {
    assert_eq!(join("/tmp", "ferris_swarm_jobs"), "/tmp/ferris_swarm_jobs");
    assert_eq!(join("/tmp/", "ferris_swarm_jobs"), "/tmp/ferris_swarm_jobs");
    assert_eq!(join("", "segments"), "segments");
    assert_eq!(join("/tmp", "/abs"), "/abs");
    assert_eq!(join("rel", ""), "rel/");
    assert_eq!(
        std::path::Path::new("/tmp").join("a").to_string_lossy(),
        join("/tmp", "a")
    );
}

#[test]
fn extensions() {
    assert!(extension_is("/x/chunk_0000.mp4", "mp4"));
    assert!(extension_is("a.b.mp4", "mp4"));
    assert!(!extension_is("/x/.mp4", "mp4"));
    assert!(!extension_is("/x/chunk.mp4/", "mp4"));
    assert!(!extension_is("/x.mp4/chunk", "mp4"));
    assert!(!extension_is("chunk_0000.mkv", "mp4"));
    assert!(!extension_is("mp4", "mp4"));
}

#[test]
fn addresses() {
    assert_eq!(
        parse_ipv4(&chars("192.168.1.101")),
        Some(Ipv4 { a: 192, b: 168, c: 1, d: 101 })
    );
    assert_eq!(parse_ipv4(&chars("0.0.0.0")), Some(Ipv4 { a: 0, b: 0, c: 0, d: 0 }));
    assert_eq!(parse_ipv4(&chars("255.255.255.255")), Some(Ipv4 { a: 255, b: 255, c: 255, d: 255 }));
    assert_eq!(parse_ipv4(&chars("256.1.1.1")), None);
    assert_eq!(parse_ipv4(&chars("1.2.3")), None);
    assert_eq!(parse_ipv4(&chars("1.2.3.4.5")), None);
    assert_eq!(parse_ipv4(&chars("01.2.3.4")), None);
    assert_eq!(parse_ipv4(&chars("1.2.3.+4")), None);
    assert_eq!(parse_ipv4(&chars("1..3.4")), None);
    assert_eq!(parse_ipv4(&chars("constellation")), None);
    assert_eq!(format_ipv4(Ipv4 { a: 10, b: 0, c: 0, d: 200 }), "10.0.0.200");
    assert_eq!(format_http_url("10.0.0.200", 3030), "http://10.0.0.200:3030");
}

#[test]
fn port_of_a_listening_address() {
    assert_eq!(listen_port("0.0.0.0:50051", 8080), 50051);
    assert_eq!(listen_port("0.0.0.0", 8080), 8080);
    assert_eq!(listen_port("host:notaport", 8080), 8080);
    assert_eq!(listen_port("host:70000", 8080), 8080);
    assert_eq!(listen_port("a:1:2", 8080), 1);
}
