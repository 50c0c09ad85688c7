//! Finding the constellation on the local network.
//!
//! The caller sends the multicast query and the health probes. What the
//! answers mean, which hosts are worth probing, and what counts as found is
//! decided here.

use vstd::prelude::*;
use vstd::string::*;
use crate::error::{ErrorKind, VideoEncodeError};
use crate::net::{
    format_host_port,
    format_http_url,
    format_ipv4,
    host_port_text,
    http_url,
    ipv4_of,
    ipv4_text,
    parse_ipv4,
    Ipv4,
};
use crate::text::{concat3, decimal, from_chars, push_decimal, same_text, to_chars};
use crate::words::{contains, copy_range, find_in, has_prefix, starts_with};

verus! {

/// The port on which a constellation listens unless told otherwise.
pub const DEFAULT_PORT: u16 = 3030;

/// Seconds after which a discovery is given up.
pub const DISCOVERY_TIMEOUT_SECS: u64 = 5;

/// Seconds for which answers to the multicast query are awaited.
pub const MDNS_QUERY_TIMEOUT_SECS: u64 = 3;

/// Milliseconds that a health probe may take.
pub const HEALTH_PROBE_TIMEOUT_MS: u64 = 500;

/// The service name that is queried for.
pub open spec fn service_name() -> Seq<char> {
    "_ferris-swarm._tcp.local"@
}

/// The service type under which constellations advertise themselves.
pub open spec fn service_type() -> Seq<char> {
    "_ferris-swarm._tcp"@
}

/// Discovery of constellations by multicast DNS.
#[derive(Debug)]
pub struct DiscoveryService {
    service_name: String,
    service_type: String,
}

/// A constellation that was found and that answered its health probe.
#[derive(Debug, Clone, PartialEq, Eq)]
pub struct ConstellationInfo {
    /// The name under which it was found.
    pub name: String,
    /// Its host and port, with a colon between them.
    pub address: String,
    /// The address of its HTTP interface.
    pub url: String,
}

/// What one record of a DNS response holds, as far as discovery reads it.
#[derive(Debug, Clone, PartialEq, Eq)]
pub enum RecordKind {
    /// An address record.
    A(Ipv4),
    /// A service record, with the service's port and host.
    Srv { port: u16, target: String },
    /// A text record: its strings, in order.
    Txt(Vec<String>),
    /// Any other record.
    Other,
}

/// One record of a DNS response.
#[derive(Debug, Clone, PartialEq, Eq)]
pub struct Record {
    /// The name that the record is about.
    pub name: String,
    /// What it says.
    pub kind: RecordKind,
}

/// A host that may be a constellation: not yet probed.
#[derive(Debug, Clone, PartialEq, Eq)]
pub struct Candidate {
    /// The name to list it under.
    pub name: String,
    /// Its address or host name.
    pub host: String,
    /// Its port.
    pub port: u16,
}

/// What the records read so far have said of the service.
pub struct Sighting {
    pub address: Option<Ipv4>,
    pub port: Option<u16>,
}

/// The address after the text strings `strings` have been read, in order: a
/// string `ip=` followed by an address in dotted notation sets it, any other
/// string leaves it as it was.
pub open spec fn txt_address(strings: Seq<String>, start: Option<Ipv4>) -> Option<Ipv4>
    decreases strings.len(),
{
    if strings.len() == 0 {
        start
    } else {
        let before = txt_address(strings.drop_last(), start);
        let s = strings.last()@;
        if starts_with(s, "ip="@) && ipv4_of(s.subrange(3, s.len() as int)) is Some {
            ipv4_of(s.subrange(3, s.len() as int))
        } else {
            before
        }
    }
}

/// What `records`, read in order, say of the service. Only records whose
/// name holds the service type count. An address record sets the address, a
/// service record the port, a text record may set the address; a later record
/// overrides an earlier one.
pub open spec fn sighted(records: Seq<Record>) -> Sighting
    decreases records.len(),
{
    if records.len() == 0 {
        Sighting { address: None, port: None }
    } else {
        let s = sighted(records.drop_last());
        let r = records.last();
        if !contains(r.name@, service_type()) {
            s
        } else {
            match r.kind {
                RecordKind::A(ip) => Sighting { address: Some(ip), ..s },
                RecordKind::Srv { port, target } => Sighting { port: Some(port), ..s },
                RecordKind::Txt(strings) => Sighting {
                    address: txt_address(strings@, s.address),
                    ..s
                },
                RecordKind::Other => s,
            }
        }
    }
}

/// The name for a response that carries no host name.
pub open spec fn unknown_host() -> Seq<char> {
    "unknown"@
}

impl Candidate {
    /// The address that is probed to see whether the host is a constellation.
    pub open spec fn health_url_text(&self) -> Seq<char> {
        http_url(self.host@, self.port) + "/api/health"@
    }

    /// The address that is probed to see whether the host is a constellation.
    pub fn health_url(&self) -> (url: String)
        ensures
            url@ == self.health_url_text(),
    {
        let mut url = format_http_url(self.host.as_str(), self.port);
        url.append("/api/health");
        url
    }

    /// The candidate after its health probe: a constellation where the probe
    /// got a good answer, nothing where it did not.
    pub fn confirm(self, healthy: bool) -> (r: Option<ConstellationInfo>)
        ensures
            !healthy ==> r is None,
            healthy ==> r is Some && r->0.name@ == self.name@ && r->0.address@ == host_port_text(
                self.host@,
                self.port,
            ) && r->0.url@ == http_url(self.host@, self.port),
    {
        if !healthy {
            return None;
        }
        let address = format_host_port(self.host.as_str(), self.port);
        let url = format_http_url(self.host.as_str(), self.port);
        Some(ConstellationInfo { name: self.name, address, url })
    }
}

fn read_txt(strings: &Vec<String>, start: Option<Ipv4>) -> (r: Option<Ipv4>)
    ensures
        r == txt_address(strings@, start),
{
    let prefix = to_chars("ip=");
    proof {
        reveal_strlit("ip=");
    }
    let mut address = start;
    let n = strings.len();
    let mut i: usize = 0;
    proof {
        assert(strings@.subrange(0, 0) =~= Seq::<String>::empty());
    }
    while i < n
        invariant
            i <= n,
            n == strings@.len(),
            prefix@ == "ip="@,
            prefix@.len() == 3,
            address == txt_address(strings@.subrange(0, i as int), start),
        decreases n - i,
    {
        proof {
            assert(strings@.subrange(0, i + 1).drop_last() =~= strings@.subrange(0, i as int));
            assert(strings@.subrange(0, i + 1).last() == strings@[i as int]);
        }
        let chars = to_chars(strings[i].as_str());
        if has_prefix(chars.as_slice(), prefix.as_slice()) {
            let rest = copy_range(chars.as_slice(), 3, chars.len());
            match parse_ipv4(rest.as_slice()) {
                Some(ip) => {
                    address = Some(ip);
                },
                None => {},
            }
        }
        i += 1;
    }
    proof {
        assert(strings@.subrange(0, n as int) =~= strings@);
    }
    address
}

/// One constellation is listed once: `found` takes the place of the entry
/// with the same name where there is one, and is added at the end where
/// there is none.
pub open spec fn listed(services: Seq<ConstellationInfo>, found: ConstellationInfo) -> Seq<
    ConstellationInfo,
> {
    let k = name_position(services, found.name@);
    if k < services.len() {
        services.update(k, found)
    } else {
        services.push(found)
    }
}

/// The position of the first entry with the name `name`; the length of
/// `services` where there is none.
pub open spec fn name_position(services: Seq<ConstellationInfo>, name: Seq<char>) -> int
    decreases services.len(),
{
    if services.len() == 0 {
        0
    } else if services[0].name@ == name {
        0
    } else {
        1 + name_position(services.drop_first(), name)
    }
}

/// Whether no two entries of `services` have the same name.
pub open spec fn names_differ(services: Seq<ConstellationInfo>) -> bool {
    forall|i: int, j: int|
        0 <= i < j < services.len() ==> services[i].name@ != services[j].name@
}

/// Lists a constellation that was found. The list stands for a map from
/// name to constellation: a name is listed once, and stays so.
pub fn record_service(services: &mut Vec<ConstellationInfo>, found: ConstellationInfo)
    ensures
        final(services)@ == listed(old(services)@, found),
        names_differ(old(services)@) ==> names_differ(final(services)@),
        final(services)@.contains(found),
{
    proof {
        if names_differ(services@) {
            lemma_listed_keeps_names_apart(services@, found);
        }
        lemma_listed_holds(services@, found);
    }
    let n = services.len();
    let mut k: usize = 0;
    proof {
        assert(services@.subrange(0, n as int) =~= services@);
    }
    while k < n
        invariant
            k <= n,
            n == services@.len(),
            services@ == old(services)@,
            name_position(services@, found.name@) == k + name_position(
                services@.subrange(k as int, n as int),
                found.name@,
            ),
        decreases n - k,
    {
        assert(services@.subrange(k as int, n as int)[0] == services@[k as int]);
        if same_text(services[k].name.as_str(), found.name.as_str()) {
            services[k] = found;
            return ;
        }
        proof {
            assert(services@.subrange(k as int, n as int).drop_first() =~= services@.subrange(
                k + 1,
                n as int,
            ));
        }
        k += 1;
    }
    services.push(found);
}

proof fn lemma_name_position(services: Seq<ConstellationInfo>, name: Seq<char>)
    ensures
        0 <= name_position(services, name) <= services.len(),
        name_position(services, name) < services.len() ==> services[name_position(
            services,
            name,
        )].name@ == name,
        forall|i: int| 0 <= i < name_position(services, name) ==> services[i].name@ != name,
    decreases services.len(),
{
    if services.len() > 0 && services[0].name@ != name {
        let rest = services.drop_first();
        lemma_name_position(rest, name);
        assert forall|i: int| 0 <= i < name_position(services, name) implies services[i].name@
            != name by {
            if i > 0 {
                assert(services[i] == rest[i - 1]);
            }
        }
    }
}

proof fn lemma_listed_holds(services: Seq<ConstellationInfo>, found: ConstellationInfo)
    ensures
        listed(services, found).contains(found),
{
    lemma_name_position(services, found.name@);
    let k = name_position(services, found.name@);
    if k < services.len() {
        assert(listed(services, found)[k] == found);
    } else {
        assert(listed(services, found)[services.len() as int] == found);
    }
}

/// Listing keeps the names apart, and the one that was found is listed.
pub proof fn lemma_listed_keeps_names_apart(
    services: Seq<ConstellationInfo>,
    found: ConstellationInfo,
)
    requires
        names_differ(services),
    ensures
        names_differ(listed(services, found)),
        listed(services, found).contains(found),
{
    lemma_name_position(services, found.name@);
    let k = name_position(services, found.name@);
    let after = listed(services, found);
    if k < services.len() {
        assert(after[k] == found);
        assert forall|i: int, j: int| 0 <= i < j < after.len() implies after[i].name@
            != after[j].name@ by {
            if i == k {
                assert(services[k].name@ != services[j].name@);
            } else if j == k {
                assert(services[i].name@ != services[k].name@);
            }
        }
    } else {
        assert(after[services.len() as int] == found);
    }
}

/// The position of the first candidate whose probe got a good answer; the
/// length of `probed` where none did.
pub open spec fn first_healthy(probed: Seq<(Candidate, bool)>) -> int
    decreases probed.len(),
{
    if probed.len() == 0 {
        0
    } else if probed[0].1 {
        0
    } else {
        1 + first_healthy(probed.drop_first())
    }
}

/// An interface address of this machine.
#[derive(Debug, Clone, Copy, PartialEq, Eq)]
pub struct InterfaceAddress {
    /// Whether it is a loopback address.
    pub loopback: bool,
    /// The address, where it is an IPv4 address.
    pub v4: Option<Ipv4>,
}

/// Asks the system for the addresses of its network interfaces, with
/// `if_addrs::get_if_addrs`, and keeps of each whether it is a loopback
/// address and, for an IPv4 address, its octets; where the system refuses,
/// its error text. The answer depends on the machine, so nothing is promised
/// of it.
#[verifier::external_body]
fn interface_addresses() -> (r: Result<Vec<InterfaceAddress>, String>) {
    match if_addrs::get_if_addrs() {
        Ok(list) => Ok(
            list.iter().map(
                |i| InterfaceAddress {
                    loopback: i.is_loopback(),
                    v4: match &i.addr {
                        if_addrs::IfAddr::V4(v4) => Some(octets_to_ipv4(v4.ip.octets())),
                        if_addrs::IfAddr::V6(_) => None,
                    },
                },
            ).collect(),
        ),
        Err(e) => Err(e.to_string()),
    }
}

/// The address with the octets `octets`.
pub fn octets_to_ipv4(octets: [u8; 4]) -> (ip: Ipv4)
    ensures
        ip == (Ipv4 { a: octets[0], b: octets[1], c: octets[2], d: octets[3] }),
{
    Ipv4 { a: octets[0], b: octets[1], c: octets[2], d: octets[3] }
}

/// The first IPv4 address of `addresses` that is no loopback address.
pub open spec fn first_usable(addresses: Seq<InterfaceAddress>) -> Option<Ipv4>
    decreases addresses.len(),
{
    if addresses.len() == 0 {
        None
    } else if !addresses[0].loopback && addresses[0].v4 is Some {
        addresses[0].v4
    } else {
        first_usable(addresses.drop_first())
    }
}

/// Picks this machine's address on the local network.
pub fn pick_local_ip(addresses: &Vec<InterfaceAddress>) -> (r: Option<Ipv4>)
    ensures
        r == first_usable(addresses@),
{
    let n = addresses.len();
    let mut i: usize = 0;
    proof {
        assert(addresses@.subrange(0, n as int) =~= addresses@);
    }
    while i < n
        invariant
            i <= n,
            n == addresses@.len(),
            first_usable(addresses@) == first_usable(addresses@.subrange(i as int, n as int)),
        decreases n - i,
    {
        assert(addresses@.subrange(i as int, n as int)[0] == addresses@[i as int]);
        if !addresses[i].loopback {
            match addresses[i].v4 {
                Some(ip) => {
                    return Some(ip);
                },
                None => {},
            }
        }
        proof {
            assert(addresses@.subrange(i as int, n as int).drop_first() =~= addresses@.subrange(
                i + 1,
                n as int,
            ));
        }
        i += 1;
    }
    None
}

/// The last octets that the fallback scan tries in the local network.
pub open spec fn scan_octets() -> Seq<u8> {
    seq![1u8, 10u8, 100u8, 101u8, 200u8]
}

/// The candidate `node-<d>` at the address of `local` with `d` as last octet.
pub open spec fn scan_candidate(local: Ipv4, d: u8) -> (Seq<char>, Seq<char>) {
    ("node-"@ + decimal(d as nat), ipv4_text(Ipv4 { d, ..local }))
}

/// The hosts that are probed when the multicast query has found nothing, as
/// name and host, in the order in which they are tried: this machine, the
/// host `constellation`, and, where this machine's address is known, five
/// common addresses of its network.
pub open spec fn fallback_hosts(local: Option<Ipv4>) -> Seq<(Seq<char>, Seq<char>)> {
    let fixed = seq![("localhost"@, "127.0.0.1"@), ("constellation"@, "constellation"@)];
    match local {
        Some(ip) => fixed + Seq::new(5, |i: int| scan_candidate(ip, scan_octets()[i])),
        None => fixed,
    }
}

impl DiscoveryService {
    /// The discovery of the service `_ferris-swarm._tcp`.
    pub fn new() -> (service: DiscoveryService)
        ensures
            service.name() == service_name(),
            service.kind() == service_type(),
    {
        DiscoveryService {
            service_name: String::from_str("_ferris-swarm._tcp.local"),
            service_type: String::from_str("_ferris-swarm._tcp"),
        }
    }

    /// The service name that is queried for.
    pub closed spec fn name(&self) -> Seq<char> {
        self.service_name@
    }

    /// The service type that records are matched against.
    pub closed spec fn kind(&self) -> Seq<char> {
        self.service_type@
    }

    /// The service name that is queried for.
    pub fn query_name(&self) -> (name: String)
        ensures
            name@ == self.name(),
    {
        self.service_name.clone()
    }

    /// The name under which the constellation on the host `hostname`
    /// advertises itself.
    pub fn instance_name(&self, hostname: &str) -> (name: String)
        ensures
            name@ == hostname@ + "."@ + self.name(),
    {
        concat3(hostname, ".", self.service_name.as_str())
    }

    /// Reads one response to the multicast query.
    ///
    /// Where its records give both an address and a port for the service,
    /// the result is the host to probe, listed under the response's host
    /// name, or under `unknown` where it has none. Otherwise there is none.
    pub fn parse_mdns_response(&self, hostname: Option<&str>, records: &Vec<Record>) -> (r: Option<
        Candidate,
    >)
        ensures
            match (sighted(records@).address, sighted(records@).port) {
                (Some(ip), Some(port)) => r is Some && r->0.host@ == ipv4_text(ip) && r->0.port
                    == port && r->0.name@ == match hostname {
                    Some(h) => h@,
                    None => unknown_host(),
                },
                _ => r is None,
            },
    {
        let wanted = to_chars("_ferris-swarm._tcp");
        let mut address: Option<Ipv4> = None;
        let mut port: Option<u16> = None;
        let n = records.len();
        let mut i: usize = 0;
        proof {
            assert(records@.subrange(0, 0) =~= Seq::<Record>::empty());
        }
        while i < n
            invariant
                i <= n,
                n == records@.len(),
                wanted@ == service_type(),
                sighted(records@.subrange(0, i as int)) == (Sighting { address, port }),
            decreases n - i,
        {
            proof {
                assert(records@.subrange(0, i + 1).drop_last() =~= records@.subrange(0, i as int));
                assert(records@.subrange(0, i + 1).last() == records@[i as int]);
            }
            let record = &records[i];
            let name = to_chars(record.name.as_str());
            if find_in(name.as_slice(), wanted.as_slice()) {
                match &record.kind {
                    RecordKind::A(ip) => {
                        address = Some(*ip);
                    },
                    RecordKind::Srv { port: p, target } => {
                        port = Some(*p);
                    },
                    RecordKind::Txt(strings) => {
                        address = read_txt(strings, address);
                    },
                    RecordKind::Other => {},
                }
            }
            i += 1;
        }
        proof {
            assert(records@.subrange(0, n as int) =~= records@);
        }
        match (address, port) {
            (Some(ip), Some(p)) => {
                let name = match hostname {
                    Some(h) => String::from_str(h),
                    None => String::from_str("unknown"),
                };
                Some(Candidate { name, host: format_ipv4(ip), port: p })
            },
            _ => None,
        }
    }

    /// The hosts to probe when the multicast query has found nothing, all on
    /// the default port, in the order in which they are to be tried.
    pub fn fallback_candidates(&self, local: Option<Ipv4>) -> (out: Vec<Candidate>)
        ensures
            out@.len() == fallback_hosts(local).len(),
            forall|i: int|
                0 <= i < out@.len() ==> (#[trigger] out@[i]).name@ == fallback_hosts(local)[i].0
                    && out@[i].host@ == fallback_hosts(local)[i].1 && out@[i].port == DEFAULT_PORT,
    {
        let mut out: Vec<Candidate> = Vec::new();
        out.push(
            Candidate {
                name: String::from_str("localhost"),
                host: String::from_str("127.0.0.1"),
                port: DEFAULT_PORT,
            },
        );
        out.push(
            Candidate {
                name: String::from_str("constellation"),
                host: String::from_str("constellation"),
                port: DEFAULT_PORT,
            },
        );
        match local {
            Some(ip) => {
                let octets: [u8; 5] = [1, 10, 100, 101, 200];
                let mut i: usize = 0;
                while i < 5
                    invariant
                        i <= 5,
                        out@.len() == 2 + i,
                        local == Some(ip),
                        octets@ == scan_octets(),
                        forall|k: int|
                            0 <= k < out@.len() ==> (#[trigger] out@[k]).name@ == fallback_hosts(
                                local,
                            )[k].0 && out@[k].host@ == fallback_hosts(local)[k].1 && out@[k].port
                                == DEFAULT_PORT,
                    decreases 5 - i,
                {
                    let d = octets[i];
                    let mut name = to_chars("node-");
                    push_decimal(&mut name, d as u64);
                    let host = format_ipv4(Ipv4 { a: ip.a, b: ip.b, c: ip.c, d });
                    out.push(
                        Candidate { name: from_chars(name.as_slice()), host, port: DEFAULT_PORT },
                    );
                    i += 1;
                }
            },
            None => {},
        }
        out
    }

    /// What the fallback scan has found, given the candidates in the order
    /// in which they were tried, each with whether its probe got a good
    /// answer: the first one that is up, and no more; nothing where none is.
    pub fn fallback_discover(&self, probed: Vec<(Candidate, bool)>) -> (found: Vec<
        ConstellationInfo,
    >)
        ensures
            first_healthy(probed@) >= probed@.len() ==> found@.len() == 0,
            first_healthy(probed@) < probed@.len() ==> {
                let c = probed@[first_healthy(probed@)].0;
                &&& found@.len() == 1
                &&& found@[0].name@ == c.name@
                &&& found@[0].address@ == host_port_text(c.host@, c.port)
                &&& found@[0].url@ == http_url(c.host@, c.port)
            },
    {
        let mut found: Vec<ConstellationInfo> = Vec::new();
        let ghost all = probed@;
        let mut rest = probed;
        let n = rest.len();
        let mut k: usize = 0;
        proof {
            assert(all.subrange(0, n as int) =~= all);
        }
        while k < n
            invariant
                k <= n,
                n == all.len(),
                rest@ == all,
                all == probed@,
                found@.len() == 0,
                first_healthy(all) == k + first_healthy(all.subrange(k as int, n as int)),
            decreases n - k,
        {
            assert(all.subrange(k as int, n as int)[0] == all[k as int]);
            if rest[k].1 {
                let (candidate, up) = rest.swap_remove(k);
                match candidate.confirm(up) {
                    Some(info) => {
                        found.push(info);
                    },
                    None => {},
                }
                return found;
            }
            proof {
                assert(all.subrange(k as int, n as int).drop_first() =~= all.subrange(
                    k + 1,
                    n as int,
                ));
            }
            k += 1;
        }
        found
    }

    /// The first non-loopback IPv4 address among this machine's interfaces.
    ///
    /// Which interfaces there are is the system's answer. Where it gives
    /// none that will do, the error says so; where it refuses to answer, the
    /// error carries its text.
    pub fn get_local_ip(&self) -> (r: Result<Ipv4, VideoEncodeError>)
        ensures
            r is Err ==> r->Err_0.kind() == ErrorKind::Io || r->Err_0.says(
                ErrorKind::Transport,
                "No suitable network interface found"@,
            ),
    {
        local_ip_of(interface_addresses())
    }
}

/// This machine's address on the local network, given what the system said
/// of its interfaces: the first IPv4 address that is no loopback address.
/// Where there is none, the error says so; where the system refused to
/// answer, the error carries its text.
pub fn local_ip_of(answer: Result<Vec<InterfaceAddress>, String>) -> (r: Result<
    Ipv4,
    VideoEncodeError,
>)
    ensures
        match answer {
            Ok(list) => match first_usable(list@) {
                Some(ip) => r == Ok::<Ipv4, VideoEncodeError>(ip),
                None => r is Err && r->Err_0.says(
                    ErrorKind::Transport,
                    "No suitable network interface found"@,
                ),
            },
            Err(text) => r is Err && r->Err_0.says(ErrorKind::Io, text@),
        },
{
    match answer {
        Ok(list) => local_ip_from(pick_local_ip(&list)),
        Err(text) => Err(VideoEncodeError::Io(text)),
    }
}

/// The verdict on the search for this machine's address.
pub fn local_ip_from(picked: Option<Ipv4>) -> (r: Result<Ipv4, VideoEncodeError>)
    ensures
        match picked {
            Some(ip) => r == Ok::<Ipv4, VideoEncodeError>(ip),
            None => r is Err && r->Err_0.says(
                ErrorKind::Transport,
                "No suitable network interface found"@,
            ),
        },
{
    match picked {
        Some(ip) => Ok(ip),
        None => Err(
            VideoEncodeError::Transport(String::from_str("No suitable network interface found")),
        ),
    }
}

impl DiscoveryService {
    /// What the multicast query comes to, given the constellations that
    /// were found and confirmed while it ran, and how it ended.
    ///
    /// A query that could not be started has failed. However else it ended,
    /// at its end, on a broken stream or at its time limit, what was found
    /// until then is kept.
    pub fn mdns_discover(&self, found: Vec<ConstellationInfo>, end: QueryEnd) -> (round:
        DiscoveryRound)
        ensures
            round == match end {
                QueryEnd::NotStarted(text) => DiscoveryRound::Failed(text),
                _ => DiscoveryRound::Found(found),
            },
    {
        match end {
            QueryEnd::NotStarted(text) => DiscoveryRound::Failed(text),
            _ => DiscoveryRound::Found(found),
        }
    }

    /// All constellations that a round of discovery found. A round in which
    /// nobody answered, be it at its end or at the time limit, found none:
    /// that is no error. A round that could not be run is one.
    pub fn discover_all_constellations(&self, round: DiscoveryRound) -> (r: Result<
        Vec<ConstellationInfo>,
        VideoEncodeError,
    >)
        ensures
            match round {
                DiscoveryRound::Found(list) => r is Ok && r->Ok_0 == list,
                DiscoveryRound::Failed(text) => r is Err && r->Err_0.says(
                    ErrorKind::Transport,
                    text@,
                ),
                DiscoveryRound::TimedOut => r is Ok && r->Ok_0@.len() == 0,
            },
    {
        match round {
            DiscoveryRound::Found(list) => Ok(list),
            DiscoveryRound::Failed(text) => Err(VideoEncodeError::Transport(text)),
            DiscoveryRound::TimedOut => Ok(Vec::new()),
        }
    }

    /// The constellation to use after a round of discovery: the first that
    /// was found. A round that found none is an error that says so, and so
    /// is one that was given up at the time limit; one that could not be run
    /// is an error with its own text.
    pub fn discover_constellation(&self, round: DiscoveryRound) -> (r: Result<
        ConstellationInfo,
        VideoEncodeError,
    >)
        ensures
            match round {
                DiscoveryRound::Found(list) => if list@.len() > 0 {
                    r is Ok && r->Ok_0 == list@[0]
                } else {
                    r is Err && r->Err_0.says(ErrorKind::Transport, none_found())
                },
                DiscoveryRound::Failed(text) => r is Err && r->Err_0.says(
                    ErrorKind::Transport,
                    text@,
                ),
                DiscoveryRound::TimedOut => r is Err && r->Err_0.says(
                    ErrorKind::Transport,
                    none_found(),
                ),
            },
    {
        match self.discover_all_constellations(round) {
            Ok(mut list) => {
                if list.len() > 0 {
                    Ok(list.remove(0))
                } else {
                    Err(
                        VideoEncodeError::Transport(
                            String::from_str("No constellation services found on local network"),
                        ),
                    )
                }
            },
            Err(e) => Err(e),
        }
    }
}

impl Default for DiscoveryService {
    fn default() -> (service: DiscoveryService)
        ensures
            service.name() == service_name(),
            service.kind() == service_type(),
    {
        DiscoveryService::new()
    }
}

/// How a round of discovery ended.
#[derive(Debug, Clone, PartialEq, Eq)]
pub enum DiscoveryRound {
    /// It found these constellations, and be they none.
    Found(Vec<ConstellationInfo>),
    /// It could not be run; the text says why.
    Failed(String),
    /// It was given up at the discovery timeout, with nothing in hand.
    TimedOut,
}

/// How the multicast query ended.
#[derive(Debug, Clone, PartialEq, Eq)]
pub enum QueryEnd {
    /// The stream of answers came to its end.
    Finished,
    /// The stream of answers broke; the text says how.
    StreamFailed(String),
    /// The time for answers was over.
    TimedOut,
    /// The query could not be sent; the text says why.
    NotStarted(String),
}

/// What a discovery that found nothing is reported with.
pub open spec fn none_found() -> Seq<char> {
    "No constellation services found on local network"@
}

/// Whether the fallback scan is due after the multicast query: it is when
/// the query failed or found nothing.
pub fn needs_fallback(mdns: &DiscoveryRound) -> (due: bool)
    ensures
        due == match *mdns {
            DiscoveryRound::Found(list) => list@.len() == 0,
            _ => true,
        },
{
    match mdns {
        DiscoveryRound::Found(list) => list.len() == 0,
        _ => true,
    }
}

} // verus!
