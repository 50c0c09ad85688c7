//! How a node introduces itself to the constellation, and how it keeps in
//! touch.
//!
//! The caller sends the requests and keeps the time. What is sent where,
//! what an answer means, and what follows a failure is decided here.

use vstd::prelude::*;
use vstd::string::*;
use crate::chunk::copy_strings;
use crate::error::{labelled, ErrorKind, VideoEncodeError};
use crate::digest::hex_lower;
use crate::ids::{
    is_random_uuid,
    format_uuid,
    format_uuid_simple,
    fresh_uuid,
    parse_uuid,
    uuid_bytes,
    uuid_from_text,
    uuid_text,
};
use crate::models::{NodeCapabilities, NodeRegistration};
use crate::text::{
    parse_decimal,
    parse_unsigned,
    push_text,
    strings_from,
    texts,
    to_chars,
};
use crate::words::{
    contains,
    fields,
    find_in,
    has_prefix,
    pieces,
    rows,
    split_fields,
    split_on,
    starts_with,
    trim,
    trimmed,
};

verus! {

/// The constellation that a node turns to when it is told of none and finds
/// none.
pub open spec fn fallback_url() -> Seq<char> {
    "http://localhost:3030"@
}

/// Seconds that the node waits after a failed re-registration.
pub const REREGISTER_PAUSE_SECS: u64 = 60;

/// Seconds that a registration may take.
pub const REGISTER_TIMEOUT_SECS: u64 = 10;

/// Seconds that a heartbeat may take.
pub const HEARTBEAT_TIMEOUT_SECS: u64 = 5;

/// What a node needs in order to register and to keep in touch.
#[derive(Debug, Clone, PartialEq, Eq)]
pub struct AutoRegisterConfig {
    pub constellation_url: String,
    pub node_name: String,
    pub capabilities: NodeCapabilities,
    /// Seconds between two heartbeats.
    pub heartbeat_interval: u64,
}

/// A node's relation to its constellation.
#[derive(Debug, Clone, PartialEq, Eq)]
pub struct NodeAutoRegister {
    pub config: AutoRegisterConfig,
    /// The identifier under which the node is registered, once it is.
    pub node_id: Option<u128>,
    /// The address that the node registers with.
    pub node_address: String,
    /// How many heartbeats in a row have been missed.
    pub missed: u32,
}

/// How many heartbeats in a row may be missed before the node registers
/// anew.
pub const MISSES_BEFORE_REREGISTER: u32 = 2;

/// The count of missed heartbeats after the event `event`: a heartbeat that
/// is missed counts, one that is delivered and a registration that works
/// start the count anew, and all else leaves it.
pub open spec fn misses_after(missed: u32, event: HeartbeatEvent) -> u32 {
    match event {
        HeartbeatEvent::Missed => if missed < u32::MAX {
            (missed + 1) as u32
        } else {
            missed
        },
        HeartbeatEvent::Delivered => 0,
        HeartbeatEvent::Reregistered => 0,
        _ => missed,
    }
}

/// How a request for registration ended.
#[derive(Debug, Clone, PartialEq, Eq)]
pub enum RegistrationReply {
    /// The request did not get through; the text says why.
    Unsent(String),
    /// The constellation refused, with this status, written out.
    Refused(String),
    /// The constellation's answer could not be read; the text says why.
    Unreadable(String),
    /// The constellation answered, with this `node_id`, where its answer
    /// holds one that is a string.
    Accepted(Option<String>),
}

/// What a request for registration comes to: the node's identifier, or the
/// detail of the error.
pub open spec fn registration_verdict(reply: RegistrationReply) -> Result<u128, Seq<char>> {
    match reply {
        RegistrationReply::Unsent(text) => Err("Failed to send registration request: "@ + text@),
        RegistrationReply::Refused(status) => Err(
            "Registration failed with status: "@ + status@,
        ),
        RegistrationReply::Unreadable(text) => Err(
            "Failed to parse registration response: "@ + text@,
        ),
        RegistrationReply::Accepted(None) => Err("No node_id in registration response"@),
        RegistrationReply::Accepted(Some(text)) => match uuid_from_text(text@) {
            Some(id) => Ok(id),
            None => Err("Invalid node_id format: "@ + text@),
        },
    }
}

/// What the node is to do next to keep in touch.
#[derive(Debug, Clone, PartialEq, Eq)]
pub enum HeartbeatAction {
    /// Send a heartbeat to this address, reporting the status `online`.
    Send { url: String },
    /// Register anew.
    Reregister,
    /// Wait for the next tick.
    Wait,
    /// Wait for this many seconds, then for the next tick.
    Pause { seconds: u64 },
    /// Give up: the node is not registered.
    Stop,
}

/// What has happened since the last action.
#[derive(Debug, Clone, Copy, PartialEq, Eq, Structural)]
pub enum HeartbeatEvent {
    /// The interval has passed.
    Tick,
    /// The heartbeat was accepted.
    Delivered,
    /// The heartbeat failed: it did not get through, or was refused.
    Missed,
    /// The node has registered anew.
    Reregistered,
    /// The attempt to register anew failed.
    ReregisterFailed,
}

impl NodeAutoRegister {
    /// A node that is not registered yet.
    pub fn new(config: AutoRegisterConfig, node_address: String) -> (r: NodeAutoRegister)
        ensures
            r.config == config,
            r.node_id is None,
            r.node_address == node_address,
            r.missed == 0,
    {
        NodeAutoRegister { config, node_id: None, node_address, missed: 0 }
    }

    /// Where the node registers: `/api/nodes` at the constellation.
    pub fn registration_url(&self) -> (url: String)
        ensures
            url@ == self.config.constellation_url@ + "/api/nodes"@,
    {
        let mut url = self.config.constellation_url.clone();
        url.append("/api/nodes");
        url
    }

    /// What the node registers with: its address and its capabilities.
    pub fn registration(&self) -> (r: NodeRegistration)
        ensures
            r.address@ == self.node_address@,
            r.capabilities.max_concurrent_chunks == self.config.capabilities.max_concurrent_chunks,
            r.capabilities.cpu_cores == self.config.capabilities.cpu_cores,
            r.capabilities.memory_gb == self.config.capabilities.memory_gb,
            texts(r.capabilities.supported_encoders@) == texts(
                self.config.capabilities.supported_encoders@,
            ),
    {
        NodeRegistration {
            address: self.node_address.clone(),
            capabilities: NodeCapabilities {
                max_concurrent_chunks: self.config.capabilities.max_concurrent_chunks,
                supported_encoders: copy_strings(
                    &self.config.capabilities.supported_encoders,
                ),
                cpu_cores: self.config.capabilities.cpu_cores,
                memory_gb: self.config.capabilities.memory_gb,
            },
        }
    }

    /// Takes in how the request for registration ended.
    ///
    /// An answer that names the node's identifier registers the node under
    /// it. Anything else is a transport error that says what went wrong, and
    /// leaves the node as it was.
    pub fn register(&mut self, reply: RegistrationReply) -> (r: Result<u128, VideoEncodeError>)
        ensures
            match registration_verdict(reply) {
                Ok(id) => r == Ok::<u128, VideoEncodeError>(id) && final(self).node_id == Some(id),
                Err(detail) => r is Err && r->Err_0.says(ErrorKind::Transport, detail) && final(self).node_id == old(self).node_id,
            },
            final(self).config == old(self).config,
            final(self).node_address == old(self).node_address,
            final(self).missed == old(self).missed,
    {
        match reply {
            RegistrationReply::Unsent(text) => Err(
                VideoEncodeError::Transport(
                    labelled("Failed to send registration request: ", text.as_str()),
                ),
            ),
            RegistrationReply::Refused(status) => Err(
                VideoEncodeError::Transport(
                    labelled("Registration failed with status: ", status.as_str()),
                ),
            ),
            RegistrationReply::Unreadable(text) => Err(
                VideoEncodeError::Transport(
                    labelled(
                        "Failed to parse registration response: ",
                        text.as_str(),
                    ),
                ),
            ),
            RegistrationReply::Accepted(None) => Err(
                VideoEncodeError::Transport(
                    String::from_str("No node_id in registration response"),
                ),
            ),
            RegistrationReply::Accepted(Some(text)) => match parse_uuid(text.as_str()) {
                Some(id) => {
                    self.node_id = Some(id);
                    Ok(id)
                },
                None => Err(
                    VideoEncodeError::Transport(
                        labelled("Invalid node_id format: ", text.as_str()),
                    ),
                ),
            },
        }
    }

    /// Where the node's heartbeats go: `/api/nodes/<id>/heartbeat` at the
    /// constellation, for a node that is registered.
    pub fn heartbeat_url(&self) -> (url: Option<String>)
        ensures
            match self.node_id {
                Some(id) => url is Some && url->0@ == self.config.constellation_url@
                    + "/api/nodes/"@ + uuid_text(id) + "/heartbeat"@,
                None => url is None,
            },
    {
        match self.node_id {
            Some(id) => {
                let mut url = self.config.constellation_url.clone();
                url.append("/api/nodes/");
                url.append(format_uuid(id).as_str());
                url.append("/heartbeat");
                Some(url)
            },
            None => None,
        }
    }

    /// What the node does next to keep in touch.
    ///
    /// A node that is not registered stops. Otherwise: on a tick, a
    /// heartbeat is sent. One that is delivered is followed by a wait for
    /// the next tick, and so is one that is missed for the first time: it
    /// is tried again then. A second miss in a row is followed by an attempt
    /// to register anew. If that works, the node waits for the next tick; if
    /// it fails, it pauses for a minute first.
    pub fn start_heartbeat_service(&mut self, event: HeartbeatEvent) -> (action: HeartbeatAction)
        ensures
            final(self).config == old(self).config,
            final(self).node_id == old(self).node_id,
            final(self).node_address == old(self).node_address,
            match old(self).node_id {
                None => action == HeartbeatAction::Stop && final(self).missed == old(self).missed,
                Some(id) => final(self).missed == misses_after(old(self).missed, event) && match event {
                    HeartbeatEvent::Tick => action is Send && action->url@
                        == old(self).config.constellation_url@ + "/api/nodes/"@ + uuid_text(id)
                        + "/heartbeat"@,
                    HeartbeatEvent::Delivered => action == HeartbeatAction::Wait,
                    HeartbeatEvent::Missed => action == if final(self).missed
                        >= MISSES_BEFORE_REREGISTER {
                        HeartbeatAction::Reregister
                    } else {
                        HeartbeatAction::Wait
                    },
                    HeartbeatEvent::Reregistered => action == HeartbeatAction::Wait,
                    HeartbeatEvent::ReregisterFailed => action == (HeartbeatAction::Pause {
                        seconds: REREGISTER_PAUSE_SECS,
                    }),
                },
            },
    {
        match self.heartbeat_url() {
            None => HeartbeatAction::Stop,
            Some(url) => match event {
                HeartbeatEvent::Tick => HeartbeatAction::Send { url },
                HeartbeatEvent::Delivered => {
                    self.missed = 0;
                    HeartbeatAction::Wait
                },
                HeartbeatEvent::Missed => {
                    if self.missed < u32::MAX {
                        self.missed = self.missed + 1;
                    }
                    if self.missed >= MISSES_BEFORE_REREGISTER {
                        HeartbeatAction::Reregister
                    } else {
                        HeartbeatAction::Wait
                    }
                },
                HeartbeatEvent::Reregistered => {
                    self.missed = 0;
                    HeartbeatAction::Wait
                },
                HeartbeatEvent::ReregisterFailed => HeartbeatAction::Pause {
                    seconds: REREGISTER_PAUSE_SECS,
                },
            },
        }
    }
}

/// Asks the system for its host name with `hostname::get`, and gives it as
/// text; nothing where the system gives none. The answer depends on the
/// machine, so nothing is promised of it.
#[verifier::external_body]
fn host_name() -> (name: Option<String>) {
    hostname::get().ok().map(|h| h.to_string_lossy().to_string())
}

/// Asks the system with `num_cpus::get` how many logical processor cores
/// the process can use: at least one.
#[verifier::external_body]
fn cpu_count() -> (cores: usize)
    ensures
        cores >= 1,
{
    num_cpus::get()
}

/// The name that a node goes by: the one it is given, or else this
/// machine's host name, or else `node-` and the identifier `fallback_id`,
/// written as thirty-two hexadecimal digits.
pub open spec fn node_name_of(given: Option<String>, host: Option<String>, fallback_id: u128)
    -> Seq<char> {
    match given {
        Some(name) => name@,
        None => match host {
            Some(name) => name@,
            None => "node-"@ + hex_lower(uuid_bytes(fallback_id)),
        },
    }
}

/// Chooses the name that a node goes by.
pub fn choose_node_name(given: Option<String>, host: Option<String>, fallback_id: u128) -> (name:
    String)
    ensures
        name@ == node_name_of(given, host, fallback_id),
{
    match given {
        Some(name) => name,
        None => match host {
            Some(name) => name,
            None => labelled("node-", format_uuid_simple(fallback_id).as_str()),
        },
    }
}

/// The constellation that a node turns to: the one it is told of, or else
/// the one that discovery found, or else the one on this machine.
pub open spec fn constellation_url_of(given: Option<String>, discovered: Option<String>) -> Seq<
    char,
> {
    match given {
        Some(url) => url@,
        None => match discovered {
            Some(url) => url@,
            None => fallback_url(),
        },
    }
}

/// Whether a node has to look for a constellation: it has when it is told
/// of none.
pub fn needs_discovery(constellation_url: &Option<String>) -> (r: bool)
    ensures
        r == (*constellation_url is None),
{
    constellation_url.is_none()
}

/// Puts together what a node registers with, once it is known what
/// discovery found and what the machine is called.
///
/// The constellation is the one that was given, or else the one that was
/// discovered, or else `http://localhost:3030`; the name as
/// [`node_name_of`] says.
pub fn auto_register_config(
    constellation_url: Option<String>,
    discovered: Option<String>,
    node_name: Option<String>,
    host: Option<String>,
    fallback_id: u128,
    capabilities: NodeCapabilities,
    heartbeat_interval: u64,
) -> (config: AutoRegisterConfig)
    ensures
        config.constellation_url@ == constellation_url_of(constellation_url, discovered),
        config.node_name@ == node_name_of(node_name, host, fallback_id),
        config.capabilities == capabilities,
        config.heartbeat_interval == heartbeat_interval,
        constellation_url is None && discovered is None ==> config.constellation_url@
            == fallback_url(),
{
    let url = match constellation_url {
        Some(url) => url,
        None => match discovered {
            Some(url) => url,
            None => String::from_str("http://localhost:3030"),
        },
    };
    AutoRegisterConfig {
        constellation_url: url,
        node_name: choose_node_name(node_name, host, fallback_id),
        capabilities,
        heartbeat_interval,
    }
}

impl NodeAutoRegister {
    /// Puts together what a node registers with after a discovery: with the
    /// constellation that was found, or the error that discovery ended with.
    pub fn create_with_discovery(
        discovered: Result<String, VideoEncodeError>,
        node_name: Option<String>,
        capabilities: NodeCapabilities,
        heartbeat_interval: u64,
    ) -> (r: Result<AutoRegisterConfig, VideoEncodeError>)
        ensures
            match discovered {
                Ok(url) => r is Ok && r->Ok_0.constellation_url == url && r->Ok_0.capabilities
                    == capabilities && r->Ok_0.heartbeat_interval == heartbeat_interval && (
                node_name is Some ==> r->Ok_0.node_name == node_name->0) && (node_name is None
                    ==> exists|host: Option<String>, id: u128|
                    is_random_uuid(id) && r->Ok_0.node_name@ == #[trigger] node_name_of(
                        None,
                        host,
                        id,
                    )),
                Err(e) => r is Err && r->Err_0.says(
                    ErrorKind::Transport,
                    "Constellation discovery failed: "@ + e.message(),
                ),
            },
    {
        match discovered {
            Ok(url) => {
                let name = match node_name {
                    Some(name) => name,
                    None => {
                        let host = host_name();
                        let id = fresh_uuid();
                        let name = choose_node_name(None, host, id);
                        proof {
                            assert(is_random_uuid(id) && name@ == node_name_of(None, host, id));
                        }
                        name
                    },
                };
                Ok(
                    AutoRegisterConfig {
                        constellation_url: url,
                        node_name: name,
                        capabilities,
                        heartbeat_interval,
                    },
                )
            },
            Err(e) => Err(
                VideoEncodeError::Transport(
                    labelled("Constellation discovery failed: ", e.to_string().as_str()),
                ),
            ),
        }
    }

    /// Puts together what a node registers with, whatever discovery found.
    ///
    /// The constellation is the one that was given, or else the one that was
    /// discovered, or else `http://localhost:3030`. The name is the one that
    /// was given; without one, the machine is asked for its host name, and
    /// an identifier is drawn for the case that it has none.
    pub fn create_with_discovery_fallback(
        constellation_url: Option<String>,
        discovered: Option<String>,
        node_name: Option<String>,
        capabilities: NodeCapabilities,
        heartbeat_interval: u64,
    ) -> (config: AutoRegisterConfig)
        ensures
            config.constellation_url@ == constellation_url_of(constellation_url, discovered),
            constellation_url is None && discovered is None ==> config.constellation_url@
                == fallback_url(),
            node_name is Some ==> config.node_name@ == node_name->0@,
            node_name is None ==> exists|host: Option<String>, id: u128|
                is_random_uuid(id) && config.node_name@ == #[trigger] node_name_of(None, host, id),
            config.capabilities == capabilities,
            config.heartbeat_interval == heartbeat_interval,
    {
        let (host, fallback_id) = match &node_name {
            Some(_) => (None, 0u128),
            None => (host_name(), fresh_uuid()),
        };
        let config = auto_register_config(
            constellation_url,
            discovered,
            node_name,
            host,
            fallback_id,
            capabilities,
            heartbeat_interval,
        );
        proof {
            if node_name is None {
                assert(is_random_uuid(fallback_id) && config.node_name@ == node_name_of(
                    None,
                    host,
                    fallback_id,
                ));
            }
        }
        config
    }
}

// ---------------------------------------------------------------------------
// What the node can do
// ---------------------------------------------------------------------------

/// The memory that is assumed where the system tells of none, in gibibytes.
pub const DEFAULT_MEMORY_GB: u32 = 8;

/// The position of the first line of `lines` that begins with `MemTotal:`;
/// the length of `lines` where there is none.
pub open spec fn memory_line(lines: Seq<Seq<char>>) -> int
    decreases lines.len(),
{
    if lines.len() == 0 {
        0
    } else if starts_with(lines[0], "MemTotal:"@) {
        0
    } else {
        1 + memory_line(lines.drop_first())
    }
}

/// `n`, or the largest number of its type where `n` is larger.
pub open spec fn capped32(n: nat) -> u32 {
    if n > u32::MAX {
        u32::MAX
    } else {
        n as u32
    }
}

/// The memory, in gibibytes, that the text of `/proc/meminfo` tells of: the
/// second word of the first line that begins with `MemTotal:`, read as
/// kibibytes, in whole gibibytes.
pub open spec fn memory_gb_in(meminfo: Seq<char>) -> Option<u32> {
    let lines = pieces(meminfo, '\n');
    let k = memory_line(lines);
    if k < lines.len() && fields(lines[k]).len() >= 2 {
        match parse_unsigned(fields(lines[k])[1], u64::MAX as nat) {
            Some(kb) => Some(capped32(kb / 1024 / 1024)),
            None => None,
        }
    } else {
        None
    }
}

/// Reads the machine's memory out of the text of `/proc/meminfo`.
pub fn detect_system_memory_gb(meminfo: &str) -> (gb: Option<u32>)
    ensures
        gb == memory_gb_in(meminfo@),
{
    let chars = to_chars(meminfo);
    let lines = split_on(chars.as_slice(), '\n');
    let wanted = to_chars("MemTotal:");
    let n = lines.len();
    let mut k: usize = 0;
    proof {
        assert(rows(lines@).subrange(0, n as int) =~= rows(lines@));
    }
    while k < n
        invariant
            k <= n,
            n == lines@.len(),
            wanted@ == "MemTotal:"@,
            rows(lines@) == pieces(meminfo@, '\n'),
            memory_line(rows(lines@)) == k + memory_line(rows(lines@).subrange(k as int, n as int)),
        decreases n - k,
    {
        assert(rows(lines@).subrange(k as int, n as int)[0] == lines@[k as int]@);
        if has_prefix(lines[k].as_slice(), wanted.as_slice()) {
            let words = split_fields(lines[k].as_slice());
            assert(rows(lines@)[k as int] == lines@[k as int]@);
            if words.len() < 2 {
                return None;
            }
            assert(rows(words@)[1] == words@[1]@);
            return match parse_decimal(words[1].as_slice(), u64::MAX) {
                Some(kb) => {
                    let gb = kb / 1024 / 1024;
                    if gb > u32::MAX as u64 {
                        Some(u32::MAX)
                    } else {
                        Some(gb as u32)
                    }
                },
                None => None,
            };
        }
        proof {
            assert(rows(lines@).subrange(k as int, n as int).drop_first() =~= rows(
                lines@,
            ).subrange(k + 1, n as int));
        }
        k += 1;
    }
    None
}

/// The encoders that are looked for, as the encoder program calls them, and
/// the names under which a node reports them.
pub open spec fn known_encoders() -> Seq<(Seq<char>, Seq<char>)> {
    seq![
        ("libx264"@, "h264"@),
        ("libx265"@, "hevc"@),
        ("libaom-av1"@, "av1"@),
        ("libvpx-vp9"@, "vp9"@),
    ]
}

/// The known encoders, among the first `count`, that `listing` mentions,
/// under the names under which a node reports them.
pub open spec fn encoders_found(listing: Seq<char>, count: int) -> Seq<Seq<char>>
    decreases count,
{
    if count <= 0 {
        Seq::empty()
    } else if contains(listing, known_encoders()[count - 1].0) {
        encoders_found(listing, count - 1).push(known_encoders()[count - 1].1)
    } else {
        encoders_found(listing, count - 1)
    }
}

/// The encoders that a node reports, given what the encoder program lists:
/// the known ones that the listing mentions, or `h264` alone where it
/// mentions none, or where there is no listing.
pub open spec fn encoders_in(listing: Option<Seq<char>>) -> Seq<Seq<char>> {
    match listing {
        Some(text) => if encoders_found(text, 4).len() > 0 {
            encoders_found(text, 4)
        } else {
            seq!["h264"@]
        },
        None => seq!["h264"@],
    }
}

fn mentions(listing: &Vec<char>, name: &str) -> (r: bool)
    ensures
        r == contains(listing@, name@),
{
    let wanted = to_chars(name);
    find_in(listing.as_slice(), wanted.as_slice())
}

/// Reads the node's encoders out of what the encoder program lists, if it
/// could be asked.
pub fn detect_available_encoders(listing: Option<&str>) -> (encoders: Vec<String>)
    ensures
        texts(encoders@) == encoders_in(
            match listing {
                Some(text) => Some(text@),
                None => None,
            },
        ),
{
    let mut encoders: Vec<String> = Vec::new();
    proof {
        assert(texts(encoders@) =~= Seq::<Seq<char>>::empty());
    }
    match listing {
        Some(text) => {
            let chars = to_chars(text);
            proof {
                reveal_with_fuel(encoders_found, 5);
            }
            if mentions(&chars, "libx264") {
                push_text(&mut encoders, "h264");
            }
            if mentions(&chars, "libx265") {
                push_text(&mut encoders, "hevc");
            }
            if mentions(&chars, "libaom-av1") {
                push_text(&mut encoders, "av1");
            }
            if mentions(&chars, "libvpx-vp9") {
                push_text(&mut encoders, "vp9");
            }
        },
        None => {},
    }
    if encoders.len() == 0 {
        push_text(&mut encoders, "h264");
    }
    encoders
}

/// The items of a list with commas, each without the white space around it.
pub open spec fn comma_list(text: Seq<char>) -> Seq<Seq<char>> {
    pieces(text, ',').map_values(|item: Seq<char>| trimmed(item))
}

fn split_comma_list(text: &str) -> (items: Vec<String>)
    ensures
        texts(items@) == comma_list(text@),
{
    let chars = to_chars(text);
    let parts = split_on(chars.as_slice(), ',');
    let mut trimmed_parts: Vec<Vec<char>> = Vec::new();
    let mut i: usize = 0;
    while i < parts.len()
        invariant
            i <= parts@.len(),
            trimmed_parts@.len() == i,
            forall|k: int| 0 <= k < i ==> (#[trigger] trimmed_parts@[k])@ == trimmed(parts@[k]@),
        decreases parts@.len() - i,
    {
        trimmed_parts.push(trim(parts[i].as_slice()));
        i += 1;
    }
    let items = strings_from(&trimmed_parts);
    proof {
        assert(texts(items@) =~= comma_list(text@));
    }
    items
}

/// How many chunks a node with `cpu_cores` cores encodes at a time, unless
/// told otherwise: one for each two cores, and at least one.
pub open spec fn default_max_chunks(cpu_cores: u32) -> u32 {
    if cpu_cores / 2 >= 1 {
        cpu_cores / 2
    } else {
        1
    }
}

/// What the node can do, given what was found out about the machine: the
/// number of its cores, the text of `/proc/meminfo` where there is one, and
/// what the encoder program lists where it could be asked. Each finding
/// gives way to the override that goes with it.
pub fn capabilities_from(
    cpu_cores_override: Option<u32>,
    memory_gb_override: Option<u32>,
    max_chunks_override: Option<u32>,
    encoders_override: Option<String>,
    detected_cores: usize,
    meminfo: Option<&str>,
    encoder_listing: Option<&str>,
) -> (capabilities: NodeCapabilities)
    ensures
        capabilities.cpu_cores == match cpu_cores_override {
            Some(n) => n,
            None => capped32(detected_cores as nat),
        },
        capabilities.memory_gb == match memory_gb_override {
            Some(n) => n,
            None => match meminfo {
                Some(text) => match memory_gb_in(text@) {
                    Some(n) => n,
                    None => DEFAULT_MEMORY_GB,
                },
                None => DEFAULT_MEMORY_GB,
            },
        },
        capabilities.max_concurrent_chunks == match max_chunks_override {
            Some(n) => n,
            None => default_max_chunks(capabilities.cpu_cores),
        },
        texts(capabilities.supported_encoders@) == match encoders_override {
            Some(list) => comma_list(list@),
            None => encoders_in(
                match encoder_listing {
                    Some(text) => Some(text@),
                    None => None,
                },
            ),
        },
{
    let cpu_cores: u32 = match cpu_cores_override {
        Some(n) => n,
        None => if detected_cores > u32::MAX as usize {
            u32::MAX
        } else {
            detected_cores as u32
        },
    };
    let memory_gb: u32 = match memory_gb_override {
        Some(n) => n,
        None => match meminfo {
            Some(text) => match detect_system_memory_gb(text) {
                Some(n) => n,
                None => DEFAULT_MEMORY_GB,
            },
            None => DEFAULT_MEMORY_GB,
        },
    };
    let supported_encoders = match encoders_override {
        Some(list) => split_comma_list(list.as_str()),
        None => detect_available_encoders(encoder_listing),
    };
    let max_concurrent_chunks: u32 = match max_chunks_override {
        Some(n) => n,
        None => if cpu_cores / 2 >= 1 {
            cpu_cores / 2
        } else {
            1
        },
    };
    NodeCapabilities { max_concurrent_chunks, supported_encoders, cpu_cores, memory_gb }
}

/// What the node can do, with the machine asked for the number of its
/// cores. All else is as [`capabilities_from`] says; in particular a node
/// takes at least one chunk at a time unless it is told to take none.
pub fn detect_node_capabilities(
    cpu_cores_override: Option<u32>,
    memory_gb_override: Option<u32>,
    max_chunks_override: Option<u32>,
    encoders_override: Option<String>,
    meminfo: Option<&str>,
    encoder_listing: Option<&str>,
) -> (capabilities: NodeCapabilities)
    ensures
        cpu_cores_override is Some ==> capabilities.cpu_cores == cpu_cores_override->0,
        cpu_cores_override is None ==> capabilities.cpu_cores >= 1,
        capabilities.memory_gb == match memory_gb_override {
            Some(n) => n,
            None => match meminfo {
                Some(text) => match memory_gb_in(text@) {
                    Some(n) => n,
                    None => DEFAULT_MEMORY_GB,
                },
                None => DEFAULT_MEMORY_GB,
            },
        },
        capabilities.max_concurrent_chunks == match max_chunks_override {
            Some(n) => n,
            None => default_max_chunks(capabilities.cpu_cores),
        },
        max_chunks_override is None ==> capabilities.max_concurrent_chunks >= 1,
        texts(capabilities.supported_encoders@) == match encoders_override {
            Some(list) => comma_list(list@),
            None => encoders_in(
                match encoder_listing {
                    Some(text) => Some(text@),
                    None => None,
                },
            ),
        },
{
    capabilities_from(
        cpu_cores_override,
        memory_gb_override,
        max_chunks_override,
        encoders_override,
        cpu_count(),
        meminfo,
        encoder_listing,
    )
}

} // verus!
