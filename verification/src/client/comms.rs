//! The client's side of the node protocol: which nodes to connect, what a
//! request holds, and what a node's answer means for the chunk.

use vstd::prelude::*;
use vstd::string::*;
use crate::chunk::{copy_strings, Chunk, ChunkView};
use crate::client::tasks::encoded_chunk_path;
use crate::error::{ErrorKind, VideoEncodeError};
use crate::node::service::{EncodeChunkRequest, EncodeChunkResponse};
use crate::paths::join;
use crate::text::{concat3, decimal, format_decimal, texts};

verus! {

/// The largest message, in bytes, that either side of the node protocol
/// accepts: one gibibyte.
pub const MAX_MESSAGE_SIZE_BYTES: usize = 1073741824;

/// Seconds within which a connection to a node must stand.
pub const CONNECT_TIMEOUT_SECS: u64 = 10;

/// A node to connect, with the number of requests it takes at a time.
#[derive(Debug, Clone, PartialEq, Eq)]
pub struct NodeConnection {
    /// The node's address.
    pub address: String,
    /// How many requests the node takes at a time: the permits of its
    /// semaphore.
    pub slots: usize,
}

/// The position of the first node without a slot; the length of `slots`
/// where each has one.
pub open spec fn first_without_slot(slots: Seq<usize>) -> int
    decreases slots.len(),
{
    if slots.len() == 0 {
        0
    } else if slots[0] == 0 {
        0
    } else {
        1 + first_without_slot(slots.drop_first())
    }
}

/// What is wrong with the nodes and their slots, if anything: another
/// number of slot counts than of nodes, or a node without a slot, the first
/// such.
pub open spec fn connection_obstacle(addresses: Seq<Seq<char>>, slots: Seq<usize>) -> Option<
    Seq<char>,
> {
    if addresses.len() != slots.len() {
        Some(
            "Mismatch between number of node addresses ("@ + decimal(addresses.len())
                + ") and slot counts ("@ + decimal(slots.len()) + ")."@,
        )
    } else if first_without_slot(slots) < slots.len() {
        let i = first_without_slot(slots);
        Some("Node "@ + decimal(i as nat) + " ("@ + addresses[i] + ") must have at least 1 slot."@)
    } else {
        None
    }
}

/// The slot counts to work with: those of the command line where it gives
/// any, else one slot for each node.
pub fn slots_to_use(cli_slots: &Vec<usize>, nodes: usize) -> (slots: Vec<usize>)
    ensures
        cli_slots@.len() > 0 ==> slots@ == cli_slots@,
        cli_slots@.len() == 0 ==> slots@ == Seq::new(nodes as nat, |i: int| 1usize),
{
    if cli_slots.len() > 0 {
        return cli_slots.clone();
    }
    let mut slots: Vec<usize> = Vec::new();
    let mut i: usize = 0;
    while i < nodes
        invariant
            i <= nodes,
            slots@ == Seq::new(i as nat, |k: int| 1usize),
        decreases nodes - i,
    {
        slots.push(1);
        proof {
            assert(slots@ =~= Seq::new((i + 1) as nat, |k: int| 1usize));
        }
        i += 1;
    }
    slots
}

/// Pairs each node with its slots, before any connection is made.
///
/// What [`connection_obstacle`] names is a node-connection error with that
/// detail. Otherwise the result holds, for each address in order, the node
/// and its slot count, which is at least one.
pub fn initialize_node_connections(node_addresses: &Vec<String>, node_slots: &Vec<usize>) -> (r:
    Result<Vec<NodeConnection>, VideoEncodeError>)
    ensures
        match connection_obstacle(texts(node_addresses@), node_slots@) {
            Some(detail) => r is Err && r->Err_0.says(ErrorKind::NodeConnection, detail),
            None => {
                &&& r is Ok
                &&& r->Ok_0@.len() == node_addresses@.len()
                &&& forall|i: int|
                    0 <= i < r->Ok_0@.len() ==> (#[trigger] r->Ok_0@[i]).address@
                        == node_addresses@[i]@ && r->Ok_0@[i].slots == node_slots@[i]
                        && r->Ok_0@[i].slots >= 1
            },
        },
{
    let n = node_addresses.len();
    if n != node_slots.len() {
        let mut text = String::from_str("Mismatch between number of node addresses (");
        text.append(format_decimal(n as u64).as_str());
        text.append(") and slot counts (");
        text.append(format_decimal(node_slots.len() as u64).as_str());
        text.append(").");
        return Err(VideoEncodeError::NodeConnection(text));
    }
    let mut connections: Vec<NodeConnection> = Vec::new();
    let mut i: usize = 0;
    proof {
        assert(node_slots@.subrange(0, n as int) =~= node_slots@);
    }
    while i < n
        invariant
            i <= n,
            n == node_addresses@.len(),
            n == node_slots@.len(),
            connections@.len() == i,
            first_without_slot(node_slots@) == i + first_without_slot(
                node_slots@.subrange(i as int, n as int),
            ),
            forall|k: int|
                0 <= k < i ==> (#[trigger] connections@[k]).address@ == node_addresses@[k]@
                    && connections@[k].slots == node_slots@[k] && connections@[k].slots >= 1,
        decreases n - i,
    {
        assert(node_slots@.subrange(i as int, n as int)[0] == node_slots@[i as int]);
        let slots = node_slots[i];
        if slots == 0 {
            assert(texts(node_addresses@)[i as int] == node_addresses@[i as int]@);
            let mut text = String::from_str("Node ");
            text.append(format_decimal(i as u64).as_str());
            text.append(" (");
            text.append(node_addresses[i].as_str());
            text.append(") must have at least 1 slot.");
            return Err(VideoEncodeError::NodeConnection(text));
        }
        proof {
            assert(node_slots@.subrange(i as int, n as int).drop_first() =~= node_slots@.subrange(
                i + 1,
                n as int,
            ));
        }
        connections.push(NodeConnection { address: node_addresses[i].clone(), slots });
        i += 1;
    }
    Ok(connections)
}

/// What a job without a single connected node is refused with.
pub open spec fn no_nodes() -> Seq<char> {
    "No worker nodes available. Cannot proceed with distributed encoding."@
}

/// Whether the job can begin: it needs at least one connected node.
pub fn require_connections(connected: usize) -> (r: Result<(), VideoEncodeError>)
    ensures
        connected > 0 ==> r is Ok,
        connected == 0 ==> r is Err && r->Err_0.says(ErrorKind::NodeConnection, no_nodes()),
{
    if connected > 0 {
        Ok(())
    } else {
        Err(
            VideoEncodeError::NodeConnection(
                String::from_str(
                    "No worker nodes available. Cannot proceed with distributed encoding.",
                ),
            ),
        )
    }
}

/// A chunk index as the wire carries it: the 32-bit signed number with the
/// same low 32 bits.
pub open spec fn wire_index(index: nat) -> int {
    let low = index % 4294967296;
    if low < 2147483648 {
        low as int
    } else {
        low - 4294967296
    }
}

/// The request that carries `chunk`, whose source holds `chunk_data`.
pub fn encode_request(chunk: &Chunk, chunk_data: Vec<u8>) -> (request: EncodeChunkRequest)
    ensures
        request.chunk_data == chunk_data,
        request.chunk_index == wire_index(chunk@.index),
        texts(request.encoder_parameters@) == chunk@.encoder_parameters,
        chunk@.index <= i32::MAX ==> request.chunk_index == chunk@.index,
{
    let low: u64 = (chunk.index as u64) % 4294967296;
    let chunk_index: i32 = if low < 2147483648 {
        low as i32
    } else {
        (low as i64 - 4294967296) as i32
    };
    EncodeChunkRequest {
        chunk_data,
        chunk_index,
        encoder_parameters: copy_strings(&chunk.encoder_parameters),
    }
}

/// How a request to a node ended.
#[derive(Debug, Clone, PartialEq, Eq)]
pub enum RpcOutcome {
    /// The node answered.
    Answered(EncodeChunkResponse),
    /// The request did not get through; the text says why.
    Failed(String),
}

/// What the end of a request means for its chunk: the kind and detail of the
/// error, or none where the node encoded the chunk.
pub open spec fn send_verdict(index: nat, outcome: RpcOutcome) -> Option<(ErrorKind, Seq<char>)> {
    match outcome {
        RpcOutcome::Failed(text) => Some(
            (
                ErrorKind::Transport,
                "gRPC call to encode_chunk "@ + decimal(index) + " failed: "@ + text@,
            ),
        ),
        RpcOutcome::Answered(response) => if response.success {
            None
        } else {
            Some(
                (
                    ErrorKind::ChunkProcessing,
                    "Node reported failure for chunk "@ + decimal(index) + ": "@
                        + response.error_message@,
                ),
            )
        },
    }
}

/// Judges the end of the request for `chunk`.
///
/// Where the node encoded the chunk, the result is the chunk with its
/// encoded path recorded, under the chunk's name in
/// `client_side_encoded_chunk_dir`, and the bytes that the caller is to write
/// there. Any other end is an error, and nothing is to be written.
pub fn send_chunk_for_encoding(
    chunk: Chunk,
    outcome: RpcOutcome,
    client_side_encoded_chunk_dir: &str,
) -> (r: Result<(Chunk, Vec<u8>), VideoEncodeError>)
    ensures
        match send_verdict(chunk@.index, outcome) {
            Some((kind, detail)) => r is Err && r->Err_0.says(kind, detail),
            None => r is Ok && r->Ok_0.0@ == (ChunkView {
                encoded_path: Some(
                    encoded_chunk_path(client_side_encoded_chunk_dir@, chunk@.index),
                ),
                ..chunk@
            }) && r->Ok_0.1 == outcome->Answered_0.encoded_chunk_data,
        },
{
    let number = format_decimal(chunk.index as u64);
    match outcome {
        RpcOutcome::Failed(text) => {
            let mut detail = concat3("gRPC call to encode_chunk ", number.as_str(), " failed: ");
            detail.append(text.as_str());
            Err(VideoEncodeError::Transport(detail))
        },
        RpcOutcome::Answered(response) => {
            if response.success {
                let name = concat3("encoded_chunk_", number.as_str(), ".mkv");
                let path = join(client_side_encoded_chunk_dir, name.as_str());
                let mut done = chunk;
                done.set_encoded_path(path);
                Ok((done, response.encoded_chunk_data))
            } else {
                let mut detail = concat3("Node reported failure for chunk ", number.as_str(), ": ");
                detail.append(response.error_message.as_str());
                Err(VideoEncodeError::ChunkProcessing(detail))
            }
        },
    }
}

} // verus!
