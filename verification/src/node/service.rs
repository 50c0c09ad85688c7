//! The node's answer to one `EncodeChunk` request, as a sequence of steps.
//!
//! The caller owns the disk and the encoder process. It performs the action
//! that each step hands out and reports back how it went; the session decides
//! what comes next and what the reply says.

use vstd::prelude::*;
use vstd::string::*;
use crate::error::{render, ErrorKind};
use crate::paths::{join, joined};
use crate::text::{concat3, format_signed, signed_decimal, texts};
use crate::video::encoder::{
    encode_arguments,
    encode_verdict,
    encode_with_ffmpeg,
    ffmpeg_encode_arguments,
    Launch,
};

verus! {

/// One chunk to encode, as it arrives over the wire.
#[derive(Debug, Clone, PartialEq, Eq)]
pub struct EncodeChunkRequest {
    pub chunk_data: Vec<u8>,
    pub chunk_index: i32,
    pub encoder_parameters: Vec<String>,
}

/// The node's answer to an [`EncodeChunkRequest`].
#[derive(Debug, Clone, PartialEq, Eq)]
pub struct EncodeChunkResponse {
    pub encoded_chunk_data: Vec<u8>,
    pub chunk_index: i32,
    pub success: bool,
    pub error_message: String,
}

/// An [`EncodeChunkResponse`] as plain values.
pub struct ResponseView {
    pub encoded_chunk_data: Seq<u8>,
    pub chunk_index: int,
    pub success: bool,
    pub error_message: Seq<char>,
}

impl View for EncodeChunkResponse {
    type V = ResponseView;

    open spec fn view(&self) -> ResponseView {
        ResponseView {
            encoded_chunk_data: self.encoded_chunk_data@,
            chunk_index: self.chunk_index as int,
            success: self.success,
            error_message: self.error_message@,
        }
    }
}

/// The reply for a chunk that was encoded.
pub open spec fn success_reply(chunk_index: int, data: Seq<u8>) -> ResponseView {
    ResponseView {
        encoded_chunk_data: data,
        chunk_index,
        success: true,
        error_message: Seq::empty(),
    }
}

/// The reply for a chunk that could not be encoded: no data, and the reason.
pub open spec fn failure_reply(chunk_index: int, reason: Seq<char>) -> ResponseView {
    ResponseView {
        encoded_chunk_data: Seq::empty(),
        chunk_index,
        success: false,
        error_message: reason,
    }
}

/// The encoding service of one node, bound to the node's scratch directory.
#[derive(Debug)]
pub struct NodeEncodingService {
    node_temp_dir: String,
}

/// Where the node keeps the chunk with index `index` as it was received.
pub open spec fn received_path(temp_dir: Seq<char>, index: int) -> Seq<char> {
    joined(
        joined(temp_dir, "received_chunks"@),
        "chunk_"@ + signed_decimal(index) + "_received.mkv"@,
    )
}

/// Where the node's encoder writes the chunk with index `index`.
pub open spec fn encoded_path(temp_dir: Seq<char>, index: int) -> Seq<char> {
    joined(
        joined(temp_dir, "locally_encoded"@),
        "chunk_"@ + signed_decimal(index) + "_encoded.mkv"@,
    )
}

impl NodeEncodingService {
    /// The scratch directory that the service is bound to.
    pub closed spec fn temp_dir(&self) -> Seq<char> {
        self.node_temp_dir@
    }

    /// A service that works in `node_temp_dir`.
    pub fn new(node_temp_dir: String) -> (service: NodeEncodingService)
        ensures
            service.temp_dir() == node_temp_dir@,
    {
        NodeEncodingService { node_temp_dir }
    }

    /// The directory for chunks as they were received.
    pub fn get_received_chunks_dir(&self) -> (dir: String)
        ensures
            dir@ == joined(self.temp_dir(), "received_chunks"@),
    {
        join(self.node_temp_dir.as_str(), "received_chunks")
    }

    /// The directory for chunks that this node has encoded.
    pub fn get_locally_encoded_dir(&self) -> (dir: String)
        ensures
            dir@ == joined(self.temp_dir(), "locally_encoded"@),
    {
        join(self.node_temp_dir.as_str(), "locally_encoded")
    }

    /// Opens the session that answers `request`, and hands out its first
    /// action: to make sure that the two scratch directories exist.
    pub fn encode_chunk(&self, request: EncodeChunkRequest) -> (r: (EncodeSession, NodeAction))
        ensures
            r.0@ == (SessionView {
                input_path: received_path(self.temp_dir(), request.chunk_index as int),
                output_path: encoded_path(self.temp_dir(), request.chunk_index as int),
                chunk_index: request.chunk_index as int,
                parameters: texts(request.encoder_parameters@),
                data: request.chunk_data@,
                stage: EncodeStage::MakingDirs,
                reply: failure_reply(request.chunk_index as int, Seq::empty()),
            }),
            r.1@ == (ActionView::CreateDirs {
                received_dir: joined(self.temp_dir(), "received_chunks"@),
                encoded_dir: joined(self.temp_dir(), "locally_encoded"@),
            }),
    {
        let received_dir = self.get_received_chunks_dir();
        let encoded_dir = self.get_locally_encoded_dir();
        let number = format_signed(request.chunk_index);
        let input_name = concat3("chunk_", number.as_str(), "_received.mkv");
        let output_name = concat3("chunk_", number.as_str(), "_encoded.mkv");
        let session = EncodeSession {
            input_path: join(received_dir.as_str(), input_name.as_str()),
            output_path: join(encoded_dir.as_str(), output_name.as_str()),
            chunk_index: request.chunk_index,
            encoder_parameters: request.encoder_parameters,
            chunk_data: request.chunk_data,
            stage: EncodeStage::MakingDirs,
            reply: EncodeChunkResponse {
                encoded_chunk_data: Vec::new(),
                chunk_index: request.chunk_index,
                success: false,
                error_message: String::new(),
            },
        };
        (session, NodeAction::CreateDirs { received_dir, encoded_dir })
    }
}

/// How far the answer to one request has come.
#[derive(Debug, Clone, Copy, PartialEq, Eq, Structural)]
pub enum EncodeStage {
    /// The scratch directories are being made.
    MakingDirs,
    /// The received bytes are being written to disk.
    Writing,
    /// The encoder is running.
    Encoding,
    /// The encoder's output is being read back.
    Reading,
    /// The two scratch files are being deleted.
    Cleaning,
    /// The request has been answered.
    Closed,
}

/// What the caller reports back after an action.
#[derive(Debug, Clone, PartialEq, Eq)]
pub enum NodeEvent {
    /// The action was carried out.
    Done,
    /// The action failed; the text is the system's.
    Failed(String),
    /// The encoder was run, with this end.
    Ran(Launch),
    /// The file was read, and held these bytes.
    Loaded(Vec<u8>),
}

/// What the caller is to do next.
#[derive(Debug, Clone, PartialEq, Eq)]
pub enum NodeAction {
    /// Make sure that both directories exist.
    CreateDirs { received_dir: String, encoded_dir: String },
    /// Write `data` to the file `path`.
    WriteInput { path: String, data: Vec<u8> },
    /// Run the encoder `ffmpeg` with these arguments.
    RunEncoder { arguments: Vec<String> },
    /// Read the file `path` in full.
    ReadOutput { path: String },
    /// Delete both files; a file that cannot be deleted is logged, no more.
    RemoveFiles { input: String, output: String },
    /// Send this response: the request is answered.
    Reply(EncodeChunkResponse),
    /// Fail the call itself with an internal error that carries this text.
    Abort(String),
    /// Nothing: the request had been answered before.
    Idle,
}

/// A [`NodeAction`] as plain values.
pub enum ActionView {
    CreateDirs { received_dir: Seq<char>, encoded_dir: Seq<char> },
    WriteInput { path: Seq<char>, data: Seq<u8> },
    RunEncoder { arguments: Seq<Seq<char>> },
    ReadOutput { path: Seq<char> },
    RemoveFiles { input: Seq<char>, output: Seq<char> },
    Reply(ResponseView),
    Abort(Seq<char>),
    Idle,
}

impl View for NodeAction {
    type V = ActionView;

    open spec fn view(&self) -> ActionView {
        match self {
            NodeAction::CreateDirs { received_dir, encoded_dir } => ActionView::CreateDirs {
                received_dir: received_dir@,
                encoded_dir: encoded_dir@,
            },
            NodeAction::WriteInput { path, data } => ActionView::WriteInput {
                path: path@,
                data: data@,
            },
            NodeAction::RunEncoder { arguments } => ActionView::RunEncoder {
                arguments: texts(arguments@),
            },
            NodeAction::ReadOutput { path } => ActionView::ReadOutput { path: path@ },
            NodeAction::RemoveFiles { input, output } => ActionView::RemoveFiles {
                input: input@,
                output: output@,
            },
            NodeAction::Reply(response) => ActionView::Reply(response@),
            NodeAction::Abort(text) => ActionView::Abort(text@),
            NodeAction::Idle => ActionView::Idle,
        }
    }
}

/// A [`NodeEvent`] as plain values. Of the encoder's end only the outcome
/// counts: nothing where it succeeded, else the kind and detail of its error.
pub enum EventView {
    Done,
    Failed(Seq<char>),
    Ran(Option<(ErrorKind, Seq<char>)>),
    Loaded(Seq<u8>),
}

impl View for NodeEvent {
    type V = EventView;

    open spec fn view(&self) -> EventView {
        match self {
            NodeEvent::Done => EventView::Done,
            NodeEvent::Failed(text) => EventView::Failed(text@),
            NodeEvent::Ran(launch) => EventView::Ran(encode_verdict(*launch)),
            NodeEvent::Loaded(bytes) => EventView::Loaded(bytes@),
        }
    }
}

/// The answer to one request, under way.
#[derive(Debug)]
pub struct EncodeSession {
    input_path: String,
    output_path: String,
    chunk_index: i32,
    encoder_parameters: Vec<String>,
    chunk_data: Vec<u8>,
    stage: EncodeStage,
    reply: EncodeChunkResponse,
}

/// An [`EncodeSession`] as plain values.
pub struct SessionView {
    /// The scratch file that holds the chunk as received.
    pub input_path: Seq<char>,
    /// The scratch file that the encoder writes.
    pub output_path: Seq<char>,
    /// The index that the request named.
    pub chunk_index: int,
    /// The encoder parameters that the request named.
    pub parameters: Seq<Seq<char>>,
    /// The received bytes, until they have been handed out for writing.
    pub data: Seq<u8>,
    /// How far the answer has come.
    pub stage: EncodeStage,
    /// The reply as it stands; it is sent when the scratch files are gone.
    pub reply: ResponseView,
}

impl View for EncodeSession {
    type V = SessionView;

    closed spec fn view(&self) -> SessionView {
        SessionView {
            input_path: self.input_path@,
            output_path: self.output_path@,
            chunk_index: self.chunk_index as int,
            parameters: texts(self.encoder_parameters@),
            data: self.chunk_data@,
            stage: self.stage,
            reply: self.reply@,
        }
    }
}

/// The text that is reported for an event that the stage does not expect.
pub open spec fn unexpected() -> Seq<char> {
    "Unexpected event"@
}

/// The step that gives up on encoding: the reply becomes the failure with
/// `reason`, and the scratch files are to be deleted.
pub open spec fn give_up(s: SessionView, reason: Seq<char>) -> (SessionView, ActionView) {
    (
        SessionView {
            stage: EncodeStage::Cleaning,
            reply: failure_reply(s.chunk_index, reason),
            data: Seq::empty(),
            ..s
        },
        ActionView::RemoveFiles { input: s.input_path, output: s.output_path },
    )
}

/// The reason that a failed step gives: the system's text for a failure, the
/// rendered error for an encoder that ran and failed, a fixed text for an
/// event that does not belong to the stage.
pub open spec fn failure_reason(e: EventView) -> Seq<char> {
    match e {
        EventView::Failed(text) => text,
        EventView::Ran(Some((kind, detail))) => render(kind, detail),
        _ => unexpected(),
    }
}

/// One step of the protocol: the session and the action that follow from the
/// session `s` and the event `e`.
///
/// Directories, then the input file, then the encoder, then its output; the
/// first failure ends the attempt. An attempt that got past the directories
/// ends, whatever happened, with the deletion of both scratch files, and only
/// then with the reply. A failure of the directories fails the call itself.
pub open spec fn step(s: SessionView, e: EventView) -> (SessionView, ActionView) {
    match s.stage {
        EncodeStage::MakingDirs => if e is Done {
            (
                SessionView { stage: EncodeStage::Writing, data: Seq::empty(), ..s },
                ActionView::WriteInput { path: s.input_path, data: s.data },
            )
        } else {
            (
                SessionView { stage: EncodeStage::Closed, data: Seq::empty(), ..s },
                ActionView::Abort("Node temporary directory error"@),
            )
        },
        EncodeStage::Writing => if e is Done {
            (
                SessionView { stage: EncodeStage::Encoding, ..s },
                ActionView::RunEncoder {
                    arguments: encode_arguments(s.input_path, s.output_path, s.parameters),
                },
            )
        } else {
            give_up(s, failure_reason(e))
        },
        EncodeStage::Encoding => if e == EventView::Ran(None) {
            (
                SessionView { stage: EncodeStage::Reading, ..s },
                ActionView::ReadOutput { path: s.output_path },
            )
        } else {
            give_up(s, failure_reason(e))
        },
        EncodeStage::Reading => match e {
            EventView::Loaded(bytes) => (
                SessionView {
                    stage: EncodeStage::Cleaning,
                    reply: success_reply(s.chunk_index, bytes),
                    ..s
                },
                ActionView::RemoveFiles { input: s.input_path, output: s.output_path },
            ),
            _ => give_up(s, failure_reason(e)),
        },
        EncodeStage::Cleaning => (
            SessionView { stage: EncodeStage::Closed, ..s },
            ActionView::Reply(s.reply),
        ),
        EncodeStage::Closed => (s, ActionView::Idle),
    }
}

impl EncodeSession {
    /// How far the answer has come.
    pub fn stage(&self) -> (stage: EncodeStage)
        ensures
            stage == self@.stage,
    {
        self.stage
    }

    fn give_up(self, reason: String) -> (r: (EncodeSession, NodeAction))
        ensures
            r.0@ == give_up(self@, reason@).0,
            r.1@ == give_up(self@, reason@).1,
    {
        let action = NodeAction::RemoveFiles {
            input: self.input_path.clone(),
            output: self.output_path.clone(),
        };
        let session = EncodeSession {
            input_path: self.input_path,
            output_path: self.output_path,
            chunk_index: self.chunk_index,
            encoder_parameters: self.encoder_parameters,
            chunk_data: Vec::new(),
            stage: EncodeStage::Cleaning,
            reply: EncodeChunkResponse {
                encoded_chunk_data: Vec::new(),
                chunk_index: self.chunk_index,
                success: false,
                error_message: reason,
            },
        };
        (session, action)
    }

    fn reason_for(event: NodeEvent) -> (reason: String)
        ensures
            reason@ == failure_reason(event@),
    {
        match event {
            NodeEvent::Failed(text) => text,
            NodeEvent::Ran(launch) => match encode_with_ffmpeg(&launch) {
                Err(e) => e.to_string(),
                Ok(()) => String::from_str("Unexpected event"),
            },
            _ => String::from_str("Unexpected event"),
        }
    }

    /// Takes the protocol one step further: given how the last action went,
    /// the session that follows and the next action, as [`step`] defines them.
    pub fn advance(self, event: NodeEvent) -> (r: (EncodeSession, NodeAction))
        ensures
            r.0@ == step(self@, event@).0,
            r.1@ == step(self@, event@).1,
    {
        match self.stage {
            EncodeStage::MakingDirs => {
                match event {
                    NodeEvent::Done => {
                        let action = NodeAction::WriteInput {
                            path: self.input_path.clone(),
                            data: self.chunk_data,
                        };
                        let session = EncodeSession {
                            input_path: self.input_path,
                            output_path: self.output_path,
                            chunk_index: self.chunk_index,
                            encoder_parameters: self.encoder_parameters,
                            chunk_data: Vec::new(),
                            stage: EncodeStage::Writing,
                            reply: self.reply,
                        };
                        (session, action)
                    },
                    _ => {
                        let session = EncodeSession {
                            input_path: self.input_path,
                            output_path: self.output_path,
                            chunk_index: self.chunk_index,
                            encoder_parameters: self.encoder_parameters,
                            chunk_data: Vec::new(),
                            stage: EncodeStage::Closed,
                            reply: self.reply,
                        };
                        (
                            session,
                            NodeAction::Abort(String::from_str("Node temporary directory error")),
                        )
                    },
                }
            },
            EncodeStage::Writing => {
                match event {
                    NodeEvent::Done => {
                        let arguments = ffmpeg_encode_arguments(
                            self.input_path.as_str(),
                            self.output_path.as_str(),
                            &self.encoder_parameters,
                        );
                        let session = EncodeSession {
                            input_path: self.input_path,
                            output_path: self.output_path,
                            chunk_index: self.chunk_index,
                            encoder_parameters: self.encoder_parameters,
                            chunk_data: self.chunk_data,
                            stage: EncodeStage::Encoding,
                            reply: self.reply,
                        };
                        (session, NodeAction::RunEncoder { arguments })
                    },
                    other => {
                        let reason = EncodeSession::reason_for(other);
                        self.give_up(reason)
                    },
                }
            },
            EncodeStage::Encoding => {
                let ran_well = match &event {
                    NodeEvent::Ran(launch) => encode_with_ffmpeg(launch).is_ok(),
                    _ => false,
                };
                if ran_well {
                    let action = NodeAction::ReadOutput { path: self.output_path.clone() };
                    let session = EncodeSession {
                        input_path: self.input_path,
                        output_path: self.output_path,
                        chunk_index: self.chunk_index,
                        encoder_parameters: self.encoder_parameters,
                        chunk_data: self.chunk_data,
                        stage: EncodeStage::Reading,
                        reply: self.reply,
                    };
                    (session, action)
                } else {
                    let reason = EncodeSession::reason_for(event);
                    self.give_up(reason)
                }
            },
            EncodeStage::Reading => {
                match event {
                    NodeEvent::Loaded(bytes) => {
                        let action = NodeAction::RemoveFiles {
                            input: self.input_path.clone(),
                            output: self.output_path.clone(),
                        };
                        let session = EncodeSession {
                            input_path: self.input_path,
                            output_path: self.output_path,
                            chunk_index: self.chunk_index,
                            encoder_parameters: self.encoder_parameters,
                            chunk_data: self.chunk_data,
                            stage: EncodeStage::Cleaning,
                            reply: EncodeChunkResponse {
                                encoded_chunk_data: bytes,
                                chunk_index: self.chunk_index,
                                success: true,
                                error_message: String::new(),
                            },
                        };
                        (session, action)
                    },
                    other => {
                        let reason = EncodeSession::reason_for(other);
                        self.give_up(reason)
                    },
                }
            },
            EncodeStage::Cleaning => {
                let action = NodeAction::Reply(
                    EncodeChunkResponse {
                        encoded_chunk_data: self.reply.encoded_chunk_data.clone(),
                        chunk_index: self.reply.chunk_index,
                        success: self.reply.success,
                        error_message: self.reply.error_message.clone(),
                    },
                );
                let session = EncodeSession {
                    input_path: self.input_path,
                    output_path: self.output_path,
                    chunk_index: self.chunk_index,
                    encoder_parameters: self.encoder_parameters,
                    chunk_data: self.chunk_data,
                    stage: EncodeStage::Closed,
                    reply: self.reply,
                };
                (session, action)
            },
            EncodeStage::Closed => (self, NodeAction::Idle),
        }
    }
}

/// Whether the session's reply is one that the protocol can have produced for
/// its request: it names the request's index, and where it reports failure it
/// carries no data.
pub open spec fn reply_is_sound(s: SessionView) -> bool {
    &&& s.reply.chunk_index == s.chunk_index
    &&& !s.reply.success ==> s.reply.encoded_chunk_data.len() == 0
    &&& s.reply.success ==> s.reply.error_message.len() == 0
}

/// Every step keeps the reply sound.
pub proof fn lemma_step_keeps_reply_sound(s: SessionView, e: EventView)
    requires
        reply_is_sound(s),
    ensures
        reply_is_sound(step(s, e).0),
{
}

/// The reply is sent from the cleaning stage only, and the cleaning stage is
/// entered only by handing out the deletion of both scratch files: no reply
/// without that deletion having been asked for first.
pub proof fn lemma_reply_follows_cleanup(s: SessionView, e: EventView)
    ensures
        step(s, e).1 is Reply ==> s.stage == EncodeStage::Cleaning && step(s, e).1
            == ActionView::Reply(s.reply),
        (step(s, e).0.stage == EncodeStage::Cleaning) ==> step(s, e).1 == (ActionView::RemoveFiles {
            input: s.input_path,
            output: s.output_path,
        }),
        step(s, e).0.input_path == s.input_path,
        step(s, e).0.output_path == s.output_path,
{
}

/// The reply reports success only for an attempt in which every step went
/// well: whenever a step in the writing, encoding or reading stage is given
/// anything but its good outcome, the reply becomes a failure.
pub proof fn lemma_failure_is_reported(s: SessionView, e: EventView)
    requires
        s.stage == EncodeStage::Writing && !(e is Done) || s.stage == EncodeStage::Encoding && e
            != EventView::Ran(None) || s.stage == EncodeStage::Reading && !(e is Loaded),
    ensures
        step(s, e).0.stage == EncodeStage::Cleaning,
        step(s, e).0.reply == failure_reply(s.chunk_index, failure_reason(e)),
{
}


/// The session after the events `events`, starting from `s`.
pub open spec fn session_after(s: SessionView, events: Seq<EventView>) -> SessionView
    decreases events.len(),
{
    if events.len() == 0 {
        s
    } else {
        step(session_after(s, events.drop_last()), events.last()).0
    }
}

/// The actions that are handed out, one for each of `events`, starting from
/// the session `s`.
pub open spec fn actions_for(s: SessionView, events: Seq<EventView>) -> Seq<ActionView>
    decreases events.len(),
{
    if events.len() == 0 {
        Seq::empty()
    } else {
        actions_for(s, events.drop_last()).push(
            step(session_after(s, events.drop_last()), events.last()).1,
        )
    }
}

/// Whether `action` ends the call: a reply, or the failure of the call
/// itself.
pub open spec fn ends_call(action: ActionView) -> bool {
    action is Reply || action is Abort
}

/// What the actions of a session look like, given how far it has come.
spec fn in_step(s: SessionView, actions: Seq<ActionView>) -> bool {
    &&& reply_is_sound(s)
    &&& s.stage != EncodeStage::Closed ==> forall|k: int|
        0 <= k < actions.len() ==> !ends_call(#[trigger] actions[k])
    &&& s.stage == EncodeStage::Cleaning ==> actions.len() >= 1 && actions.last()
        == (ActionView::RemoveFiles { input: s.input_path, output: s.output_path })
    &&& s.stage == EncodeStage::Closed ==> exists|k: int|
        {
            &&& 0 <= k < actions.len()
            &&& ends_call(#[trigger] actions[k])
            &&& forall|j: int| 0 <= j < k ==> !ends_call(#[trigger] actions[j])
            &&& forall|j: int| k < j < actions.len() ==> #[trigger] actions[j] == ActionView::Idle
            &&& actions[k] is Reply ==> k >= 1 && actions[k - 1] is RemoveFiles && actions[k]
                == ActionView::Reply(s.reply)
        }
}

proof fn lemma_run_stays_in_step(s: SessionView, events: Seq<EventView>)
    requires
        s.stage == EncodeStage::MakingDirs,
        reply_is_sound(s),
    ensures
        in_step(session_after(s, events), actions_for(s, events)),
        actions_for(s, events).len() == events.len(),
        session_after(s, events).input_path == s.input_path,
        session_after(s, events).output_path == s.output_path,
        session_after(s, events).chunk_index == s.chunk_index,
    decreases events.len(),
{
    if events.len() > 0 {
        let before = session_after(s, events.drop_last());
        let done = actions_for(s, events.drop_last());
        lemma_run_stays_in_step(s, events.drop_last());
        let after = step(before, events.last());
        let now = done.push(after.1);
        assert(actions_for(s, events) == now);
        assert(session_after(s, events) == after.0);
        assert forall|k: int| 0 <= k < done.len() implies now[k] == done[k] by {}
        if before.stage == EncodeStage::Closed {
            let k = choose|k: int|
                {
                    &&& 0 <= k < done.len()
                    &&& ends_call(#[trigger] done[k])
                    &&& forall|j: int| 0 <= j < k ==> !ends_call(#[trigger] done[j])
                    &&& forall|j: int|
                        k < j < done.len() ==> #[trigger] done[j] == ActionView::Idle
                    &&& done[k] is Reply ==> k >= 1 && done[k - 1] is RemoveFiles && done[k]
                        == ActionView::Reply(before.reply)
                };
            assert(ends_call(now[k]));
            assert(forall|j: int| 0 <= j < k ==> !ends_call(#[trigger] now[j]));
            assert(forall|j: int| k < j < now.len() ==> #[trigger] now[j] == ActionView::Idle);
        } else if after.0.stage == EncodeStage::Closed {
            let k = done.len() as int;
            assert(ends_call(now[k]));
            assert(forall|j: int| 0 <= j < k ==> !ends_call(#[trigger] now[j]));
            if now[k] is Reply {
                assert(before.stage == EncodeStage::Cleaning);
                assert(now[k - 1] == done.last());
            }
        } else {
            assert forall|j: int| 0 <= j < now.len() implies !ends_call(#[trigger] now[j]) by {
                if j < done.len() {
                    assert(now[j] == done[j]);
                }
            }
        }
    }
}

/// Every request is answered once at most, and never before the deletion of
/// its scratch files has been handed out.
///
/// Take a session as it is opened, and any events in any order. Among the
/// actions that are handed out, at most one ends the call. All that follow
/// it are idle. If it is a reply, the action just before it was the deletion
/// of both scratch files; the reply names the request's index, and carries
/// data only if it reports success.
pub proof fn lemma_a_request_is_answered_once(s: SessionView, events: Seq<EventView>)
    requires
        s.stage == EncodeStage::MakingDirs,
        reply_is_sound(s),
    ensures
        forall|i: int, j: int|
            0 <= i < j < events.len() && ends_call(#[trigger] actions_for(s, events)[i])
                ==> #[trigger] actions_for(s, events)[j] == ActionView::Idle,
        forall|i: int|
            0 <= i < events.len() && (#[trigger] actions_for(s, events)[i]) is Reply ==> {
                &&& i >= 1
                &&& actions_for(s, events)[i - 1] == (ActionView::RemoveFiles {
                    input: s.input_path,
                    output: s.output_path,
                })
                &&& actions_for(s, events)[i]->Reply_0.chunk_index == s.chunk_index
                &&& !actions_for(s, events)[i]->Reply_0.success ==> actions_for(
                    s,
                    events,
                )[i]->Reply_0.encoded_chunk_data.len() == 0
            },
{
    lemma_run_stays_in_step(s, events);
    let actions = actions_for(s, events);
    assert forall|i: int| 0 <= i < events.len() && (#[trigger] actions[i]) is Reply implies {
        &&& i >= 1
        &&& actions[i - 1] == (ActionView::RemoveFiles {
            input: s.input_path,
            output: s.output_path,
        })
        &&& actions[i]->Reply_0.chunk_index == s.chunk_index
        &&& !actions[i]->Reply_0.success ==> actions[i]->Reply_0.encoded_chunk_data.len() == 0
    } by {
        lemma_prefix(s, events, i + 1);
        let upto = events.subrange(0, i + 1);
        lemma_run_stays_in_step(s, upto);
        lemma_run_stays_in_step(s, upto.drop_last());
        let before = session_after(s, upto.drop_last());
        assert(actions_for(s, upto).last() == step(before, upto.last()).1);
        assert(actions[i] == actions_for(s, upto)[i]);
        assert(before.stage == EncodeStage::Cleaning);
        lemma_prefix(s, events, i);
        assert(upto.drop_last() =~= events.subrange(0, i));
        assert(actions_for(s, upto.drop_last()).last() == actions[i - 1]);
    }
    assert forall|i: int, j: int|
        0 <= i < j < events.len() && ends_call(#[trigger] actions[i]) implies #[trigger] actions[j]
        == ActionView::Idle by {
        let end = session_after(s, events);
        if end.stage != EncodeStage::Closed {
            assert(!ends_call(actions[i]));
        } else {
            let k = choose|k: int|
                {
                    &&& 0 <= k < actions.len()
                    &&& ends_call(#[trigger] actions[k])
                    &&& forall|j: int| 0 <= j < k ==> !ends_call(#[trigger] actions[j])
                    &&& forall|j: int|
                        k < j < actions.len() ==> #[trigger] actions[j] == ActionView::Idle
                    &&& actions[k] is Reply ==> k >= 1 && actions[k - 1] is RemoveFiles
                        && actions[k] == ActionView::Reply(end.reply)
                };
            if i < k {
                assert(!ends_call(actions[i]));
            } else if i > k {
                assert(actions[i] == ActionView::Idle);
            }
        }
    }
}

proof fn lemma_prefix(s: SessionView, events: Seq<EventView>, n: int)
    requires
        0 <= n <= events.len(),
    ensures
        actions_for(s, events.subrange(0, n)) == actions_for(s, events).subrange(0, n),
        actions_for(s, events).len() == events.len(),
    decreases events.len(),
{
    if events.len() == 0 {
        assert(events.subrange(0, n) =~= events);
        assert(actions_for(s, events).subrange(0, n) =~= actions_for(s, events));
    } else if n == events.len() {
        lemma_prefix(s, events.drop_last(), n - 1);
        assert(events.subrange(0, n) =~= events);
        assert(actions_for(s, events).subrange(0, n) =~= actions_for(s, events));
    } else {
        lemma_prefix(s, events.drop_last(), n);
        assert(events.subrange(0, n) =~= events.drop_last().subrange(0, n));
        assert(actions_for(s, events).subrange(0, n) =~= actions_for(s, events.drop_last()).subrange(
            0,
            n,
        ));
    }
}

} // verus!
