//! What the dashboard's WebSocket decides: which frames end the connection,
//! and what a client's message asks for.

use vstd::prelude::*;
use vstd::string::*;
use crate::constellation::config::ConstellationConfig;
use crate::text::same_text;

verus! {

/// A frame as it comes in.
#[derive(Debug, Clone, PartialEq, Eq)]
pub enum WsFrame {
    /// A text frame.
    Text(String),
    /// The peer closes the connection.
    Close,
    /// The connection failed.
    Failed,
    /// Any other frame.
    Other,
}

/// What to do with a frame.
#[derive(Debug, Clone, PartialEq, Eq)]
pub enum WsStep {
    /// Read the text as a message.
    Read(String),
    /// Go on with the next frame.
    Skip,
    /// End the connection.
    End,
}

/// What a client's message asks for.
#[derive(Debug, Clone, PartialEq, Eq)]
pub enum WsCommand {
    /// `ping`: a sign of life.
    Ping,
    /// `request_update`: the dashboard's data, now.
    RequestUpdate,
    /// `subscribe`: the topic, where one is named, is noted.
    Subscribe(Option<String>),
    /// Anything else: it is logged and passed over.
    Unknown,
}

/// The type under which the dashboard's data is pushed.
pub open spec fn update_type() -> Seq<char> {
    "dashboard_update"@
}

/// What to do with `frame`: text is read, a close or a failure ends the
/// connection, anything else is passed over.
pub fn websocket_handler(frame: WsFrame) -> (step: WsStep)
    ensures
        step == match frame {
            WsFrame::Text(text) => WsStep::Read(text),
            WsFrame::Close => WsStep::End,
            WsFrame::Failed => WsStep::End,
            WsFrame::Other => WsStep::Skip,
        },
{
    match frame {
        WsFrame::Text(text) => WsStep::Read(text),
        WsFrame::Close => WsStep::End,
        WsFrame::Failed => WsStep::End,
        WsFrame::Other => WsStep::Skip,
    }
}

/// What a message asks for, given its `type` and `topic` fields as far as
/// they are there and are strings.
pub fn handle_websocket_message(message_type: Option<&str>, topic: Option<String>) -> (command:
    WsCommand)
    ensures
        command == match message_type {
            Some(t) => if t@ == "ping"@ {
                WsCommand::Ping
            } else if t@ == "request_update"@ {
                WsCommand::RequestUpdate
            } else if t@ == "subscribe"@ {
                WsCommand::Subscribe(topic)
            } else {
                WsCommand::Unknown
            },
            None => WsCommand::Unknown,
        },
{
    match message_type {
        Some(t) => {
            if same_text(t, "ping") {
                WsCommand::Ping
            } else if same_text(t, "request_update") {
                WsCommand::RequestUpdate
            } else if same_text(t, "subscribe") {
                WsCommand::Subscribe(topic)
            } else {
                WsCommand::Unknown
            }
        },
        None => WsCommand::Unknown,
    }
}

/// The type under which the dashboard's data is pushed.
pub fn push_type() -> (t: String)
    ensures
        t@ == update_type(),
{
    String::from_str("dashboard_update")
}

/// Milliseconds between two pushes of the dashboard's data.
pub fn push_interval_ms(config: &ConstellationConfig) -> (ms: u64)
    ensures
        ms == config.dashboard.refresh_interval_ms,
{
    config.dashboard.refresh_interval_ms
}

} // verus!
