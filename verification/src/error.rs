//! The failures that the client, the node and the video steps report.

use vstd::prelude::*;
use vstd::string::*;

verus! {

/// Why a step of a transcoding job failed.
#[derive(Debug, Clone, PartialEq, Eq)]
pub enum VideoEncodeError {
    /// A file or process could not be reached; the text is the system's.
    Io(String),
    /// The encoder ran and reported failure.
    Encoding(String),
    /// The encoder program is not installed.
    FfmpegNotFound,
    /// The merger program is not installed.
    MkvmergeNotFound,
    /// A value could not be written or read in its wire form.
    Serialization(String),
    /// The encoded segments could not be stitched together.
    Concatenation(String),
    /// The settings or the command line contradict each other.
    Config(String),
    /// A request did not reach its peer.
    Transport(String),
    /// A worker node could not be connected.
    NodeConnection(String),
    /// A chunk could not be processed.
    ChunkProcessing(String),
}

/// The kinds of failure, without their detail.
#[derive(Debug, Clone, Copy, PartialEq, Eq, Structural)]
pub enum ErrorKind {
    Io,
    Encoding,
    FfmpegNotFound,
    MkvmergeNotFound,
    Serialization,
    Concatenation,
    Config,
    Transport,
    NodeConnection,
    ChunkProcessing,
}

/// The words that introduce a failure of kind `kind`.
pub open spec fn label(kind: ErrorKind) -> Seq<char> {
    match kind {
        ErrorKind::Io => "I/O error: "@,
        ErrorKind::Encoding => "Encoding error: "@,
        ErrorKind::FfmpegNotFound => "FFmpeg not found"@,
        ErrorKind::MkvmergeNotFound => "mkvmerge not found"@,
        ErrorKind::Serialization => "Serialization error: "@,
        ErrorKind::Concatenation => "Concatenation error: "@,
        ErrorKind::Config => "Configuration error: "@,
        ErrorKind::Transport => "Network transport error: "@,
        ErrorKind::NodeConnection => "Node connection error: "@,
        ErrorKind::ChunkProcessing => "Chunk processing error: "@,
    }
}

/// The one-line description of a failure: its label, then its detail.
pub open spec fn render(kind: ErrorKind, detail: Seq<char>) -> Seq<char> {
    label(kind) + detail
}

impl VideoEncodeError {
    /// Which kind of failure this is.
    pub open spec fn kind(&self) -> ErrorKind {
        match self {
            VideoEncodeError::Io(_) => ErrorKind::Io,
            VideoEncodeError::Encoding(_) => ErrorKind::Encoding,
            VideoEncodeError::FfmpegNotFound => ErrorKind::FfmpegNotFound,
            VideoEncodeError::MkvmergeNotFound => ErrorKind::MkvmergeNotFound,
            VideoEncodeError::Serialization(_) => ErrorKind::Serialization,
            VideoEncodeError::Concatenation(_) => ErrorKind::Concatenation,
            VideoEncodeError::Config(_) => ErrorKind::Config,
            VideoEncodeError::Transport(_) => ErrorKind::Transport,
            VideoEncodeError::NodeConnection(_) => ErrorKind::NodeConnection,
            VideoEncodeError::ChunkProcessing(_) => ErrorKind::ChunkProcessing,
        }
    }

    /// Whether this is the failure of kind `kind` with the detail `detail`.
    pub open spec fn says(&self, kind: ErrorKind, detail: Seq<char>) -> bool {
        self.kind() == kind && self.detail() == detail
    }

    /// The text that `to_string` gives for this error.
    pub open spec fn message(&self) -> Seq<char> {
        render(self.kind(), self.detail())
    }

    /// The detail that the error carries; empty for the two that carry none.
    pub open spec fn detail(&self) -> Seq<char> {
        match self {
            VideoEncodeError::Io(m) => m@,
            VideoEncodeError::Encoding(m) => m@,
            VideoEncodeError::FfmpegNotFound => Seq::empty(),
            VideoEncodeError::MkvmergeNotFound => Seq::empty(),
            VideoEncodeError::Serialization(m) => m@,
            VideoEncodeError::Concatenation(m) => m@,
            VideoEncodeError::Config(m) => m@,
            VideoEncodeError::Transport(m) => m@,
            VideoEncodeError::NodeConnection(m) => m@,
            VideoEncodeError::ChunkProcessing(m) => m@,
        }
    }

    /// A one-line description: the kind of failure, then its detail.
    pub fn to_string(&self) -> (out: String)
        ensures
            out@ == self.message(),
    {
        proof {
            reveal_strlit("");
            assert(""@ =~= Seq::<char>::empty());
        }
        match self {
            VideoEncodeError::Io(m) => labelled("I/O error: ", m.as_str()),
            VideoEncodeError::Encoding(m) => labelled("Encoding error: ", m.as_str()),
            VideoEncodeError::FfmpegNotFound => labelled("FFmpeg not found", ""),
            VideoEncodeError::MkvmergeNotFound => labelled("mkvmerge not found", ""),
            VideoEncodeError::Serialization(m) => labelled("Serialization error: ", m.as_str()),
            VideoEncodeError::Concatenation(m) => labelled("Concatenation error: ", m.as_str()),
            VideoEncodeError::Config(m) => labelled("Configuration error: ", m.as_str()),
            VideoEncodeError::Transport(m) => labelled("Network transport error: ", m.as_str()),
            VideoEncodeError::NodeConnection(m) => labelled("Node connection error: ", m.as_str()),
            VideoEncodeError::ChunkProcessing(m) => labelled(
                "Chunk processing error: ",
                m.as_str(),
            ),
        }
    }
}

/// `label` followed by `detail`.
pub fn labelled(label: &str, detail: &str) -> (out: String)
    ensures
        out@ == label@ + detail@,
{
    let mut out = String::from_str(label);
    out.append(detail);
    out
}

} // verus!
