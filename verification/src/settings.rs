//! The settings record that the client and the node work from.

use vstd::prelude::*;
use vstd::string::*;
use crate::error::{labelled, ErrorKind, VideoEncodeError};
use crate::paths::{join, joined};
use crate::text::{push_text, texts, to_chars};
use crate::words::{equal_ignoring_case, same_ignoring_case};

verus! {

/// What the client needs to know of its nodes and its encoder.
#[derive(Debug, Clone, PartialEq, Eq)]
pub struct ClientSettings {
    /// The nodes' addresses.
    pub node_addresses: Vec<String>,
    /// The encoder's command-line arguments.
    pub encoder_params: Vec<String>,
}

/// What a node needs to know of itself.
#[derive(Debug, Clone, PartialEq, Eq)]
pub struct NodeSettings {
    /// The address on which the node listens.
    pub address: String,
    /// The node's scratch directory.
    pub temp_dir: String,
}

/// The program that stitches the encoded segments together.
#[derive(Debug, Clone, Copy, PartialEq, Eq, Structural)]
pub enum ConcatenatorChoice {
    /// The concat back-end of `ffmpeg`.
    Ffmpeg,
    /// The merge back-end, `mkvmerge`.
    Mkvmerge,
}

/// How a job is processed, but for the segment length, which stays with the
/// caller.
#[derive(Debug, Clone, PartialEq, Eq)]
pub struct ProcessingSettings {
    /// The directory under which each job gets its scratch space.
    pub temp_dir: String,
    /// The program that stitches the result together.
    pub concatenator: ConcatenatorChoice,
}

/// The `[processing]` section of a settings file, as far as it is not the
/// segment length.
#[derive(Debug, Clone, PartialEq, Eq)]
pub struct ProcessingSection {
    /// The directory under which each job gets its scratch space.
    pub temp_dir: String,
    /// The name of the program that stitches the result together, where one
    /// is named.
    pub concatenator: Option<String>,
}

/// All settings.
#[derive(Debug, Clone, PartialEq, Eq)]
pub struct Settings {
    pub client: ClientSettings,
    pub node: NodeSettings,
    pub processing: ProcessingSettings,
}

/// The directory that holds scratch space where no other is named.
pub open spec fn default_temp_root() -> Seq<char> {
    "/tmp"@
}

/// The encoder arguments that are used where none are configured.
pub open spec fn default_encoder_params() -> Seq<Seq<char>> {
    seq!["-c:v"@, "libx264"@, "-crf"@, "23"@]
}

impl Default for ClientSettings {
    /// One node on this machine, and H.264 at constant quality.
    fn default() -> (r: ClientSettings)
        ensures
            texts(r.node_addresses@) == seq!["127.0.0.1:50051"@],
            texts(r.encoder_params@) == default_encoder_params(),
    {
        let mut node_addresses: Vec<String> = Vec::new();
        let mut encoder_params: Vec<String> = Vec::new();
        proof {
            assert(texts(node_addresses@) =~= Seq::<Seq<char>>::empty());
            assert(texts(encoder_params@) =~= Seq::<Seq<char>>::empty());
        }
        push_text(&mut node_addresses, "127.0.0.1:50051");
        push_text(&mut encoder_params, "-c:v");
        push_text(&mut encoder_params, "libx264");
        push_text(&mut encoder_params, "-crf");
        push_text(&mut encoder_params, "23");
        ClientSettings { node_addresses, encoder_params }
    }
}

impl NodeSettings {
    /// The node's defaults with its scratch directory under `temp_root`.
    pub fn in_temp_root(temp_root: &str) -> (r: NodeSettings)
        ensures
            r.address@ == "0.0.0.0:50051"@,
            r.temp_dir@ == joined(temp_root@, "ferris_swarm_node"@),
    {
        NodeSettings {
            address: String::from_str("0.0.0.0:50051"),
            temp_dir: join(temp_root, "ferris_swarm_node"),
        }
    }
}

impl Default for NodeSettings {
    /// Every interface, port 50051, and scratch space under `/tmp`.
    fn default() -> (r: NodeSettings)
        ensures
            r.address@ == "0.0.0.0:50051"@,
            r.temp_dir@ == joined(default_temp_root(), "ferris_swarm_node"@),
    {
        NodeSettings::in_temp_root("/tmp")
    }
}

impl ConcatenatorChoice {
    /// The back-end that a settings file names: `ffmpeg` or `mkvmerge`, in
    /// any case of the letters.
    pub open spec fn named(name: Seq<char>) -> Option<ConcatenatorChoice> {
        if same_ignoring_case(name, "ffmpeg"@) {
            Some(ConcatenatorChoice::Ffmpeg)
        } else if same_ignoring_case(name, "mkvmerge"@) {
            Some(ConcatenatorChoice::Mkvmerge)
        } else {
            None
        }
    }

    /// Reads the back-end's name as a settings file gives it.
    pub fn from_name(name: &str) -> (r: Option<ConcatenatorChoice>)
        ensures
            r == ConcatenatorChoice::named(name@),
    {
        let given = to_chars(name);
        let ffmpeg = to_chars("ffmpeg");
        let mkvmerge = to_chars("mkvmerge");
        if equal_ignoring_case(given.as_slice(), ffmpeg.as_slice()) {
            Some(ConcatenatorChoice::Ffmpeg)
        } else if equal_ignoring_case(given.as_slice(), mkvmerge.as_slice()) {
            Some(ConcatenatorChoice::Mkvmerge)
        } else {
            None
        }
    }
}

impl Default for ConcatenatorChoice {
    /// The concat back-end.
    fn default() -> (r: ConcatenatorChoice)
        ensures
            r == ConcatenatorChoice::Ffmpeg,
    {
        ConcatenatorChoice::Ffmpeg
    }
}

impl ProcessingSettings {
    /// The defaults with the jobs' scratch space under `temp_root`.
    pub fn in_temp_root(temp_root: &str) -> (r: ProcessingSettings)
        ensures
            r.temp_dir@ == joined(temp_root@, "ferris_swarm_processing"@),
            r.concatenator == ConcatenatorChoice::Ffmpeg,
    {
        ProcessingSettings {
            temp_dir: join(temp_root, "ferris_swarm_processing"),
            concatenator: ConcatenatorChoice::Ffmpeg,
        }
    }
}

impl Default for ProcessingSettings {
    /// Scratch space under `/tmp`, and the concat back-end.
    fn default() -> (r: ProcessingSettings)
        ensures
            r.temp_dir@ == joined(default_temp_root(), "ferris_swarm_processing"@),
            r.concatenator == ConcatenatorChoice::Ffmpeg,
    {
        ProcessingSettings::in_temp_root("/tmp")
    }
}

impl Settings {
    /// The defaults of all three sections, with scratch space under
    /// `temp_root`.
    pub fn in_temp_root(temp_root: &str) -> (r: Settings)
        ensures
            texts(r.client.node_addresses@) == seq!["127.0.0.1:50051"@],
            texts(r.client.encoder_params@) == default_encoder_params(),
            r.node.address@ == "0.0.0.0:50051"@,
            r.node.temp_dir@ == joined(temp_root@, "ferris_swarm_node"@),
            r.processing.temp_dir@ == joined(temp_root@, "ferris_swarm_processing"@),
            r.processing.concatenator == ConcatenatorChoice::Ffmpeg,
    {
        Settings {
            client: ClientSettings::default(),
            node: NodeSettings::in_temp_root(temp_root),
            processing: ProcessingSettings::in_temp_root(temp_root),
        }
    }
}

/// What a settings file with an unknown back-end is refused with.
pub open spec fn unknown_concatenator(name: Seq<char>) -> Seq<char> {
    "Unknown concatenator: "@ + name
}

impl Settings {
    /// The settings that a settings file stands for, given the sections
    /// that it holds.
    ///
    /// Every section is optional: one that is missing is taken from the
    /// defaults, with scratch space under `temp_root`. A `[processing]`
    /// section that names no back-end gets the concat back-end; one that
    /// names neither `ffmpeg` nor `mkvmerge`, in any case of the letters, is
    /// a configuration error.
    pub fn from_sections(
        temp_root: &str,
        client: Option<ClientSettings>,
        node: Option<NodeSettings>,
        processing: Option<ProcessingSection>,
    ) -> (r: Result<Settings, VideoEncodeError>)
        ensures
            match processing {
                Some(section) => match section.concatenator {
                    Some(name) => match ConcatenatorChoice::named(name@) {
                        Some(choice) => r is Ok && r->Ok_0.processing.concatenator == choice
                            && r->Ok_0.processing.temp_dir == section.temp_dir,
                        None => r is Err && r->Err_0.says(
                            ErrorKind::Config,
                            unknown_concatenator(name@),
                        ),
                    },
                    None => r is Ok && r->Ok_0.processing.concatenator
                        == ConcatenatorChoice::Ffmpeg && r->Ok_0.processing.temp_dir
                        == section.temp_dir,
                },
                None => r is Ok && r->Ok_0.processing.concatenator == ConcatenatorChoice::Ffmpeg
                    && r->Ok_0.processing.temp_dir@ == joined(
                    temp_root@,
                    "ferris_swarm_processing"@,
                ),
            },
            r is Ok ==> match client {
                Some(section) => r->Ok_0.client == section,
                None => texts(r->Ok_0.client.node_addresses@) == seq!["127.0.0.1:50051"@] && texts(
                    r->Ok_0.client.encoder_params@,
                ) == default_encoder_params(),
            },
            r is Ok ==> match node {
                Some(section) => r->Ok_0.node == section,
                None => r->Ok_0.node.address@ == "0.0.0.0:50051"@ && r->Ok_0.node.temp_dir@
                    == joined(temp_root@, "ferris_swarm_node"@),
            },
    {
        let processing = match processing {
            Some(section) => {
                let concatenator = match &section.concatenator {
                    Some(name) => match ConcatenatorChoice::from_name(name.as_str()) {
                        Some(choice) => choice,
                        None => {
                            return Err(
                                VideoEncodeError::Config(
                                    labelled("Unknown concatenator: ", name.as_str()),
                                ),
                            );
                        },
                    },
                    None => ConcatenatorChoice::Ffmpeg,
                };
                ProcessingSettings { temp_dir: section.temp_dir, concatenator }
            },
            None => ProcessingSettings::in_temp_root(temp_root),
        };
        let client = match client {
            Some(section) => section,
            None => ClientSettings::default(),
        };
        let node = match node {
            Some(section) => section,
            None => NodeSettings::in_temp_root(temp_root),
        };
        Ok(Settings { client, node, processing })
    }
}

impl Default for Settings {
    /// The defaults of all three sections.
    fn default() -> (r: Settings)
        ensures
            texts(r.client.node_addresses@) == seq!["127.0.0.1:50051"@],
            texts(r.client.encoder_params@) == default_encoder_params(),
            r.node.address@ == "0.0.0.0:50051"@,
            r.node.temp_dir@ == joined(default_temp_root(), "ferris_swarm_node"@),
            r.processing.temp_dir@ == joined(default_temp_root(), "ferris_swarm_processing"@),
            r.processing.concatenator == ConcatenatorChoice::Ffmpeg,
    {
        Settings::in_temp_root("/tmp")
    }
}

} // verus!
