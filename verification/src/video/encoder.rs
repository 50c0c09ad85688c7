//! One run of the encoder on one segment.

use vstd::prelude::*;
use vstd::string::*;
use crate::chunk::{Chunk, ChunkView};
use crate::error::{labelled, ErrorKind, VideoEncodeError};
use crate::text::texts;

verus! {

/// What a finished child process left behind.
#[derive(Debug, Clone, PartialEq, Eq)]
pub struct ProcessOutput {
    /// Whether it exited with status zero.
    pub success: bool,
    /// What it wrote to its standard output.
    pub stdout: String,
    /// What it wrote to its standard error.
    pub stderr: String,
}

/// How the attempt to run a program ended.
#[derive(Debug, Clone, PartialEq, Eq)]
pub enum Launch {
    /// The program ran to its end.
    Exited(ProcessOutput),
    /// The program could not be started; the text is the system's.
    NotStarted(String),
}

/// The encoder's arguments for one segment: the banner switched off, the
/// input, the caller's parameters in their order, and the output last.
pub open spec fn encode_arguments(input: Seq<char>, output: Seq<char>, parameters: Seq<Seq<char>>)
    -> Seq<Seq<char>> {
    seq!["-hide_banner"@, "-i"@, input] + parameters + seq![output]
}

/// The verdict on an encoder run: an error where it could not be started or
/// exited with a failure, the latter with what it wrote to standard error.
pub open spec fn encode_verdict(launch: Launch) -> Option<(ErrorKind, Seq<char>)> {
    match launch {
        Launch::NotStarted(m) => Some((ErrorKind::Io, m@)),
        Launch::Exited(o) => if o.success {
            None
        } else {
            Some((ErrorKind::Encoding, "Failed to encode with ffmpeg. Stderr: "@ + o.stderr@))
        },
    }
}

/// Builds the encoder's argument list for one segment.
pub fn ffmpeg_encode_arguments(
    input_path: &str,
    output_path: &str,
    encoder_parameters: &Vec<String>,
) -> (args: Vec<String>)
    ensures
        texts(args@) == encode_arguments(input_path@, output_path@, texts(encoder_parameters@)),
{
    let mut args: Vec<String> = Vec::new();
    args.push(String::from_str("-hide_banner"));
    args.push(String::from_str("-i"));
    args.push(String::from_str(input_path));
    let mut i: usize = 0;
    while i < encoder_parameters.len()
        invariant
            i <= encoder_parameters.len(),
            args@.len() == 3 + i,
            args@[0]@ == "-hide_banner"@,
            args@[1]@ == "-i"@,
            args@[2]@ == input_path@,
            forall|k: int| 0 <= k < i ==> (#[trigger] args@[3 + k])@ == encoder_parameters@[k]@,
        decreases encoder_parameters.len() - i,
    {
        args.push(encoder_parameters[i].clone());
        i += 1;
    }
    args.push(String::from_str(output_path));
    proof {
        let want = encode_arguments(input_path@, output_path@, texts(encoder_parameters@));
        assert(texts(args@).len() == want.len());
        assert forall|k: int| 0 <= k < want.len() implies texts(args@)[k] == want[k] by {
            if 3 <= k < 3 + i {
                assert(args@[3 + (k - 3)]@ == encoder_parameters@[k - 3]@);
            }
        }
        assert(texts(args@) =~= want);
    }
    args
}

/// Judges an encoder run.
pub fn encode_with_ffmpeg(launch: &Launch) -> (r: Result<(), VideoEncodeError>)
    ensures
        match encode_verdict(*launch) {
            None => r is Ok,
            Some((kind, detail)) => r is Err && r->Err_0.says(kind, detail),
        },
{
    match launch {
        Launch::NotStarted(m) => Err(VideoEncodeError::Io(m.clone())),
        Launch::Exited(o) => {
            if o.success {
                Ok(())
            } else {
                Err(
                    VideoEncodeError::Encoding(
                        labelled("Failed to encode with ffmpeg. Stderr: ", o.stderr.as_str()),
                    ),
                )
            }
        },
    }
}

impl Chunk {
    /// The chunk after an encoder run that was to write `output_path`: a
    /// copy with that path recorded where the run succeeded, else the run's
    /// error. The run itself is the caller's; how it ended is handed in.
    pub fn encode(&self, output_path: String, launch: &Launch) -> (r: Result<
        Chunk,
        VideoEncodeError,
    >)
        ensures
            match encode_verdict(*launch) {
                None => r is Ok && r->Ok_0@ == (ChunkView {
                    encoded_path: Some(output_path@),
                    ..self@
                }),
                Some((kind, detail)) => r is Err && r->Err_0.says(kind, detail),
            },
    {
        match encode_with_ffmpeg(launch) {
            Ok(()) => Ok(self.with_encoded_path(output_path)),
            Err(e) => Err(e),
        }
    }
}

/// A chunk that can be run through the encoder.
pub trait ChunkEncoder {
    /// The chunk as plain values.
    spec fn encoder_view(&self) -> ChunkView;

    /// The chunk after an encoder run that was to write `output_path`: with
    /// that path recorded where the run succeeded, else the run's error.
    fn encode(&self, output_path: String, launch: &Launch) -> (r: Result<Chunk, VideoEncodeError>)
        ensures
            match encode_verdict(*launch) {
                None => r is Ok && r->Ok_0@ == (ChunkView {
                    encoded_path: Some(output_path@),
                    ..self.encoder_view()
                }),
                Some((kind, detail)) => r is Err && r->Err_0.says(kind, detail),
            },
    ;
}

impl ChunkEncoder for Chunk {
    open spec fn encoder_view(&self) -> ChunkView {
        self@
    }

    fn encode(&self, output_path: String, launch: &Launch) -> (r: Result<Chunk, VideoEncodeError>) {
        Chunk::encode(self, output_path, launch)
    }
}

} // verus!
