//! The chunk: one segment of the source video, the unit of dispatch.

use vstd::prelude::*;
use vstd::string::*;
use crate::error::{labelled, ErrorKind, VideoEncodeError};
use crate::paths::path_exists;
use crate::text::texts;

verus! {

/// One segment of a job, with where it lies on the client's disk.
#[derive(Debug, Clone, PartialEq, Eq)]
pub struct Chunk {
    /// The segment file that is to be encoded.
    pub source_path: String,
    /// The encoded result, once it has been received.
    pub encoded_path: Option<String>,
    /// The chunk's place in the job, counted from zero.
    pub index: usize,
    /// The encoder's command-line arguments, in order.
    pub encoder_parameters: Vec<String>,
}

/// What a chunk holds, as plain values.
pub struct ChunkView {
    pub source_path: Seq<char>,
    pub encoded_path: Option<Seq<char>>,
    pub index: nat,
    pub encoder_parameters: Seq<Seq<char>>,
}

impl View for Chunk {
    type V = ChunkView;

    open spec fn view(&self) -> ChunkView {
        ChunkView {
            source_path: self.source_path@,
            encoded_path: match self.encoded_path {
                Some(p) => Some(p@),
                None => None,
            },
            index: self.index as nat,
            encoder_parameters: texts(self.encoder_parameters@),
        }
    }
}

/// The chunk that has just been cut: nothing encoded yet.
pub open spec fn fresh_chunk(source_path: Seq<char>, index: nat, parameters: Seq<Seq<char>>)
    -> ChunkView {
    ChunkView { source_path, encoded_path: None, index, encoder_parameters: parameters }
}

/// Whether `e` reports that the segment file `source_path` is not on disk.
pub open spec fn is_missing_source(e: VideoEncodeError, source_path: Seq<char>) -> bool {
    e.says(ErrorKind::Io, "Source path does not exist: "@ + source_path)
}

/// A copy of `list`, string by string.
pub fn copy_strings(list: &Vec<String>) -> (out: Vec<String>)
    ensures
        texts(out@) == texts(list@),
        out@.len() == list@.len(),
{
    let mut out: Vec<String> = Vec::new();
    let mut i: usize = 0;
    while i < list.len()
        invariant
            i <= list.len(),
            out@.len() == i,
            forall|k: int| 0 <= k < i ==> (#[trigger] out@[k])@ == list@[k]@,
        decreases list.len() - i,
    {
        out.push(list[i].clone());
        i += 1;
    }
    proof {
        assert(texts(out@) =~= texts(list@));
    }
    out
}

impl Chunk {
    /// The chunk for the segment file `source_path`, once the file system has
    /// said whether that file is there.
    ///
    /// A segment that is on disk gives the fresh chunk; one that is not gives
    /// an I/O error that names the path.
    pub fn from_probe(
        source_path: String,
        index: usize,
        encoder_parameters: Vec<String>,
        exists: bool,
    ) -> (r: Result<Chunk, VideoEncodeError>)
        ensures
            exists ==> r is Ok && r->Ok_0@ == fresh_chunk(
                source_path@,
                index as nat,
                texts(encoder_parameters@),
            ),
            !exists ==> r is Err && is_missing_source(r->Err_0, source_path@),
    {
        if !exists {
            return Err(
                VideoEncodeError::Io(labelled("Source path does not exist: ", source_path.as_str())),
            );
        }
        Ok(Chunk { source_path, encoded_path: None, index, encoder_parameters })
    }

    /// The chunk for the segment file `source_path`, which is looked up on
    /// disk first.
    ///
    /// Whether the file is there is the file system's answer; whatever it is,
    /// the result is that of [`Chunk::from_probe`] for it.
    pub fn new(source_path: String, index: usize, encoder_parameters: Vec<String>) -> (r: Result<
        Chunk,
        VideoEncodeError,
    >)
        ensures
            r is Ok ==> r->Ok_0@ == fresh_chunk(
                source_path@,
                index as nat,
                texts(encoder_parameters@),
            ),
            r is Err ==> is_missing_source(r->Err_0, source_path@),
    {
        let exists = path_exists(source_path.as_str());
        Chunk::from_probe(source_path, index, encoder_parameters, exists)
    }

    /// Records where the encoded result lies.
    pub fn set_encoded_path(&mut self, encoded_path: String)
        ensures
            final(self)@ == (ChunkView { encoded_path: Some(encoded_path@), ..old(self)@ }),
    {
        self.encoded_path = Some(encoded_path);
    }

    /// A copy of this chunk whose encoded result lies at `encoded_path`.
    pub fn with_encoded_path(&self, encoded_path: String) -> (out: Chunk)
        ensures
            out@ == (ChunkView { encoded_path: Some(encoded_path@), ..self@ }),
    {
        Chunk {
            source_path: self.source_path.clone(),
            encoded_path: Some(encoded_path),
            index: self.index,
            encoder_parameters: copy_strings(&self.encoder_parameters),
        }
    }

    /// A copy of this chunk.
    pub fn duplicate(&self) -> (out: Chunk)
        ensures
            out@ == self@,
    {
        Chunk {
            source_path: self.source_path.clone(),
            encoded_path: match &self.encoded_path {
                Some(p) => Some(p.clone()),
                None => None,
            },
            index: self.index,
            encoder_parameters: copy_strings(&self.encoder_parameters),
        }
    }
}

/// The views of a list of chunks.
pub open spec fn chunk_views(chunks: Seq<Chunk>) -> Seq<ChunkView> {
    chunks.map_values(|c: Chunk| c@)
}

/// The chunks of a job whose segments are `segments`, in that order: the
/// chunk at position `i` has index `i`, and each carries `parameters`.
pub open spec fn fresh_chunks(segments: Seq<Seq<char>>, parameters: Seq<Seq<char>>) -> Seq<
    ChunkView,
> {
    Seq::new(segments.len(), |i: int| fresh_chunk(segments[i], i as nat, parameters))
}

/// The position of the first segment that is not on disk, if there is one.
pub open spec fn first_missing(exists: Seq<bool>) -> Option<int>
    decreases exists.len(),
{
    if exists.len() == 0 {
        None
    } else if !exists[0] {
        Some(0)
    } else {
        match first_missing(exists.drop_first()) {
            Some(k) => Some(k + 1),
            None => None,
        }
    }
}

/// For each of `count` segments, whether the file system said that it is on
/// disk; a segment for which `exists` holds no answer counts as absent.
pub open spec fn answers(count: nat, exists: Seq<bool>) -> Seq<bool> {
    Seq::new(count, |i: int| i < exists.len() && exists[i])
}

/// Turns the segment files of a job into its chunks, given for each segment
/// whether it is on disk.
///
/// With every segment there, the result is the job's fresh chunks in segment
/// order. Otherwise it is the I/O error for the first segment that is not.
pub fn chunks_from_probes(
    segments: Vec<String>,
    encoder_params: Vec<String>,
    exists_list: &Vec<bool>,
) -> (r: Result<Vec<Chunk>, VideoEncodeError>)
    ensures
        match first_missing(answers(segments@.len(), exists_list@)) {
            None => r is Ok && chunk_views(r->Ok_0@) == fresh_chunks(
                texts(segments@),
                texts(encoder_params@),
            ),
            Some(k) => r is Err && 0 <= k < segments@.len() && is_missing_source(
                r->Err_0,
                segments@[k]@,
            ),
        },
{
    let mut chunks: Vec<Chunk> = Vec::new();
    let n = segments.len();
    let mut i: usize = 0;
    let ghost given = exists_list@;
    let ghost exists = answers(segments@.len(), given);
    proof {
        assert(exists.subrange(0, n as int) =~= exists);
    }
    while i < n
        invariant
            i <= n,
            n == segments@.len(),
            n == exists.len(),
            exists == answers(segments@.len(), given),
            given == exists_list@,
            chunks@.len() == i,
            forall|k: int|
                0 <= k < i ==> (#[trigger] chunks@[k])@ == fresh_chunk(
                    segments@[k]@,
                    k as nat,
                    texts(encoder_params@),
                ),
            first_missing(exists) == match first_missing(exists.subrange(i as int, n as int)) {
                Some(k) => Some(k + i),
                None => None,
            },
        decreases n - i,
    {
        proof {
            assert(exists.subrange(i as int, n as int).drop_first() =~= exists.subrange(
                i + 1,
                n as int,
            ));
        }
        let here = i < exists_list.len() && exists_list[i];
        let made = Chunk::from_probe(segments[i].clone(), i, copy_strings(&encoder_params), here);
        match made {
            Ok(chunk) => {
                chunks.push(chunk);
            },
            Err(e) => {
                return Err(e);
            },
        }
        i += 1;
    }
    proof {
        assert(chunk_views(chunks@) =~= fresh_chunks(texts(segments@), texts(encoder_params@)));
    }
    Ok(chunks)
}

/// Turns the segment files of a job into its chunks, looking each one up on
/// disk.
///
/// What is on disk decides between the two outcomes; each is as
/// [`chunks_from_probes`] gives it.
pub fn convert_files_to_chunks(segments: Vec<String>, encoder_params: Vec<String>) -> (r: Result<
    Vec<Chunk>,
    VideoEncodeError,
>)
    ensures
        r is Ok ==> chunk_views(r->Ok_0@) == fresh_chunks(
            texts(segments@),
            texts(encoder_params@),
        ),
        r is Err ==> exists|k: int|
            0 <= k < segments@.len() && is_missing_source(r->Err_0, #[trigger] segments@[k]@),
        segments@.len() == 0 ==> r is Ok,
{
    let mut exists: Vec<bool> = Vec::new();
    let mut i: usize = 0;
    while i < segments.len()
        invariant
            i <= segments.len(),
            exists@.len() == i,
        decreases segments.len() - i,
    {
        exists.push(path_exists(segments[i].as_str()));
        i += 1;
    }
    chunks_from_probes(segments, encoder_params, &exists)
}

} // verus!
