//! Where a job keeps its scratch files.

use vstd::prelude::*;
use vstd::string::*;
use vstd::utf8::encode_utf8;
use crate::digest::{
    hex_encode,
    hex_lower,
    is_hex_digit,
    lemma_hex_lower_shape,
    sha256,
    sha256_digest,
};
use crate::paths::{join, joined, path_exists};
use crate::settings::{default_temp_root, Settings};

verus! {

/// The scratch layout of one job.
#[derive(Clone, Debug, Default, PartialEq, Eq)]
pub struct JobTempConfig {
    /// The job's own directory.
    pub base_dir: String,
    /// Where the segments of the source go.
    pub segments_subdir: String,
    /// Where the encoded chunks go as they come back.
    pub encoded_subdir: String,
}

/// The name of a job's directory: the first eight bytes, in hexadecimal, of
/// the SHA-256 digest of the input path followed by the output path, both in
/// UTF-8.
pub open spec fn job_hash(input_file: Seq<char>, output_file: Seq<char>) -> Seq<char> {
    hex_lower(
        sha256(encode_utf8(input_file) + encode_utf8(output_file)).subrange(
            0,
            8,
        ),
    )
}

/// The directory of the job with hash `hash` under the scratch root `root`.
pub open spec fn job_dir(root: Seq<char>, hash: Seq<char>) -> Seq<char> {
    joined(joined(root, "ferris_swarm_jobs"@), hash)
}

fn append_bytes(out: &mut Vec<u8>, bytes: &[u8])
    ensures
        final(out)@ == old(out)@ + bytes@,
{
    let mut i: usize = 0;
    proof {
        assert(out@ =~= old(out)@ + bytes@.subrange(0, 0));
    }
    while i < bytes.len()
        invariant
            i <= bytes.len(),
            out@ == old(out)@ + bytes@.subrange(0, i as int),
        decreases bytes.len() - i,
    {
        out.push(bytes[i]);
        proof {
            assert(out@ =~= old(out)@ + bytes@.subrange(0, i + 1));
        }
        i += 1;
    }
    proof {
        assert(bytes@.subrange(0, bytes@.len() as int) =~= bytes@);
    }
}

/// Computes the name of a job's directory.
///
/// The name depends on the two paths alone: the same job has the same name
/// in every run and on every machine. It is sixteen hexadecimal digits long.
pub fn generate_hash(input_file: &str, output_file: &str) -> (hash: String)
    ensures
        hash@ == job_hash(input_file@, output_file@),
        hash@.len() == 16,
        forall|i: int| 0 <= i < 16 ==> is_hex_digit(#[trigger] hash@[i]),
{
    let mut data: Vec<u8> = Vec::new();
    append_bytes(&mut data, input_file.as_bytes());
    append_bytes(&mut data, output_file.as_bytes());
    proof {
        assert(data@ =~= encode_utf8(input_file@) + encode_utf8(
            output_file@,
        ));
    }
    let digest = sha256_digest(data.as_slice());
    let mut head: Vec<u8> = Vec::new();
    let mut i: usize = 0;
    while i < 8
        invariant
            i <= 8,
            digest@.len() == 32,
            head@ == digest@.subrange(0, i as int),
        decreases 8 - i,
    {
        head.push(digest[i]);
        proof {
            assert(head@ =~= digest@.subrange(0, i + 1));
        }
        i += 1;
    }
    proof {
        lemma_hex_lower_shape(head@);
    }
    hex_encode(head.as_slice())
}

impl JobTempConfig {
    /// The layout of the job that turns `input_file_for_hash` into
    /// `output_file_for_hash`, under the given scratch root, or under `/tmp`
    /// where none is given.
    pub fn new(
        processing_temp_base_dir: Option<String>,
        input_file_for_hash: &str,
        output_file_for_hash: &str,
    ) -> (config: JobTempConfig)
        ensures
            config.base_dir@ == job_dir(
                match processing_temp_base_dir {
                    Some(root) => root@,
                    None => default_temp_root(),
                },
                job_hash(input_file_for_hash@, output_file_for_hash@),
            ),
            config.segments_subdir@ == joined(config.base_dir@, "segments"@),
            config.encoded_subdir@ == joined(config.base_dir@, "encoded_chunks"@),
    {
        let hash = generate_hash(input_file_for_hash, output_file_for_hash);
        let root = match processing_temp_base_dir {
            Some(root) => root,
            None => String::from_str("/tmp"),
        };
        let jobs = join(root.as_str(), "ferris_swarm_jobs");
        let base_dir = join(jobs.as_str(), hash.as_str());
        let segments_subdir = join(base_dir.as_str(), "segments");
        let encoded_subdir = join(base_dir.as_str(), "encoded_chunks");
        JobTempConfig { base_dir, segments_subdir, encoded_subdir }
    }

    /// Where the segments of the source go.
    pub fn segments_dir(&self) -> (dir: String)
        ensures
            dir@ == self.segments_subdir@,
    {
        self.segments_subdir.clone()
    }

    /// Where the encoded chunks go as they come back.
    pub fn encoded_chunks_dir(&self) -> (dir: String)
        ensures
            dir@ == self.encoded_subdir@,
    {
        self.encoded_subdir.clone()
    }

    /// The directories that the job needs before it begins, in the order in
    /// which they are to be made: its own, then the two under it.
    pub fn directories(&self) -> (dirs: Vec<String>)
        ensures
            dirs@.len() == 3,
            dirs@[0]@ == self.base_dir@,
            dirs@[1]@ == self.segments_subdir@,
            dirs@[2]@ == self.encoded_subdir@,
    {
        let mut dirs: Vec<String> = Vec::new();
        dirs.push(self.base_dir.clone());
        dirs.push(self.segments_subdir.clone());
        dirs.push(self.encoded_subdir.clone());
        dirs
    }

    /// What is to be removed when the job ends, well or badly: the job's
    /// directory with all that is in it, where it is on disk; nothing where
    /// it is not.
    pub fn delete_job_temp_dirs(&self) -> (target: Option<String>)
        ensures
            target is Some ==> target->0@ == self.base_dir@,
    {
        removal_target(self, path_exists(self.base_dir.as_str()))
    }
}

/// What is to be removed at the end of the job with the layout `config`,
/// given whether its directory is on disk.
pub fn removal_target(config: &JobTempConfig, on_disk: bool) -> (target: Option<String>)
    ensures
        on_disk ==> target is Some && target->0@ == config.base_dir@,
        !on_disk ==> target is None,
{
    if on_disk {
        Some(config.base_dir.clone())
    } else {
        None
    }
}

/// The layout of a job under the scratch root that the settings name.
pub fn create_job_temp_config(settings: &Settings, input_file: &str, output_file: &str) -> (config:
    JobTempConfig)
    ensures
        config.base_dir@ == job_dir(
            settings.processing.temp_dir@,
            job_hash(input_file@, output_file@),
        ),
        config.segments_subdir@ == joined(config.base_dir@, "segments"@),
        config.encoded_subdir@ == joined(config.base_dir@, "encoded_chunks"@),
{
    JobTempConfig::new(Some(settings.processing.temp_dir.clone()), input_file, output_file)
}

/// The hash of a job is a function of its two paths: equal paths, equal
/// hash, whenever and wherever it is computed.
pub proof fn lemma_job_hash_is_a_function(
    input_a: Seq<char>,
    output_a: Seq<char>,
    input_b: Seq<char>,
    output_b: Seq<char>,
)
    requires
        input_a == input_b,
        output_a == output_b,
    ensures
        job_hash(input_a, output_a) == job_hash(input_b, output_b),
        job_dir(default_temp_root(), job_hash(input_a, output_a)) == job_dir(
            default_temp_root(),
            job_hash(input_b, output_b),
        ),
{
}

} // verus!
