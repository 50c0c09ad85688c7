//! Whether the external programs are installed.

use vstd::prelude::*;
use crate::error::VideoEncodeError;

verus! {

/// Looks for an executable named `name` on the search path, with
/// `which::which`, and says whether one was found. The answer depends on the
/// environment and the disk, so nothing is promised of it.
#[verifier::external_body]
fn program_found(name: &str) -> (found: bool) {
    which::which(name).is_ok()
}

/// The verdict on the search for the encoder.
pub fn ffmpeg_verdict(found: bool) -> (r: Result<(), VideoEncodeError>)
    ensures
        found ==> r is Ok,
        !found ==> r == Err::<(), VideoEncodeError>(VideoEncodeError::FfmpegNotFound),
{
    if found {
        Ok(())
    } else {
        Err(VideoEncodeError::FfmpegNotFound)
    }
}

/// The verdict on the search for the merger.
pub fn mkvmerge_verdict(found: bool) -> (r: Result<(), VideoEncodeError>)
    ensures
        found ==> r is Ok,
        !found ==> r == Err::<(), VideoEncodeError>(VideoEncodeError::MkvmergeNotFound),
{
    if found {
        Ok(())
    } else {
        Err(VideoEncodeError::MkvmergeNotFound)
    }
}

/// Checks that the encoder `ffmpeg` is installed; the only error is
/// `FfmpegNotFound`.
pub fn verify_ffmpeg() -> (r: Result<(), VideoEncodeError>)
    ensures
        r is Err ==> r == Err::<(), VideoEncodeError>(VideoEncodeError::FfmpegNotFound),
{
    ffmpeg_verdict(program_found("ffmpeg"))
}

/// Checks that the merger `mkvmerge` is installed; the only error is
/// `MkvmergeNotFound`.
pub fn verify_mkvmerge() -> (r: Result<(), VideoEncodeError>)
    ensures
        r is Err ==> r == Err::<(), VideoEncodeError>(VideoEncodeError::MkvmergeNotFound),
{
    mkvmerge_verdict(program_found("mkvmerge"))
}

} // verus!
