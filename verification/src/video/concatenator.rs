//! Stitching the encoded segments back together, with the sidecar of
//! non-video streams, by one of two external programs.
//!
//! The functions here check what must hold before the program is run, say
//! what it is to be run with, and judge how it ended. The caller writes the
//! manifest, runs the program and removes the manifest again.

use vstd::prelude::*;
use vstd::string::*;
use crate::error::{labelled, ErrorKind, VideoEncodeError};
use crate::paths::{join, joined, probe, probe_all, Canonical, ProbedPath};
use crate::text::{concat3, decimal, format_decimal, from_chars, push_text, texts, to_chars};
use crate::video::encoder::Launch;

verus! {

/// A path as it stands between the single quotes of a manifest line: a single
/// quote in it is written as `'\''`, every other character as itself.
pub open spec fn quoted(path: Seq<char>) -> Seq<char>
    decreases path.len(),
{
    if path.len() == 0 {
        Seq::empty()
    } else if path.last() == '\'' {
        quoted(path.drop_last()) + seq!['\'', '\\', '\'', '\'']
    } else {
        quoted(path.drop_last()).push(path.last())
    }
}

/// The manifest's line for one segment.
pub open spec fn manifest_line(path: Seq<char>) -> Seq<char> {
    "file '"@ + quoted(path) + "'\n"@
}

/// The manifest for `paths`: one line for each, in order.
pub open spec fn manifest_text(paths: Seq<Seq<char>>) -> Seq<char>
    decreases paths.len(),
{
    if paths.len() == 0 {
        Seq::empty()
    } else {
        manifest_text(paths.drop_last()) + manifest_line(paths.last())
    }
}

/// Where the manifest is kept under the scratch directory `temp_dir`.
pub open spec fn manifest_path(temp_dir: Seq<char>) -> Seq<char> {
    joined(temp_dir, "ffmpeg_concat_list.txt"@)
}

/// The arguments for the concat back-end: the manifest as first input, read
/// with the concat protocol; the sidecar as second; video from the first and
/// every stream from the second; streams copied, not encoded; the output
/// overwritten.
pub open spec fn ffmpeg_concat_arguments(
    manifest: Seq<char>,
    sidecar: Seq<char>,
    output: Seq<char>,
) -> Seq<Seq<char>> {
    seq![
        "-hide_banner"@,
        "-f"@,
        "concat"@,
        "-safe"@,
        "0"@,
        "-i"@,
        manifest,
        "-i"@,
        sidecar,
        "-map"@,
        "0:v?"@,
        "-map"@,
        "1?"@,
        "-c"@,
        "copy"@,
        "-y"@,
        output,
    ]
}

/// The segments as the merge back-end takes them: the first as it is, each
/// further one after a `+`.
pub open spec fn appended(segments: Seq<Seq<char>>) -> Seq<Seq<char>>
    decreases segments.len(),
{
    if segments.len() == 0 {
        Seq::empty()
    } else if segments.len() == 1 {
        seq![segments[0]]
    } else {
        appended(segments.drop_last()).push("+"@).push(segments.last())
    }
}

/// The arguments for the merge back-end: the output, the segments appended
/// one to the other, and the sidecar as a further input.
pub open spec fn mkvmerge_arguments(
    output: Seq<char>,
    segments: Seq<Seq<char>>,
    sidecar: Seq<char>,
) -> Seq<Seq<char>> {
    (seq!["-o"@, output] + appended(segments)).push(sidecar)
}

/// The position of the first path that is not on disk; the length of
/// `probes` where each is.
pub open spec fn first_absent(probes: Seq<ProbedPath>) -> int
    decreases probes.len(),
{
    if probes.len() == 0 {
        0
    } else if !probes[0].exists {
        0
    } else {
        1 + first_absent(probes.drop_first())
    }
}

/// The position of the first path that has no canonical form; the length of
/// `probes` where each has one.
pub open spec fn first_unresolved(probes: Seq<ProbedPath>) -> int
    decreases probes.len(),
{
    if probes.len() == 0 {
        0
    } else if probes[0].canonical is Failed {
        0
    } else {
        1 + first_unresolved(probes.drop_first())
    }
}

/// The canonical forms of `probes`, in order; for a path without one, its
/// text as given.
pub open spec fn canonical_texts(probes: Seq<ProbedPath>) -> Seq<Seq<char>> {
    probes.map_values(
        |p: ProbedPath|
            match p.canonical {
                Canonical::Found(c) => c@,
                Canonical::Failed(_) => p.path@,
            },
    )
}

/// What stands in the way of stitching, if anything: the kind and detail of
/// the error. `tool` is the back-end's name as it appears in messages.
///
/// In this order: no segments at all; another number of segments than
/// expected; a segment that is not on disk, the first such; a sidecar that is
/// not on disk.
pub open spec fn concat_obstacle(
    tool: Seq<char>,
    tool_in_words: Seq<char>,
    segments: Seq<ProbedPath>,
    sidecar: ProbedPath,
    expected: nat,
) -> Option<Seq<char>> {
    if segments.len() == 0 {
        Some(no_segments(tool_in_words))
    } else if segments.len() != expected {
        Some(wrong_count(tool, expected, segments.len()))
    } else if first_absent(segments) < segments.len() {
        Some(tool + ": Segment file not found: "@ + segments[first_absent(segments)].path@)
    } else if !sidecar.exists {
        Some(tool + ": Non-video stream file not found: "@ + sidecar.path@)
    } else {
        None
    }
}

/// What the concat back-end is to be run with.
#[derive(Debug, Clone, PartialEq, Eq)]
pub struct ConcatPlan {
    /// The file that is to hold the manifest; the caller writes it before the
    /// run and removes it after, however the run ended.
    pub manifest_path: String,
    /// The manifest's text.
    pub manifest: String,
    /// The arguments for `ffmpeg`.
    pub arguments: Vec<String>,
}

fn find_absent(probes: &Vec<ProbedPath>) -> (k: usize)
    ensures
        k == first_absent(probes@),
        k <= probes@.len(),
{
    let n = probes.len();
    let mut k: usize = 0;
    proof {
        assert(probes@.subrange(0, n as int) =~= probes@);
    }
    while k < n
        invariant
            k <= n,
            n == probes@.len(),
            first_absent(probes@) == k + first_absent(probes@.subrange(k as int, n as int)),
        decreases n - k,
    {
        assert(probes@.subrange(k as int, n as int)[0] == probes@[k as int]);
        if !probes[k].exists {
            return k;
        }
        proof {
            assert(probes@.subrange(k as int, n as int).drop_first() =~= probes@.subrange(
                k + 1,
                n as int,
            ));
        }
        k += 1;
    }
    k
}

fn find_unresolved(probes: &Vec<ProbedPath>) -> (k: usize)
    ensures
        k == first_unresolved(probes@),
        k <= probes@.len(),
        k < probes@.len() ==> probes@[k as int].canonical is Failed,
        forall|i: int| 0 <= i < k ==> (#[trigger] probes@[i]).canonical is Found,
{
    let n = probes.len();
    let mut k: usize = 0;
    proof {
        assert(probes@.subrange(0, n as int) =~= probes@);
    }
    while k < n
        invariant
            k <= n,
            n == probes@.len(),
            first_unresolved(probes@) == k + first_unresolved(
                probes@.subrange(k as int, n as int),
            ),
            forall|i: int| 0 <= i < k ==> (#[trigger] probes@[i]).canonical is Found,
        decreases n - k,
    {
        assert(probes@.subrange(k as int, n as int)[0] == probes@[k as int]);
        let unresolved = match &probes[k].canonical {
            Canonical::Failed(_) => true,
            Canonical::Found(_) => false,
        };
        if unresolved {
            return k;
        }
        proof {
            assert(probes@.subrange(k as int, n as int).drop_first() =~= probes@.subrange(
                k + 1,
                n as int,
            ));
        }
        k += 1;
    }
    k
}

fn check_inputs(
    tool: &str,
    tool_in_words: &str,
    segments: &Vec<ProbedPath>,
    sidecar: &ProbedPath,
    expected: usize,
) -> (r: Option<String>)
    ensures
        match concat_obstacle(tool@, tool_in_words@, segments@, *sidecar, expected as nat) {
            Some(detail) => r is Some && r->0@ == detail,
            None => r is None,
        },
{
    if segments.len() == 0 {
        return Some(concat3("No video segments provided for ", tool_in_words, " concatenation."));
    }
    if segments.len() != expected {
        let mut text = String::from_str(tool);
        text.append(": Mismatch in segment count. Expected: ");
        text.append(format_decimal(expected as u64).as_str());
        text.append(", Found: ");
        text.append(format_decimal(segments.len() as u64).as_str());
        return Some(text);
    }
    let k = find_absent(segments);
    if k < segments.len() {
        return Some(concat3(tool, ": Segment file not found: ", segments[k].path.as_str()));
    }
    if !sidecar.exists {
        return Some(concat3(tool, ": Non-video stream file not found: ", sidecar.path.as_str()));
    }
    None
}

fn canonical_list(probes: &Vec<ProbedPath>) -> (out: Vec<String>)
    ensures
        texts(out@) == canonical_texts(probes@),
{
    let mut out: Vec<String> = Vec::new();
    let mut i: usize = 0;
    while i < probes.len()
        invariant
            i <= probes.len(),
            out@.len() == i,
            forall|k: int|
                0 <= k < i ==> (#[trigger] out@[k])@ == canonical_texts(probes@)[k],
        decreases probes.len() - i,
    {
        let text = match &probes[i].canonical {
            Canonical::Found(c) => c.clone(),
            Canonical::Failed(_) => probes[i].path.clone(),
        };
        out.push(text);
        i += 1;
    }
    proof {
        assert(texts(out@) =~= canonical_texts(probes@));
    }
    out
}

fn push_quoted(out: &mut Vec<char>, path: &str)
    ensures
        final(out)@ == old(out)@ + quoted(path@),
{
    let chars = to_chars(path);
    let n = chars.len();
    let mut i: usize = 0;
    proof {
        assert(chars@.subrange(0, 0) =~= Seq::<char>::empty());
        assert(old(out)@ + Seq::<char>::empty() =~= old(out)@);
    }
    while i < n
        invariant
            i <= n,
            n == chars@.len(),
            out@ == old(out)@ + quoted(chars@.subrange(0, i as int)),
        decreases n - i,
    {
        let c = chars[i];
        let ghost before = chars@.subrange(0, i as int);
        let ghost after = chars@.subrange(0, i + 1);
        proof {
            assert(after.drop_last() =~= before);
            assert(after.last() == c);
        }
        if c == '\'' {
            out.push('\'');
            out.push('\\');
            out.push('\'');
            out.push('\'');
            proof {
                assert(out@ =~= old(out)@ + quoted(after));
            }
        } else {
            out.push(c);
            proof {
                assert(out@ =~= old(out)@ + quoted(after));
            }
        }
        i += 1;
    }
    proof {
        assert(chars@.subrange(0, n as int) =~= chars@);
    }
}

/// The manifest for `paths`.
pub fn build_manifest(paths: &Vec<String>) -> (out: String)
    ensures
        out@ == manifest_text(texts(paths@)),
{
    let mut buf: Vec<char> = Vec::new();
    let n = paths.len();
    let mut i: usize = 0;
    let ghost all = texts(paths@);
    proof {
        assert(all.subrange(0, 0) =~= Seq::<Seq<char>>::empty());
        reveal_strlit("file '");
        reveal_strlit("'\n");
    }
    while i < n
        invariant
            i <= n,
            n == paths@.len(),
            all == texts(paths@),
            buf@ == manifest_text(all.subrange(0, i as int)),
            "file '"@ == seq!['f', 'i', 'l', 'e', ' ', '\''],
            "'\n"@ == seq!['\'', '\n'],
        decreases n - i,
    {
        let ghost before = buf@;
        proof {
            assert(all.subrange(0, i + 1).drop_last() =~= all.subrange(0, i as int));
            assert(all.subrange(0, i + 1).last() == paths@[i as int]@);
        }
        buf.push('f');
        buf.push('i');
        buf.push('l');
        buf.push('e');
        buf.push(' ');
        buf.push('\'');
        push_quoted(&mut buf, paths[i].as_str());
        buf.push('\'');
        buf.push('\n');
        proof {
            assert(buf@ =~= before + manifest_line(paths@[i as int]@));
        }
        i += 1;
    }
    proof {
        assert(all.subrange(0, n as int) =~= all);
    }
    from_chars(buf.as_slice())
}

/// Whether `r` is what the preparation of a run of the concat back-end
/// comes to, given what the file system said of the segments and the
/// sidecar.
///
/// Anything that [`concat_obstacle`] names is a concatenation error with
/// that detail. Failing that, a segment without canonical form, the first
/// such, is an I/O error with the system's text. Otherwise the run is
/// planned: the manifest lists the segments' canonical forms in order.
pub open spec fn is_ffmpeg_plan(
    r: Result<ConcatPlan, VideoEncodeError>,
    segments: Seq<ProbedPath>,
    sidecar: ProbedPath,
    output_file: Seq<char>,
    temp_dir: Seq<char>,
    expected: nat,
) -> bool {
    match concat_obstacle("FFmpeg"@, "FFmpeg"@, segments, sidecar, expected) {
        Some(detail) => r is Err && r->Err_0.says(ErrorKind::Concatenation, detail),
        None => if first_unresolved(segments) < segments.len() {
            r is Err && r->Err_0.says(
                ErrorKind::Io,
                segments[first_unresolved(segments)].canonical->Failed_0@,
            )
        } else {
            &&& r is Ok
            &&& r->Ok_0.manifest_path@ == manifest_path(temp_dir)
            &&& r->Ok_0.manifest@ == manifest_text(canonical_texts(segments))
            &&& texts(r->Ok_0.arguments@) == ffmpeg_concat_arguments(
                manifest_path(temp_dir),
                sidecar.path@,
                output_file,
            )
        },
    }
}

/// Whether `probes` are answers of the file system for exactly the paths
/// `paths`, in order.
pub open spec fn probes_of(probes: Seq<ProbedPath>, paths: Seq<Seq<char>>) -> bool {
    probes.len() == paths.len() && forall|i: int|
        0 <= i < probes.len() ==> (#[trigger] probes[i]).path@ == paths[i]
}

/// Prepares a run of the concat back-end, given what the file system said of
/// the segments and the sidecar.
///
/// Anything that [`concat_obstacle`] names is a concatenation error with that
/// detail. Failing that, a segment without canonical form, the first such, is
/// an I/O error with the system's text. Otherwise the run is planned: the
/// manifest lists the segments' canonical forms in order.
pub fn plan_ffmpeg_concat(
    segments: &Vec<ProbedPath>,
    sidecar: &ProbedPath,
    output_file: &str,
    temp_dir: &str,
    expected_segments: usize,
) -> (r: Result<ConcatPlan, VideoEncodeError>)
    ensures
        is_ffmpeg_plan(r, segments@, *sidecar, output_file@, temp_dir@, expected_segments as nat),
{
    match check_inputs("FFmpeg", "FFmpeg", segments, sidecar, expected_segments) {
        Some(detail) => {
            return Err(VideoEncodeError::Concatenation(detail));
        },
        None => {},
    }
    let k = find_unresolved(segments);
    if k < segments.len() {
        match &segments[k].canonical {
            Canonical::Failed(text) => {
                return Err(VideoEncodeError::Io(text.clone()));
            },
            Canonical::Found(_) => {},
        }
    }
    let manifest_file = join(temp_dir, "ffmpeg_concat_list.txt");
    let manifest = build_manifest(&canonical_list(segments));
    let mut arguments: Vec<String> = Vec::new();
    proof {
        assert(texts(arguments@) =~= Seq::<Seq<char>>::empty());
    }
    push_text(&mut arguments, "-hide_banner");
    push_text(&mut arguments, "-f");
    push_text(&mut arguments, "concat");
    push_text(&mut arguments, "-safe");
    push_text(&mut arguments, "0");
    push_text(&mut arguments, "-i");
    push_text(&mut arguments, manifest_file.as_str());
    push_text(&mut arguments, "-i");
    push_text(&mut arguments, sidecar.path.as_str());
    push_text(&mut arguments, "-map");
    push_text(&mut arguments, "0:v?");
    push_text(&mut arguments, "-map");
    push_text(&mut arguments, "1?");
    push_text(&mut arguments, "-c");
    push_text(&mut arguments, "copy");
    push_text(&mut arguments, "-y");
    push_text(&mut arguments, output_file);
    proof {
        assert(texts(arguments@) == ffmpeg_concat_arguments(
            manifest_path(temp_dir@),
            sidecar.path@,
            output_file@,
        ));
        assert(concat_obstacle(
            "FFmpeg"@,
            "FFmpeg"@,
            segments@,
            *sidecar,
            expected_segments as nat,
        ) is None);
        assert(first_unresolved(segments@) >= segments@.len());
    }
    Ok(ConcatPlan { manifest_path: manifest_file, manifest, arguments })
}

/// What stitching without a single segment is refused with.
pub open spec fn no_segments(tool_in_words: Seq<char>) -> Seq<char> {
    "No video segments provided for "@ + tool_in_words + " concatenation."@
}

/// What stitching another number of segments than expected is refused with.
pub open spec fn wrong_count(tool: Seq<char>, expected: nat, found: nat) -> Seq<char> {
    tool + ": Mismatch in segment count. Expected: "@ + decimal(expected) + ", Found: "@ + decimal(
        found,
    )
}

/// Prepares a run of the concat back-end for the encoded segments
/// `segment_paths`, which are looked up on disk, as is the sidecar.
///
/// No segments, or another number than expected, is an error whatever is on
/// disk, with its own text. Beyond that the disk decides: the result is what
/// [`is_ffmpeg_plan`] says for the file system's answers on exactly these
/// segments and this sidecar.
pub fn concatenate_videos_ffmpeg(
    segment_paths: Vec<String>,
    non_video_stream_file: &str,
    output_file: &str,
    temp_dir: &str,
    expected_segments: usize,
) -> (r: Result<ConcatPlan, VideoEncodeError>)
    ensures
        segment_paths@.len() == 0 ==> r is Err && r->Err_0.says(
            ErrorKind::Concatenation,
            no_segments("FFmpeg"@),
        ),
        segment_paths@.len() != 0 && segment_paths@.len() != expected_segments ==> r is Err
            && r->Err_0.says(
            ErrorKind::Concatenation,
            wrong_count("FFmpeg"@, expected_segments as nat, segment_paths@.len()),
        ),
        exists|segments: Seq<ProbedPath>, sidecar: ProbedPath|
            probes_of(segments, texts(segment_paths@)) && sidecar.path@ == non_video_stream_file@
                && #[trigger] is_ffmpeg_plan(
                r,
                segments,
                sidecar,
                output_file@,
                temp_dir@,
                expected_segments as nat,
            ),
{
    let segments = probe_all(&segment_paths);
    let sidecar = probe(non_video_stream_file);
    let r = plan_ffmpeg_concat(&segments, &sidecar, output_file, temp_dir, expected_segments);
    proof {
        assert(probes_of(segments@, texts(segment_paths@))) by {
            assert forall|i: int| 0 <= i < segments@.len() implies (#[trigger] segments@[i]).path@
                == texts(segment_paths@)[i] by {}
        }
        assert(is_ffmpeg_plan(
            r,
            segments@,
            sidecar,
            output_file@,
            temp_dir@,
            expected_segments as nat,
        ));
    }
    r
}

/// The verdict on a run of either back-end: the kind and detail of its
/// error, if any. `removal` is the system's text where the manifest could not
/// be removed after the run.
///
/// A program that could not be started is an I/O error. One that exited with
/// a failure is a concatenation error that carries `report`. After a good
/// run, a manifest that could not be removed is an I/O error.
pub open spec fn concat_verdict(launch: Launch, report: Seq<char>, removal: Option<String>)
    -> Option<(ErrorKind, Seq<char>)> {
    match launch {
        Launch::NotStarted(text) => Some((ErrorKind::Io, text@)),
        Launch::Exited(o) => if !o.success {
            Some((ErrorKind::Concatenation, report))
        } else {
            match removal {
                Some(text) => Some((ErrorKind::Io, text@)),
                None => None,
            }
        },
    }
}

/// What a failed run of the concat back-end is reported with.
pub open spec fn ffmpeg_report(launch: Launch) -> Seq<char> {
    match launch {
        Launch::Exited(o) => "FFmpeg concatenation failed. FFmpeg stderr: "@ + o.stderr@,
        Launch::NotStarted(_) => Seq::empty(),
    }
}

/// What a failed run of the merge back-end is reported with.
pub open spec fn mkvmerge_report(launch: Launch) -> Seq<char> {
    match launch {
        Launch::Exited(o) => "mkvmerge concatenation failed. Stdout: '"@ + o.stdout@
            + "', Stderr: '"@ + o.stderr@ + "'"@,
        Launch::NotStarted(_) => Seq::empty(),
    }
}

/// Judges a run of the concat back-end, after the manifest was removed or
/// could not be.
pub fn conclude_ffmpeg_concat(launch: &Launch, removal: Option<String>) -> (r: Result<
    (),
    VideoEncodeError,
>)
    ensures
        match concat_verdict(*launch, ffmpeg_report(*launch), removal) {
            None => r is Ok,
            Some((kind, detail)) => r is Err && r->Err_0.says(kind, detail),
        },
{
    match launch {
        Launch::NotStarted(text) => Err(VideoEncodeError::Io(text.clone())),
        Launch::Exited(o) => {
            if !o.success {
                Err(
                    VideoEncodeError::Concatenation(
                        labelled("FFmpeg concatenation failed. FFmpeg stderr: ", o.stderr.as_str()),
                    ),
                )
            } else {
                match removal {
                    Some(text) => Err(VideoEncodeError::Io(text)),
                    None => Ok(()),
                }
            }
        },
    }
}

/// Whether `r` is what the preparation of a run of the merge back-end comes
/// to, given what the file system said of the segments and the sidecar.
///
/// Errors are as for the concat back-end, with one more: a sidecar without
/// canonical form is an I/O error too. Otherwise the result is the argument
/// list for `mkvmerge`, over the canonical forms.
pub open spec fn is_mkvmerge_plan(
    r: Result<Vec<String>, VideoEncodeError>,
    segments: Seq<ProbedPath>,
    sidecar: ProbedPath,
    output_file: Seq<char>,
    expected: nat,
) -> bool {
    match concat_obstacle("Mkvmerge"@, "mkvmerge"@, segments, sidecar, expected) {
        Some(detail) => r is Err && r->Err_0.says(ErrorKind::Concatenation, detail),
        None => if first_unresolved(segments) < segments.len() {
            r is Err && r->Err_0.says(
                ErrorKind::Io,
                segments[first_unresolved(segments)].canonical->Failed_0@,
            )
        } else if sidecar.canonical is Failed {
            r is Err && r->Err_0.says(ErrorKind::Io, sidecar.canonical->Failed_0@)
        } else {
            r is Ok && texts(r->Ok_0@) == mkvmerge_arguments(
                output_file,
                canonical_texts(segments),
                sidecar.canonical->Found_0@,
            )
        },
    }
}

/// Prepares a run of the merge back-end, given what the file system said of
/// the segments and the sidecar.
///
/// Errors are as for the concat back-end, with one more: a sidecar without
/// canonical form is an I/O error too. Otherwise the result is the argument
/// list for `mkvmerge`, over the canonical forms.
pub fn plan_mkvmerge_concat(
    segments: &Vec<ProbedPath>,
    sidecar: &ProbedPath,
    output_file: &str,
    expected_segments: usize,
) -> (r: Result<Vec<String>, VideoEncodeError>)
    ensures
        is_mkvmerge_plan(r, segments@, *sidecar, output_file@, expected_segments as nat),
{
    match check_inputs("Mkvmerge", "mkvmerge", segments, sidecar, expected_segments) {
        Some(detail) => {
            return Err(VideoEncodeError::Concatenation(detail));
        },
        None => {},
    }
    let k = find_unresolved(segments);
    if k < segments.len() {
        match &segments[k].canonical {
            Canonical::Failed(text) => {
                return Err(VideoEncodeError::Io(text.clone()));
            },
            Canonical::Found(_) => {},
        }
    }
    let sidecar_text = match &sidecar.canonical {
        Canonical::Failed(text) => {
            return Err(VideoEncodeError::Io(text.clone()));
        },
        Canonical::Found(c) => c.clone(),
    };
    let paths = canonical_list(segments);
    let mut arguments: Vec<String> = Vec::new();
    proof {
        assert(texts(arguments@) =~= Seq::<Seq<char>>::empty());
    }
    push_text(&mut arguments, "-o");
    push_text(&mut arguments, output_file);
    let ghost all = texts(paths@);
    let n = paths.len();
    let mut i: usize = 0;
    proof {
        assert(all.subrange(0, 0) =~= Seq::<Seq<char>>::empty());
        assert(texts(arguments@) =~= seq!["-o"@, output_file@] + appended(all.subrange(0, 0)));
    }
    while i < n
        invariant
            i <= n,
            n == paths@.len(),
            all == texts(paths@),
            texts(arguments@) == seq!["-o"@, output_file@] + appended(
                all.subrange(0, i as int),
            ),
        decreases n - i,
    {
        let ghost before = texts(arguments@);
        proof {
            assert(all.subrange(0, i + 1).drop_last() =~= all.subrange(0, i as int));
            assert(all.subrange(0, i + 1).last() == paths@[i as int]@);
        }
        if i > 0 {
            push_text(&mut arguments, "+");
        }
        push_text(&mut arguments, paths[i].as_str());
        proof {
            if i == 0 {
                assert(appended(all.subrange(0, 1)) =~= seq![paths@[0]@]);
            }
            assert(texts(arguments@) =~= seq!["-o"@, output_file@] + appended(
                all.subrange(0, i + 1),
            ));
        }
        i += 1;
    }
    proof {
        assert(all.subrange(0, n as int) =~= all);
    }
    push_text(&mut arguments, sidecar_text.as_str());
    Ok(arguments)
}

/// Prepares a run of the merge back-end for the encoded segments
/// `segment_paths`, which are looked up on disk, as is the sidecar.
///
/// No segments, or another number than expected, is an error whatever is on
/// disk, with its own text. Beyond that the disk decides: the result is what
/// [`is_mkvmerge_plan`] says for the file system's answers on exactly these
/// segments and this sidecar.
pub fn concatenate_videos_mkvmerge(
    segment_paths: Vec<String>,
    non_video_stream_file: &str,
    output_file: &str,
    expected_segments: usize,
) -> (r: Result<Vec<String>, VideoEncodeError>)
    ensures
        segment_paths@.len() == 0 ==> r is Err && r->Err_0.says(
            ErrorKind::Concatenation,
            no_segments("mkvmerge"@),
        ),
        segment_paths@.len() != 0 && segment_paths@.len() != expected_segments ==> r is Err
            && r->Err_0.says(
            ErrorKind::Concatenation,
            wrong_count("Mkvmerge"@, expected_segments as nat, segment_paths@.len()),
        ),
        exists|segments: Seq<ProbedPath>, sidecar: ProbedPath|
            probes_of(segments, texts(segment_paths@)) && sidecar.path@ == non_video_stream_file@
                && #[trigger] is_mkvmerge_plan(
                r,
                segments,
                sidecar,
                output_file@,
                expected_segments as nat,
            ),
{
    let segments = probe_all(&segment_paths);
    let sidecar = probe(non_video_stream_file);
    let r = plan_mkvmerge_concat(&segments, &sidecar, output_file, expected_segments);
    proof {
        assert(probes_of(segments@, texts(segment_paths@))) by {
            assert forall|i: int| 0 <= i < segments@.len() implies (#[trigger] segments@[i]).path@
                == texts(segment_paths@)[i] by {}
        }
        assert(is_mkvmerge_plan(r, segments@, sidecar, output_file@, expected_segments as nat));
    }
    r
}

/// The merge back-end is given each segment once, with a `+` between two.
pub proof fn lemma_appended_len(segments: Seq<Seq<char>>)
    ensures
        appended(segments).len() == if segments.len() == 0 {
            0
        } else {
            2 * segments.len() - 1
        },
    decreases segments.len(),
{
    if segments.len() > 1 {
        lemma_appended_len(segments.drop_last());
    }
}

/// Judges a run of the merge back-end, which leaves no manifest behind.
pub fn conclude_mkvmerge_concat(launch: &Launch) -> (r: Result<(), VideoEncodeError>)
    ensures
        match concat_verdict(*launch, mkvmerge_report(*launch), None) {
            None => r is Ok,
            Some((kind, detail)) => r is Err && r->Err_0.says(kind, detail),
        },
{
    match launch {
        Launch::NotStarted(text) => Err(VideoEncodeError::Io(text.clone())),
        Launch::Exited(o) => {
            if !o.success {
                let mut text = String::from_str("mkvmerge concatenation failed. Stdout: '");
                text.append(o.stdout.as_str());
                text.append("', Stderr: '");
                text.append(o.stderr.as_str());
                text.append("'");
                Err(VideoEncodeError::Concatenation(text))
            } else {
                Ok(())
            }
        },
    }
}

} // verus!
