//! Cutting the source into segments, and setting its other streams aside.

use vstd::prelude::*;
use vstd::string::*;
use crate::error::{ErrorKind, VideoEncodeError};
use crate::paths::{extension_is, has_extension, join, joined};
use crate::text::{push_text, texts, to_chars};
use crate::video::encoder::Launch;

verus! {

/// The pattern after which the segmenter names its output, under
/// `segment_dir`.
pub open spec fn segment_pattern(segment_dir: Seq<char>) -> Seq<char> {
    joined(segment_dir, "chunk_%04d.mp4"@)
}

/// Where the streams that are no video are kept, under `temp_dir`.
pub open spec fn sidecar_path(temp_dir: Seq<char>) -> Seq<char> {
    joined(temp_dir, "non_video_streams.mkv"@)
}

/// The segmenter's arguments: the video streams alone, copied, cut at about
/// every `segment_time` seconds, timestamps starting anew in each segment.
pub open spec fn segment_arguments(input: Seq<char>, segment_time: Seq<char>, pattern: Seq<char>)
    -> Seq<Seq<char>> {
    seq![
        "-hide_banner"@,
        "-i"@,
        input,
        "-y"@,
        "-an"@,
        "-sn"@,
        "-dn"@,
        "-c"@,
        "copy"@,
        "-map"@,
        "0"@,
        "-segment_time"@,
        segment_time,
        "-f"@,
        "segment"@,
        "-reset_timestamps"@,
        "1"@,
        pattern,
    ]
}

/// The arguments that set the non-video streams aside: every stream but the
/// video, copied.
pub open spec fn sidecar_arguments(input: Seq<char>, sidecar: Seq<char>) -> Seq<Seq<char>> {
    seq!["-hide_banner"@, "-i"@, input, "-y"@, "-map"@, "0"@, "-vn"@, "-c"@, "copy"@, sidecar]
}

/// Builds the segmenter's argument list. `segment_time` is the segment
/// length in seconds, as text.
pub fn segment_video_arguments(input_path: &str, segment_time: &str, segment_dir: &str) -> (args:
    Vec<String>)
    ensures
        texts(args@) == segment_arguments(
            input_path@,
            segment_time@,
            segment_pattern(segment_dir@),
        ),
{
    let pattern = join(segment_dir, "chunk_%04d.mp4");
    let mut args: Vec<String> = Vec::new();
    proof {
        assert(texts(args@) =~= Seq::<Seq<char>>::empty());
    }
    push_text(&mut args, "-hide_banner");
    push_text(&mut args, "-i");
    push_text(&mut args, input_path);
    push_text(&mut args, "-y");
    push_text(&mut args, "-an");
    push_text(&mut args, "-sn");
    push_text(&mut args, "-dn");
    push_text(&mut args, "-c");
    push_text(&mut args, "copy");
    push_text(&mut args, "-map");
    push_text(&mut args, "0");
    push_text(&mut args, "-segment_time");
    push_text(&mut args, segment_time);
    push_text(&mut args, "-f");
    push_text(&mut args, "segment");
    push_text(&mut args, "-reset_timestamps");
    push_text(&mut args, "1");
    push_text(&mut args, pattern.as_str());
    args
}

/// Whether `a` comes before `b`, or is `b`, in the order of the dictionary,
/// character by character.
pub open spec fn in_order(a: Seq<char>, b: Seq<char>) -> bool
    decreases a.len(),
{
    if a.len() == 0 {
        true
    } else if b.len() == 0 {
        false
    } else if a[0] != b[0] {
        a[0] < b[0]
    } else {
        in_order(a.drop_first(), b.drop_first())
    }
}

/// Whether the paths of `paths` are in the order of the dictionary.
pub open spec fn paths_sorted(paths: Seq<Seq<char>>) -> bool {
    forall|i: int, j: int| 0 <= i < j < paths.len() ==> in_order(paths[i], paths[j])
}

/// The paths of `entries` that are segments: those with the extension
/// `mp4`, in the order in which they stand.
pub open spec fn segments_among(entries: Seq<Seq<char>>) -> Seq<Seq<char>> {
    entries.filter(is_segment())
}

/// What tells a segment from the other entries of the segment directory:
/// the extension `mp4`.
pub open spec fn is_segment() -> spec_fn(Seq<char>) -> bool {
    |p: Seq<char>| has_extension(p, "mp4"@)
}

/// The order of the dictionary is reflexive.
pub proof fn lemma_in_order_reflexive(a: Seq<char>)
    ensures
        in_order(a, a),
    decreases a.len(),
{
    if a.len() > 0 {
        lemma_in_order_reflexive(a.drop_first());
    }
}

/// Of two paths one comes before the other, or is it.
pub proof fn lemma_in_order_total(a: Seq<char>, b: Seq<char>)
    ensures
        in_order(a, b) || in_order(b, a),
    decreases a.len(),
{
    if a.len() > 0 && b.len() > 0 && a[0] == b[0] {
        lemma_in_order_total(a.drop_first(), b.drop_first());
    }
}

/// What comes before a path that comes before a third, comes before the
/// third.
pub proof fn lemma_in_order_transitive(a: Seq<char>, b: Seq<char>, c: Seq<char>)
    requires
        in_order(a, b),
        in_order(b, c),
    ensures
        in_order(a, c),
    decreases a.len(),
{
    if a.len() > 0 && b.len() > 0 && c.len() > 0 && a[0] == b[0] && b[0] == c[0] {
        lemma_in_order_transitive(a.drop_first(), b.drop_first(), c.drop_first());
    }
}

fn before_or_same(a: &[char], b: &[char]) -> (r: bool)
    ensures
        r == in_order(a@, b@),
{
    let mut i: usize = 0;
    proof {
        assert(a@.subrange(0, a@.len() as int) =~= a@);
        assert(b@.subrange(0, b@.len() as int) =~= b@);
    }
    loop
        invariant
            i <= a@.len(),
            i <= b@.len(),
            in_order(a@, b@) == in_order(
                a@.subrange(i as int, a@.len() as int),
                b@.subrange(i as int, b@.len() as int),
            ),
        decreases a@.len() - i,
    {
        if i == a.len() {
            return true;
        }
        if i == b.len() {
            return false;
        }
        let ghost ra = a@.subrange(i as int, a@.len() as int);
        let ghost rb = b@.subrange(i as int, b@.len() as int);
        assert(ra[0] == a@[i as int] && rb[0] == b@[i as int]);
        if a[i] != b[i] {
            return a[i] < b[i];
        }
        proof {
            assert(ra.drop_first() =~= a@.subrange(i + 1, a@.len() as int));
            assert(rb.drop_first() =~= b@.subrange(i + 1, b@.len() as int));
        }
        i += 1;
    }
}

/// Picks the segments out of a directory listing and puts them in order.
///
/// The result holds the entries with the extension `mp4`, each as often as
/// the listing holds it, in the order of the dictionary: the order of their
/// numbers, since these are written with leading zeros. A chunk's index is
/// its position here.
pub fn select_segments(entries: Vec<String>) -> (out: Vec<String>)
    ensures
        paths_sorted(texts(out@)),
        texts(out@).to_multiset() == segments_among(texts(entries@)).to_multiset(),
{
    broadcast use vstd::multiset::group_multiset_axioms;
    broadcast use vstd::seq_lib::group_to_multiset_ensures;

    let ghost all = texts(entries@);
    let mut out: Vec<String> = Vec::new();
    let n = entries.len();
    let mut i: usize = 0;
    let ghost keep = is_segment();
    proof {
        assert(texts(out@) =~= Seq::<Seq<char>>::empty());
        assert(all.subrange(0, 0) =~= Seq::<Seq<char>>::empty());
        assert(all.subrange(0, 0).filter(keep) =~= Seq::<Seq<char>>::empty());
    }
    while i < n
        invariant
            i <= n,
            n == entries@.len(),
            all == texts(entries@),
            keep == is_segment(),
            paths_sorted(texts(out@)),
            texts(out@).to_multiset() == all.subrange(0, i as int).filter(keep).to_multiset(),
        decreases n - i,
    {
        let ghost placed = texts(out@);
        let ghost seen = all.subrange(0, i as int);
        proof {
            assert(all.subrange(0, i + 1) =~= seen.push(all[i as int]));
            seen.lemma_filter_push(all[i as int], keep);
            assert(all[i as int] == entries@[i as int]@);
            assert(keep(all[i as int]) == has_extension(all[i as int], "mp4"@));
            vstd::seq_lib::to_multiset_build(seen.filter(keep), all[i as int]);
        }
        if extension_is(entries[i].as_str(), "mp4") {
            let path = entries[i].clone();
            let chars = to_chars(path.as_str());
            let mut p: usize = 0;
            let mut searching = true;
            while searching && p < out.len()
                invariant
                    p <= out@.len(),
                    placed == texts(out@),
                    chars@ == path@,
                    forall|k: int| 0 <= k < p ==> in_order(#[trigger] placed[k], path@),
                    !searching ==> p < out@.len() && !in_order(placed[p as int], path@),
                decreases
                        out@.len() - p,
                        if searching {
                            1nat
                        } else {
                            0nat
                        },
            {
                let other = to_chars(out[p].as_str());
                assert(placed[p as int] == out@[p as int]@);
                if !before_or_same(other.as_slice(), chars.as_slice()) {
                    searching = false;
                } else {
                    p += 1;
                }
            }
            proof {
                if p < out@.len() {
                    lemma_in_order_total(placed[p as int], path@);
                }
            }
            out.insert(p, path);
            proof {
                let now = texts(out@);
                assert(now =~= placed.insert(p as int, path@));
                vstd::seq_lib::to_multiset_insert(placed, p as int, path@);
                assert(now.to_multiset() == all.subrange(0, i + 1).filter(keep).to_multiset());
                assert forall|a: int, b: int| 0 <= a < b < now.len() implies in_order(
                    now[a],
                    now[b],
                ) by {
                    if b < p {
                        assert(now[a] == placed[a] && now[b] == placed[b]);
                    } else if b == p {
                        assert(now[a] == placed[a]);
                    } else if a < p {
                        assert(now[a] == placed[a] && now[b] == placed[b - 1]);
                    } else if a == p {
                        assert(now[b] == placed[b - 1]);
                        assert(in_order(path@, placed[p as int]));
                        if b - 1 > p {
                            assert(in_order(placed[p as int], placed[b - 1]));
                            lemma_in_order_transitive(path@, placed[p as int], placed[b - 1]);
                        }
                    } else {
                        assert(now[a] == placed[a - 1] && now[b] == placed[b - 1]);
                    }
                }
            }
        }
        i += 1;
    }
    proof {
        assert(all.subrange(0, n as int) =~= all);
    }
    out
}

/// Judges the segmenter's run and reads its output.
///
/// A segmenter that could not be started is an I/O error, one that exited
/// with a failure an encoding error. After a good run the result is the
/// segments among `entries`, the listing of the segment directory, in order.
pub fn segment_video(launch: &Launch, entries: Vec<String>) -> (r: Result<
    Vec<String>,
    VideoEncodeError,
>)
    ensures
        match *launch {
            Launch::NotStarted(text) => r is Err && r->Err_0.says(ErrorKind::Io, text@),
            Launch::Exited(o) => if o.success {
                &&& r is Ok
                &&& paths_sorted(texts(r->Ok_0@))
                &&& texts(r->Ok_0@).to_multiset() == segments_among(
                    texts(entries@),
                ).to_multiset()
            } else {
                r is Err && r->Err_0.says(ErrorKind::Encoding, "Failed to split video"@)
            },
        },
{
    match launch {
        Launch::NotStarted(text) => Err(VideoEncodeError::Io(text.clone())),
        Launch::Exited(o) => {
            if o.success {
                Ok(select_segments(entries))
            } else {
                Err(VideoEncodeError::Encoding(String::from_str("Failed to split video")))
            }
        },
    }
}

/// Builds the argument list that sets the non-video streams of `input_path`
/// aside, and says where they go: the sidecar under `temp_dir`.
pub fn extract_non_video_arguments(input_path: &str, temp_dir: &str) -> (r: (Vec<String>, String))
    ensures
        r.1@ == sidecar_path(temp_dir@),
        texts(r.0@) == sidecar_arguments(input_path@, sidecar_path(temp_dir@)),
{
    let sidecar = join(temp_dir, "non_video_streams.mkv");
    let mut args: Vec<String> = Vec::new();
    proof {
        assert(texts(args@) =~= Seq::<Seq<char>>::empty());
    }
    push_text(&mut args, "-hide_banner");
    push_text(&mut args, "-i");
    push_text(&mut args, input_path);
    push_text(&mut args, "-y");
    push_text(&mut args, "-map");
    push_text(&mut args, "0");
    push_text(&mut args, "-vn");
    push_text(&mut args, "-c");
    push_text(&mut args, "copy");
    push_text(&mut args, sidecar.as_str());
    (args, sidecar)
}

/// Judges the run that was to set the non-video streams aside: the sidecar's
/// path after a good run, else the error.
pub fn extract_non_video_streams(launch: &Launch, temp_dir: &str) -> (r: Result<
    String,
    VideoEncodeError,
>)
    ensures
        match *launch {
            Launch::NotStarted(text) => r is Err && r->Err_0.says(ErrorKind::Io, text@),
            Launch::Exited(o) => if o.success {
                r is Ok && r->Ok_0@ == sidecar_path(temp_dir@)
            } else {
                r is Err && r->Err_0.says(
                    ErrorKind::Encoding,
                    "Failed to extract non-video streams"@,
                )
            },
        },
{
    match launch {
        Launch::NotStarted(text) => Err(VideoEncodeError::Io(text.clone())),
        Launch::Exited(o) => {
            if o.success {
                Ok(join(temp_dir, "non_video_streams.mkv"))
            } else {
                Err(
                    VideoEncodeError::Encoding(
                        String::from_str("Failed to extract non-video streams"),
                    ),
                )
            }
        },
    }
}

} // verus!
