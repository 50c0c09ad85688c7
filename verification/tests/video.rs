use ferris_swarm::error::VideoEncodeError;
use ferris_swarm::paths::{Canonical, ProbedPath};
use ferris_swarm::video::concatenator::{
    build_manifest, concatenate_videos_ffmpeg, concatenate_videos_mkvmerge, conclude_ffmpeg_concat,
    conclude_mkvmerge_concat, plan_ffmpeg_concat, plan_mkvmerge_concat,
};
use ferris_swarm::video::encoder::{Launch, ProcessOutput};
use ferris_swarm::video::segmenter::{
    extract_non_video_arguments, extract_non_video_streams, segment_video, segment_video_arguments,
    select_segments,
};
use ferris_swarm::video::utils::{
    ffmpeg_verdict, mkvmerge_verdict, verify_ffmpeg, verify_mkvmerge,
};

fn strings(list: &[&str]) -> Vec<String> {
    list.iter().map(|s| s.to_string()).collect()
}

fn there(path: &str) -> ProbedPath {
    ProbedPath {
        path: path.to_string(),
        exists: true,
        canonical: Canonical::Found(format!("/abs/{}", path)),
    }
}

fn missing(path: &str) -> ProbedPath {
    ProbedPath {
        path: path.to_string(),
        exists: false,
        canonical: Canonical::Failed("No such file or directory".to_string()),
    }
}

fn exited(success: bool, stdout: &str, stderr: &str) -> Launch {
    Launch::Exited(ProcessOutput {
        success,
        stdout: stdout.to_string(),
        stderr: stderr.to_string(),
    })
}

#[test]
fn test_ffmpeg_verification() {
    let result = verify_ffmpeg();
    match result {
        Ok(_) => {
            println!("FFmpeg is available");
        }
        Err(VideoEncodeError::FfmpegNotFound) => {
            println!("FFmpeg not found (expected in some test environments)");
        }
        Err(e) => {
            panic!("Unexpected error checking FFmpeg: {}", e.to_string());
        }
    }
}

#[test]
fn test_mkvmerge_verification() {
    let result = verify_mkvmerge();
    match result {
        Ok(_) => {
            println!("mkvmerge is available");
        }
        Err(VideoEncodeError::MkvmergeNotFound) => {
            println!("mkvmerge not found (expected in some test environments)");
        }
        Err(e) => {
            panic!("Unexpected error checking mkvmerge: {}", e.to_string());
        }
    }
}

#[test]
fn programs_found_or_not() {
    assert_eq!(ffmpeg_verdict(true), Ok(()));
    assert_eq!(ffmpeg_verdict(false), Err(VideoEncodeError::FfmpegNotFound));
    assert_eq!(mkvmerge_verdict(true), Ok(()));
    assert_eq!(mkvmerge_verdict(false), Err(VideoEncodeError::MkvmergeNotFound));
}

#[test]
fn manifest_lines() {
    assert_eq!(
        build_manifest(&strings(&["/job/e 0.mkv", "/job/é1.mkv"])),
        "file '/job/e 0.mkv'\nfile '/job/é1.mkv'\n"
    );
    assert_eq!(build_manifest(&strings(&["/it's.mkv"])), "file '/it'\\''s.mkv'\n");
    assert_eq!(build_manifest(&vec![]), "");
}

#[test]
fn concat_plan() {
    let segments = vec![there("e0.mkv"), there("e1.mkv")];
    let plan = plan_ffmpeg_concat(&segments, &there("side.mkv"), "out.mkv", "/job", 2).unwrap();
    assert_eq!(plan.manifest_path, "/job/ffmpeg_concat_list.txt");
    assert_eq!(plan.manifest, "file '/abs/e0.mkv'\nfile '/abs/e1.mkv'\n");
    assert_eq!(
        plan.arguments,
        strings(&[
            "-hide_banner",
            "-f",
            "concat",
            "-safe",
            "0",
            "-i",
            "/job/ffmpeg_concat_list.txt",
            "-i",
            "side.mkv",
            "-map",
            "0:v?",
            "-map",
            "1?",
            "-c",
            "copy",
            "-y",
            "out.mkv",
        ])
    );
}

#[test]
fn concat_preconditions() {
    let side = there("side.mkv");
    assert_eq!(
        plan_ffmpeg_concat(&vec![], &side, "out.mkv", "/job", 0),
        Err(VideoEncodeError::Concatenation(
            "No video segments provided for FFmpeg concatenation.".to_string()
        ))
    );
    assert_eq!(
        plan_ffmpeg_concat(&vec![there("e0.mkv")], &side, "out.mkv", "/job", 2),
        Err(VideoEncodeError::Concatenation(
            "FFmpeg: Mismatch in segment count. Expected: 2, Found: 1".to_string()
        ))
    );
    assert_eq!(
        plan_ffmpeg_concat(
            &vec![there("e0.mkv"), missing("e1.mkv"), missing("e2.mkv")],
            &side,
            "out.mkv",
            "/job",
            3
        ),
        Err(VideoEncodeError::Concatenation(
            "FFmpeg: Segment file not found: e1.mkv".to_string()
        ))
    );
    assert_eq!(
        plan_ffmpeg_concat(&vec![there("e0.mkv")], &missing("side.mkv"), "out.mkv", "/job", 1),
        Err(VideoEncodeError::Concatenation(
            "FFmpeg: Non-video stream file not found: side.mkv".to_string()
        ))
    );
    let unresolved = ProbedPath {
        path: "e0.mkv".to_string(),
        exists: true,
        canonical: Canonical::Failed("loop".to_string()),
    };
    assert_eq!(
        plan_ffmpeg_concat(&vec![unresolved], &side, "out.mkv", "/job", 1),
        Err(VideoEncodeError::Io("loop".to_string()))
    );
    assert_eq!(
        plan_mkvmerge_concat(&vec![], &side, "out.mkv", 0),
        Err(VideoEncodeError::Concatenation(
            "No video segments provided for mkvmerge concatenation.".to_string()
        ))
    );
    assert_eq!(
        plan_mkvmerge_concat(&vec![there("e0.mkv")], &side, "out.mkv", 3),
        Err(VideoEncodeError::Concatenation(
            "Mkvmerge: Mismatch in segment count. Expected: 3, Found: 1".to_string()
        ))
    );
}

#[test]
fn concat_on_disk() {
    assert!(matches!(
        concatenate_videos_ffmpeg(vec![], "side.mkv", "out.mkv", "/job", 0),
        Err(VideoEncodeError::Concatenation(_))
    ));
    assert!(matches!(
        concatenate_videos_ffmpeg(
            strings(&["/nonexistent/e0.mkv"]),
            "/nonexistent/side.mkv",
            "out.mkv",
            "/job",
            1
        ),
        Err(VideoEncodeError::Concatenation(_))
    ));
    assert!(matches!(
        concatenate_videos_mkvmerge(strings(&["/nonexistent/e0.mkv"]), "side.mkv", "out.mkv", 2),
        Err(VideoEncodeError::Concatenation(_))
    ));
    let segment = tempfile::NamedTempFile::new().expect("Failed to create temp file");
    let sidecar = tempfile::NamedTempFile::new().expect("Failed to create temp file");
    let segment_path = segment.path().to_string_lossy().into_owned();
    let sidecar_path = sidecar.path().to_string_lossy().into_owned();
    let plan = concatenate_videos_ffmpeg(
        vec![segment_path.clone()],
        &sidecar_path,
        "out.mkv",
        "/job",
        1,
    )
    .unwrap();
    let canonical = segment.path().canonicalize().unwrap().to_string_lossy().into_owned();
    assert_eq!(plan.manifest, format!("file '{}'\n", canonical));
    let arguments =
        concatenate_videos_mkvmerge(vec![segment_path], &sidecar_path, "out.mkv", 1).unwrap();
    let canonical_sidecar = sidecar.path().canonicalize().unwrap().to_string_lossy().into_owned();
    assert_eq!(arguments, vec!["-o".to_string(), "out.mkv".to_string(), canonical, canonical_sidecar]);
}

#[test]
fn merge_plan() {
    let segments = vec![there("e0.mkv"), there("e1.mkv"), there("e2.mkv")];
    assert_eq!(
        plan_mkvmerge_concat(&segments, &there("side.mkv"), "out.mkv", 3).unwrap(),
        strings(&[
            "-o",
            "out.mkv",
            "/abs/e0.mkv",
            "+",
            "/abs/e1.mkv",
            "+",
            "/abs/e2.mkv",
            "/abs/side.mkv",
        ])
    );
    assert_eq!(
        plan_mkvmerge_concat(&vec![there("e0.mkv")], &there("side.mkv"), "out.mkv", 1).unwrap(),
        strings(&["-o", "out.mkv", "/abs/e0.mkv", "/abs/side.mkv"])
    );
    let side = ProbedPath {
        path: "side.mkv".to_string(),
        exists: true,
        canonical: Canonical::Failed("denied".to_string()),
    };
    assert_eq!(
        plan_mkvmerge_concat(&vec![there("e0.mkv")], &side, "out.mkv", 1),
        Err(VideoEncodeError::Io("denied".to_string()))
    );
}

#[test]
fn concat_verdicts() {
    assert_eq!(conclude_ffmpeg_concat(&exited(true, "", ""), None), Ok(()));
    assert_eq!(
        conclude_ffmpeg_concat(&exited(true, "", ""), Some("busy".to_string())),
        Err(VideoEncodeError::Io("busy".to_string()))
    );
    assert_eq!(
        conclude_ffmpeg_concat(&exited(false, "", "bad"), None),
        Err(VideoEncodeError::Concatenation(
            "FFmpeg concatenation failed. FFmpeg stderr: bad".to_string()
        ))
    );
    assert_eq!(
        conclude_ffmpeg_concat(&Launch::NotStarted("missing".to_string()), None),
        Err(VideoEncodeError::Io("missing".to_string()))
    );
    assert_eq!(conclude_mkvmerge_concat(&exited(true, "", "")), Ok(()));
    assert_eq!(
        conclude_mkvmerge_concat(&exited(false, "out", "err")),
        Err(VideoEncodeError::Concatenation(
            "mkvmerge concatenation failed. Stdout: 'out', Stderr: 'err'".to_string()
        ))
    );
}

#[test]
fn segments_are_picked_and_sorted() {
    let entries = strings(&[
        "/job/segments/chunk_0002.mp4",
        "/job/segments/notes.txt",
        "/job/segments/chunk_0000.mp4",
        "/job/segments/chunk_0010.mp4",
        "/job/segments/.mp4",
        "/job/segments/chunk_0001.mp4",
    ]);
    assert_eq!(
        select_segments(entries.clone()),
        strings(&[
            "/job/segments/chunk_0000.mp4",
            "/job/segments/chunk_0001.mp4",
            "/job/segments/chunk_0002.mp4",
            "/job/segments/chunk_0010.mp4",
        ])
    );
    assert_eq!(select_segments(vec![]), Vec::<String>::new());
    assert_eq!(select_segments(strings(&["b.mp4", "a.mp4", "b.mp4"])), strings(&["a.mp4", "b.mp4", "b.mp4"]));
    let mut by_std = strings(&["é.mp4", "z.mp4", "Z.mp4", "a.mp4", "a.mp4x.mp4"]);
    let ours = select_segments(by_std.clone());
    by_std.sort();
    assert_eq!(ours, by_std);

    assert_eq!(
        segment_video(&exited(true, "", ""), entries),
        Ok(strings(&[
            "/job/segments/chunk_0000.mp4",
            "/job/segments/chunk_0001.mp4",
            "/job/segments/chunk_0002.mp4",
            "/job/segments/chunk_0010.mp4",
        ]))
    );
    assert_eq!(segment_video(&exited(true, "", ""), vec![]), Ok(vec![]));
    assert_eq!(
        segment_video(&exited(false, "", "x"), vec![]),
        Err(VideoEncodeError::Encoding("Failed to split video".to_string()))
    );
    assert_eq!(
        segment_video(&Launch::NotStarted("gone".to_string()), vec![]),
        Err(VideoEncodeError::Io("gone".to_string()))
    );
}

#[test]
fn segmenter_arguments() {
    assert_eq!(
        segment_video_arguments("in.mkv", "30", "/job/segments"),
        strings(&[
            "-hide_banner",
            "-i",
            "in.mkv",
            "-y",
            "-an",
            "-sn",
            "-dn",
            "-c",
            "copy",
            "-map",
            "0",
            "-segment_time",
            "30",
            "-f",
            "segment",
            "-reset_timestamps",
            "1",
            "/job/segments/chunk_%04d.mp4",
        ])
    );
    let (arguments, sidecar) = extract_non_video_arguments("in.mkv", "/job");
    assert_eq!(sidecar, "/job/non_video_streams.mkv");
    assert_eq!(
        arguments,
        strings(&[
            "-hide_banner",
            "-i",
            "in.mkv",
            "-y",
            "-map",
            "0",
            "-vn",
            "-c",
            "copy",
            "/job/non_video_streams.mkv",
        ])
    );
    assert_eq!(
        extract_non_video_streams(&exited(true, "", ""), "/job"),
        Ok("/job/non_video_streams.mkv".to_string())
    );
    assert_eq!(
        extract_non_video_streams(&exited(false, "", ""), "/job"),
        Err(VideoEncodeError::Encoding("Failed to extract non-video streams".to_string()))
    );
}

#[test]
fn a_wrong_number_of_segments_is_refused_whatever_is_on_disk() {
    assert_eq!(
        concatenate_videos_ffmpeg(
            strings(&["/no/a.mkv", "/no/b.mkv"]),
            "/no/s.mkv",
            "/no/out.mkv",
            "/no/tmp",
            1
        ),
        Err(VideoEncodeError::Concatenation(
            "FFmpeg: Mismatch in segment count. Expected: 1, Found: 2".to_string()
        ))
    );
    assert_eq!(
        concatenate_videos_ffmpeg(vec![], "/no/s.mkv", "/no/out.mkv", "/no/tmp", 0),
        Err(VideoEncodeError::Concatenation(
            "No video segments provided for FFmpeg concatenation.".to_string()
        ))
    );
    assert_eq!(
        concatenate_videos_mkvmerge(strings(&["/no/a.mkv"]), "/no/s.mkv", "/no/out.mkv", 3),
        Err(VideoEncodeError::Concatenation(
            "Mkvmerge: Mismatch in segment count. Expected: 3, Found: 1".to_string()
        ))
    );
    assert_eq!(
        concatenate_videos_mkvmerge(vec![], "/no/s.mkv", "/no/out.mkv", 0),
        Err(VideoEncodeError::Concatenation(
            "No video segments provided for mkvmerge concatenation.".to_string()
        ))
    );
    assert_eq!(
        concatenate_videos_ffmpeg(strings(&["/no/a.mkv"]), "/no/s.mkv", "/no/out.mkv", "/no/tmp", 1),
        Err(VideoEncodeError::Concatenation(
            "FFmpeg: Segment file not found: /no/a.mkv".to_string()
        ))
    );
}
