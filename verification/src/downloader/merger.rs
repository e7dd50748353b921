//! Joining chunk files and muxing the video and audio streams with FFmpeg.

use vstd::prelude::*;
use crate::text::{concat, push_str, to_owned_string, str_contains, contains_seq, lowercase, to_lowercase, str_eq};
use crate::fmt::{push_decimal, decimal};
use crate::paths::{path_join, join_facts};

verus! {

/// Merges the streams of a task with the FFmpeg at `ffmpeg_path`.
#[derive(Debug, Clone)]
pub struct VideoMerger {
    pub ffmpeg_path: String,
}

/// How the chunks of one stream are joined.
#[derive(Debug, Clone, Copy, PartialEq, Eq, Structural)]
pub enum ChunkMerge {
    /// A single chunk is copied as it is.
    Copy,
    /// Several chunks are concatenated byte for byte, in order.
    Concatenate,
}

/// Why merging failed.
#[derive(Debug, Clone, Copy, PartialEq, Eq, Structural)]
pub enum MergeError {
    /// The stream has no chunk.
    NoChunks,
    /// The joined file's size is not the sum of the chunk sizes.
    SizeMismatch { got: u64, expected: u64 },
}

impl VideoMerger {
    pub fn new(ffmpeg_path: String) -> (m: Self)
        ensures
            m.ffmpeg_path == ffmpeg_path,
    {
        VideoMerger { ffmpeg_path }
    }
}

/// How to join `n` chunks.
pub fn chunk_merge_kind(n: usize) -> (r: Result<ChunkMerge, MergeError>)
    ensures
        n == 0 ==> r == Err::<ChunkMerge, MergeError>(MergeError::NoChunks),
        n == 1 ==> r == Ok::<ChunkMerge, MergeError>(ChunkMerge::Copy),
        n > 1 ==> r == Ok::<ChunkMerge, MergeError>(ChunkMerge::Concatenate),
{
    if n == 0 {
        Err(MergeError::NoChunks)
    } else if n == 1 {
        Ok(ChunkMerge::Copy)
    } else {
        Ok(ChunkMerge::Concatenate)
    }
}

/// The joined file must be exactly as large as its chunks together.
pub fn check_merged_size(merged: u64, expected: u64) -> (r: Result<(), MergeError>)
    ensures
        r == (if merged == expected {
            Ok::<(), MergeError>(())
        } else {
            Err(MergeError::SizeMismatch { got: merged, expected })
        }),
{
    if merged == expected {
        Ok(())
    } else {
        Err(MergeError::SizeMismatch { got: merged, expected })
    }
}

/// The unique part of the intermediate file names: `<stem>_<pid>_<nanos>`,
/// with `output` as the stem when the output has none.
pub open spec fn temp_stream_unique(stem: Option<Seq<char>>, pid: u32, nanos: u128) -> Seq<char> {
    (match stem {
        Some(s) => s,
        None => "output"@,
    }) + "_"@ + decimal(pid as nat) + "_"@ + decimal(nanos as nat)
}

/// The intermediate video and audio files of a merge, in `temp_dir`:
/// `video_combined_<unique>.mp4` and `audio_combined_<unique>.m4a`.
pub fn build_temp_stream_paths(temp_dir: &str, stem: Option<&str>, pid: u32, nanos: u128) -> (r: (String, String))
    ensures
        join_facts(
            temp_dir@,
            "video_combined_"@ + temp_stream_unique(
                match stem {
                    Some(s) => Some(s@),
                    None => None,
                },
                pid,
                nanos,
            ) + ".mp4"@,
            r.0@,
        ),
        join_facts(
            temp_dir@,
            "audio_combined_"@ + temp_stream_unique(
                match stem {
                    Some(s) => Some(s@),
                    None => None,
                },
                pid,
                nanos,
            ) + ".m4a"@,
            r.1@,
        ),
{
    let mut unique = match stem {
        Some(s) => to_owned_string(s),
        None => to_owned_string("output"),
    };
    push_str(&mut unique, "_");
    push_decimal(&mut unique, pid as u128);
    push_str(&mut unique, "_");
    push_decimal(&mut unique, nanos);
    let mut v = concat("video_combined_", unique.as_str());
    push_str(&mut v, ".mp4");
    let mut a = concat("audio_combined_", unique.as_str());
    push_str(&mut a, ".m4a");
    (path_join(temp_dir, v.as_str()), path_join(temp_dir, a.as_str()))
}

/// FFmpeg's report on a file names an HEVC stream: `hevc`, `h265` or `hev1`,
/// in any case.
pub open spec fn mentions_hevc(report: Seq<char>) -> bool {
    let l = lowercase(report);
    contains_seq(l, "hevc"@) || contains_seq(l, "h265"@) || contains_seq(l, "hev1"@)
}

pub fn report_mentions_hevc(report: &str) -> (b: bool)
    ensures
        b == mentions_hevc(report@),
{
    let l = to_lowercase(report);
    str_contains(l.as_str(), "hevc") || str_contains(l.as_str(), "h265") || str_contains(l.as_str(), "hev1")
}

/// HEVC video on macOS is tagged `hvc1` so that the system player accepts it.
pub fn needs_hevc_fix(os: &str, is_hevc: bool) -> (b: bool)
    ensures
        b == (os@ == "macos"@ && is_hevc),
{
    str_eq(os, "macos") && is_hevc
}

/// The FFmpeg arguments that mux `video` and `audio` into `output` without
/// re-encoding, overwriting it, with the `hvc1` tag when asked.
pub open spec fn merge_args_spec(video: Seq<char>, audio: Seq<char>, output: Seq<char>, hevc_fix: bool) -> Seq<Seq<char>> {
    seq!["-i"@, video, "-i"@, audio, "-c:v"@, "copy"@] + (if hevc_fix {
        seq!["-tag:v"@, "hvc1"@]
    } else {
        seq![]
    }) + seq!["-c:a"@, "copy"@, "-y"@, output]
}

pub fn merge_stream_args(video: &str, audio: &str, output: &str, hevc_fix: bool) -> (args: Vec<String>)
    ensures
        args@.map_values(|s: String| s@) == merge_args_spec(video@, audio@, output@, hevc_fix),
{
    let mut args: Vec<String> = Vec::new();
    args.push(to_owned_string("-i"));
    args.push(to_owned_string(video));
    args.push(to_owned_string("-i"));
    args.push(to_owned_string(audio));
    args.push(to_owned_string("-c:v"));
    args.push(to_owned_string("copy"));
    if hevc_fix {
        args.push(to_owned_string("-tag:v"));
        args.push(to_owned_string("hvc1"));
    }
    args.push(to_owned_string("-c:a"));
    args.push(to_owned_string("copy"));
    args.push(to_owned_string("-y"));
    args.push(to_owned_string(output));
    assert(args@.map_values(|s: String| s@) =~= merge_args_spec(video@, audio@, output@, hevc_fix));
    args
}

} // verus!
