//! Where FFmpeg may be found, and where it is downloaded from.

use vstd::prelude::*;
use crate::text::{str_eq, ends_with, ends_with_seq};
use crate::paths::{path_join, join_facts};

verus! {

/// The FFmpeg build downloaded for an operating system and architecture
/// (as `std::env::consts` names them): a zip for macOS on either
/// architecture and for 64-bit Windows, a tar.xz for 64-bit Linux, none
/// elsewhere.
pub open spec fn download_url_spec(os: Seq<char>, arch: Seq<char>) -> Option<Seq<char>> {
    if os == "macos"@ && (arch == "aarch64"@ || arch == "x86_64"@) {
        Some("https://evermeet.cx/ffmpeg/getrelease/zip"@)
    } else if os == "linux"@ && arch == "x86_64"@ {
        Some("https://github.com/BtbN/FFmpeg-Builds/releases/download/latest/ffmpeg-master-latest-linux64-gpl.tar.xz"@)
    } else if os == "windows"@ && arch == "x86_64"@ {
        Some("https://github.com/BtbN/FFmpeg-Builds/releases/download/latest/ffmpeg-master-latest-win64-gpl.zip"@)
    } else {
        None
    }
}

pub fn ffmpeg_download_url(os: &str, arch: &str) -> (r: Option<&'static str>)
    ensures
        match download_url_spec(os@, arch@) {
            Some(u) => r is Some && r->0@ == u,
            None => r is None,
        },
{
    if str_eq(os, "macos") && (str_eq(arch, "aarch64") || str_eq(arch, "x86_64")) {
        Some("https://evermeet.cx/ffmpeg/getrelease/zip")
    } else if str_eq(os, "linux") && str_eq(arch, "x86_64") {
        Some("https://github.com/BtbN/FFmpeg-Builds/releases/download/latest/ffmpeg-master-latest-linux64-gpl.tar.xz")
    } else if str_eq(os, "windows") && str_eq(arch, "x86_64") {
        Some("https://github.com/BtbN/FFmpeg-Builds/releases/download/latest/ffmpeg-master-latest-win64-gpl.zip")
    } else {
        None
    }
}

/// The file the download is saved as: `ffmpeg.zip` for a URL ending in
/// `.zip`, else `ffmpeg.tar.xz`; and whether it is a zip.
pub fn archive_name(url: &str) -> (r: (&'static str, bool))
    ensures
        r.1 == ends_with_seq(url@, ".zip"@),
        r.1 ==> r.0@ == "ffmpeg.zip"@,
        !r.1 ==> r.0@ == "ffmpeg.tar.xz"@,
{
    if ends_with(url, ".zip") {
        ("ffmpeg.zip", true)
    } else {
        ("ffmpeg.tar.xz", false)
    }
}

/// Name of the FFmpeg executable.
pub fn ffmpeg_binary_name(windows: bool) -> (n: &'static str)
    ensures
        windows ==> n@ == "ffmpeg.exe"@,
        !windows ==> n@ == "ffmpeg"@,
{
    if windows {
        "ffmpeg.exe"
    } else {
        "ffmpeg"
    }
}

/// Where a development checkout keeps its FFmpeg, relative to the working directory.
pub fn dev_ffmpeg_paths() -> (v: Vec<&'static str>)
    ensures
        v@.len() == 3,
        v@[0]@ == "src-tauri/resources/bin/ffmpeg"@,
        v@[1]@ == "resources/bin/ffmpeg"@,
        v@[2]@ == "../resources/bin/ffmpeg"@,
{
    vec!["src-tauri/resources/bin/ffmpeg", "resources/bin/ffmpeg", "../resources/bin/ffmpeg"]
}

/// Where an application bundle keeps its FFmpeg, given its resource
/// directory: `bin/ffmpeg`, then `resources/bin/ffmpeg`.
pub fn bundled_ffmpeg_paths(resources_dir: &str) -> (v: Vec<String>)
    ensures
        v@.len() == 2,
        exists|b: Seq<char>| join_facts(resources_dir@, "bin"@, b) && join_facts(b, "ffmpeg"@, v@[0]@),
        exists|r: Seq<char>, b: Seq<char>|
            join_facts(resources_dir@, "resources"@, r) && join_facts(r, "bin"@, b) && join_facts(b, "ffmpeg"@, v@[1]@),
{
    let bin = path_join(resources_dir, "bin");
    let first = path_join(bin.as_str(), "ffmpeg");
    let res = path_join(resources_dir, "resources");
    let rbin = path_join(res.as_str(), "bin");
    let second = path_join(rbin.as_str(), "ffmpeg");
    let mut v: Vec<String> = Vec::new();
    v.push(first);
    v.push(second);
    v
}

/// The FFmpeg installed by the application: `bin/ffmpeg` in its data directory.
pub fn local_ffmpeg_path(app_dir: &str) -> (p: String)
    ensures
        exists|b: Seq<char>| join_facts(app_dir@, "bin"@, b) && join_facts(b, "ffmpeg"@, p@),
{
    let bin = path_join(app_dir, "bin");
    path_join(bin.as_str(), "ffmpeg")
}

/// Where an entry of the downloaded zip archive goes: its name joined to
/// `bin_dir`, and whether it is a directory (its name ends in `/`).
pub fn zip_entry_target(bin_dir: &str, entry_name: &str) -> (r: (String, bool))
    ensures
        join_facts(bin_dir@, entry_name@, r.0@),
        r.1 == ends_with_seq(entry_name@, "/"@),
{
    (path_join(bin_dir, entry_name), ends_with(entry_name, "/"))
}

} // verus!
