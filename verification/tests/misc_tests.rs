use bilibili_downloader::ffmpeg::detector::{
    archive_name, bundled_ffmpeg_paths, dev_ffmpeg_paths, ffmpeg_binary_name, ffmpeg_download_url,
    local_ffmpeg_path, zip_entry_target,
};
use bilibili_downloader::ffmpeg::FFmpegManager;
use bilibili_downloader::fmt::{i32_to_string, i64_to_string, u64_to_string};
use bilibili_downloader::logger::{log_entry, LogLevel};
use bilibili_downloader::text::{split_char_exec, trim, trim_start_matches_str};

#[test]
fn log_entries() {
    assert_eq!(LogLevel::Debug.to_json(), "\"debug\"");
    assert_eq!(LogLevel::Info.to_json(), "\"info\"");
    assert_eq!(LogLevel::Warning.to_json(), "\"warning\"");
    assert_eq!(LogLevel::Error.to_json(), "\"error\"");
    let e = log_entry(LogLevel::Warning, "m".to_string(), "12:00:00.000".to_string());
    assert_eq!(e.level, "\"warning\"");
    assert_eq!(e.message, "m");
    assert_eq!(e.timestamp, "12:00:00.000");
}

#[test]
fn ffmpeg_sources() {
    assert_eq!(ffmpeg_download_url("macos", "aarch64"), Some("https://evermeet.cx/ffmpeg/getrelease/zip"));
    assert_eq!(ffmpeg_download_url("macos", "x86_64"), Some("https://evermeet.cx/ffmpeg/getrelease/zip"));
    assert_eq!(
        ffmpeg_download_url("linux", "x86_64"),
        Some("https://github.com/BtbN/FFmpeg-Builds/releases/download/latest/ffmpeg-master-latest-linux64-gpl.tar.xz")
    );
    assert_eq!(
        ffmpeg_download_url("windows", "x86_64"),
        Some("https://github.com/BtbN/FFmpeg-Builds/releases/download/latest/ffmpeg-master-latest-win64-gpl.zip")
    );
    assert_eq!(ffmpeg_download_url("linux", "aarch64"), None);
    assert_eq!(archive_name("https://x/y.zip"), ("ffmpeg.zip", true));
    assert_eq!(archive_name("https://x/getrelease/zip"), ("ffmpeg.tar.xz", false));
    assert_eq!(ffmpeg_binary_name(true), "ffmpeg.exe");
    assert_eq!(ffmpeg_binary_name(false), "ffmpeg");
}

#[test]
fn ffmpeg_locations() {
    assert_eq!(
        dev_ffmpeg_paths(),
        vec!["src-tauri/resources/bin/ffmpeg", "resources/bin/ffmpeg", "../resources/bin/ffmpeg"]
    );
    assert_eq!(
        bundled_ffmpeg_paths("/App/Contents/Resources"),
        vec!["/App/Contents/Resources/bin/ffmpeg", "/App/Contents/Resources/resources/bin/ffmpeg"]
    );
    assert_eq!(local_ffmpeg_path("/data/app"), "/data/app/bin/ffmpeg");
    assert_eq!(zip_entry_target("/bin", "ffmpeg-6/"), ("/bin/ffmpeg-6/".to_string(), true));
    assert_eq!(zip_entry_target("/bin", "ffmpeg-6/ffmpeg"), ("/bin/ffmpeg-6/ffmpeg".to_string(), false));
    let m = FFmpegManager::new("/usr/bin/ffmpeg".to_string());
    assert_eq!(m.path(), "/usr/bin/ffmpeg");
}

#[test]
fn text_helpers() {
    assert_eq!(split_char_exec("a|b||c", '|'), vec!["a", "b", "", "c"]);
    assert_eq!(split_char_exec("", ':'), vec![""]);
    assert_eq!(split_char_exec(":", ':'), vec!["", ""]);
    assert_eq!(trim_start_matches_str("abababc", "ab"), "c");
    assert_eq!(trim_start_matches_str("abc", ""), "abc");
    assert_eq!(trim("\u{3000} x \n"), "x");
    assert_eq!(u64_to_string(0), "0");
    assert_eq!(u64_to_string(u64::MAX), "18446744073709551615");
    assert_eq!(i64_to_string(i64::MIN), "-9223372036854775808");
    assert_eq!(i32_to_string(-42), "-42");
}
