//! Platforms the downloader serves, and what every platform client hands back.

pub mod bilibili;
pub mod youtube;

use vstd::prelude::*;
use crate::text::{
    lowercase, to_lowercase, contains_seq, str_contains, to_owned_string, is_ascii_seq, ascii_lower_seq,
    occurs_at,
};

verus! {

/// A supported video platform.
#[derive(Debug, Clone, Copy, PartialEq, Eq, Structural)]
pub enum Platform {
    Bilibili,
    YouTube,
}

/// Why a platform operation failed.
#[derive(Debug, Clone)]
pub enum PlatformError {
    /// The URL belongs to no supported platform.
    UnsupportedPlatform { url: String },
    /// The URL is not a YouTube watch or short link.
    UnrecognizedYouTubeUrl { url: String },
    /// `yt-dlp` printed fewer than four `|`-separated fields for a video.
    MalformedVideoInfo,
    /// `yt-dlp` printed nothing when asked for stream URLs.
    EmptyStreamResponse,
    /// `yt-dlp` printed no usable stream URL.
    NoValidStreamUrl,
    /// The playlist of a Bilibili video has no entry.
    EmptyPlaylist,
    /// `yt-dlp` is not installed.
    YtDlpMissing,
    /// Starting `yt-dlp` failed for another reason; the system's message.
    YtDlpCheckFailed { message: String },
    /// `yt-dlp` exited unsuccessfully; what it wrote to standard error.
    YtDlpFailed { stderr: String },
}

/// Which platform a lowercased URL belongs to: YouTube when it mentions
/// `youtube.com` or `youtu.be`, else Bilibili when it mentions `bilibili.com`.
pub open spec fn platform_of(lower: Seq<char>) -> Option<Platform> {
    if contains_seq(lower, "youtube.com"@) || contains_seq(lower, "youtu.be"@) {
        Some(Platform::YouTube)
    } else if contains_seq(lower, "bilibili.com"@) {
        Some(Platform::Bilibili)
    } else {
        None
    }
}

/// The platform's name.
pub open spec fn platform_name(p: Platform) -> Seq<char> {
    match p {
        Platform::Bilibili => "bilibili"@,
        Platform::YouTube => "youtube"@,
    }
}

/// The home page of a platform: `https://www.<name>.com/`.
pub open spec fn platform_home_url(p: Platform) -> Seq<char> {
    "https://www."@ + platform_name(p) + ".com/"@
}

/// Law: a platform's name leads back to it. Its home page URL is ASCII and
/// is recognised as that platform.
pub proof fn lemma_platform_name_round_trip(p: Platform)
    ensures
        is_ascii_seq(platform_home_url(p)),
        platform_of(ascii_lower_seq(platform_home_url(p))) == Some(p),
{
    reveal_strlit("https://www.");
    reveal_strlit(".com/");
    reveal_strlit("bilibili");
    reveal_strlit("youtube");
    reveal_strlit("youtube.com");
    reveal_strlit("youtu.be");
    reveal_strlit("bilibili.com");
    let u = platform_home_url(p);
    let l = ascii_lower_seq(u);
    assert(forall|i: int| 0 <= i < u.len() ==> (#[trigger] u[i] as u32) < 128 && !crate::text::is_ascii_upper_spec(u[i]));
    assert(l =~= u);
    match p {
        Platform::YouTube => {
            assert(u.subrange(12, 23) =~= "youtube.com"@);
            assert(occurs_at(u, "youtube.com"@, 12));
        },
        Platform::Bilibili => {
            assert(u.subrange(12, 24) =~= "bilibili.com"@);
            assert(occurs_at(u, "bilibili.com"@, 12));
            assert(forall|i: int| 0 <= i < u.len() ==> #[trigger] u[i] != 'y');
            assert forall|i: int| !occurs_at(u, "youtube.com"@, i) && !occurs_at(u, "youtu.be"@, i) by {
                if 0 <= i && i + 8 <= u.len() {
                    assert(u.subrange(i, i + 8)[0] == u[i]);
                }
                if 0 <= i && i + 11 <= u.len() {
                    assert(u.subrange(i, i + 11)[0] == u[i]);
                }
            }
        },
    }
}

impl Platform {
    /// Detects the platform of a URL, ignoring case.
    pub fn from_url(url: &str) -> (r: Result<Platform, PlatformError>)
        ensures
            match platform_of(lowercase(url@)) {
                Some(p) => r == Ok::<Platform, PlatformError>(p),
                None => r matches Err(PlatformError::UnsupportedPlatform { url: u }) && u@ == url@,
            },
            is_ascii_seq(url@) ==> match platform_of(ascii_lower_seq(url@)) {
                Some(p) => r == Ok::<Platform, PlatformError>(p),
                None => r is Err,
            },
    {
        let lower = to_lowercase(url);
        if str_contains(lower.as_str(), "youtube.com") || str_contains(lower.as_str(), "youtu.be") {
            Ok(Platform::YouTube)
        } else if str_contains(lower.as_str(), "bilibili.com") {
            Ok(Platform::Bilibili)
        } else {
            Err(PlatformError::UnsupportedPlatform { url: to_owned_string(url) })
        }
    }

    /// The platform's name: `bilibili` or `youtube`.
    pub fn name(&self) -> (r: &'static str)
        ensures
            r@ == platform_name(*self),
    {
        match self {
            Platform::Bilibili => "bilibili",
            Platform::YouTube => "youtube",
        }
    }
}

/// What a platform knows of a video.
#[derive(Debug, Clone)]
pub struct VideoInfo {
    pub platform: Platform,
    pub video_id: String,
    pub title: String,
    pub author: String,
    /// Length in seconds.
    pub duration: Option<u64>,
    pub description: Option<String>,
    /// Cover image URL.
    pub thumbnail: Option<String>,
}

/// Where the streams of a video are.
#[derive(Debug, Clone)]
pub struct StreamUrls {
    pub video_url: String,
    pub audio_url: String,
    pub video_quality: String,
    pub audio_quality: String,
}

/// State of the stored login cookies of a platform.
#[derive(Debug, Clone, Copy, PartialEq, Eq, Structural)]
pub enum CookiesStatus {
    Valid,
    Invalid,
    Expired,
    NotFound,
}

} // verus!
