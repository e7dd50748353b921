//! Bilibili: recognising video URLs and interpreting what the web API and
//! the video page return.

pub mod collection;
pub mod video;
pub mod page;
pub mod playurl;

use vstd::prelude::*;
use crate::text::{trim, ascii_lowercase, str_eq, trim_seq, ascii_lower_seq, concat, push_str, is_ascii_seq};
use crate::fmt::{push_i64, int_decimal};
use crate::pattern::{
    capture_group, regex_capture, bv_in_text, is_ascii_word_char, class_run, alt_at, lemma_class_run_exact,
    lemma_leftmost_at,
};
use crate::text::occurs_at;

verus! {

/// Kind of Bilibili URL.
#[derive(Debug, Clone, PartialEq)]
pub enum BilibiliUrlType {
    SingleVideo { bvid: String },
}

/// A Bilibili video.
#[derive(Debug, Clone)]
pub struct VideoInfo {
    pub bvid: String,
    pub title: String,
    pub owner: String,
    pub cid: i64,
    pub pages: Vec<VideoPage>,
    pub intro: String,
}

/// One part ("P") of a video.
#[derive(Debug, Clone)]
pub struct VideoPage {
    pub page: i32,
    pub cid: i64,
    pub part: String,
    pub duration: i32,
}

/// One entry of a playlist.
#[derive(Debug, Clone)]
pub struct PlaylistVideo {
    pub bvid: String,
    pub cid: i64,
    pub title: String,
    pub index: i32,
}

/// A playlist: a multi-part video, a collection, or a single video. `kind`
/// is `"multi_part"`, `"collection"` or `"single"`.
#[derive(Debug, Clone)]
pub struct PlaylistResult {
    pub kind: String,
    pub title: String,
    pub videos: Vec<PlaylistVideo>,
}

/// Where the streams of a video are.
#[derive(Debug, Clone)]
pub struct PlayUrlResult {
    pub video_url: String,
    pub audio_url: String,
    pub video_quality: i32,
    pub video_size: u64,
    pub audio_size: u64,
}

/// How collections are recognised.
#[derive(Debug, Clone, Copy, PartialEq, Eq, Structural)]
pub enum CollectionMode {
    /// Structured API data only.
    Strict,
    /// Structured data first, then the video page's initial state.
    Compat,
}

pub struct PlaylistVideoView {
    pub bvid: Seq<char>,
    pub cid: i64,
    pub title: Seq<char>,
    pub index: i32,
}

impl View for PlaylistVideo {
    type V = PlaylistVideoView;

    open spec fn view(&self) -> PlaylistVideoView {
        PlaylistVideoView { bvid: self.bvid@, cid: self.cid, title: self.title@, index: self.index }
    }
}

pub struct PlaylistResultView {
    pub kind: Seq<char>,
    pub title: Seq<char>,
    pub videos: Seq<PlaylistVideoView>,
}

pub open spec fn videos_view(v: Seq<PlaylistVideo>) -> Seq<PlaylistVideoView> {
    v.map_values(|x: PlaylistVideo| x@)
}

impl View for PlaylistResult {
    type V = PlaylistResultView;

    open spec fn view(&self) -> PlaylistResultView {
        PlaylistResultView { kind: self.kind@, title: self.title@, videos: videos_view(self.videos@) }
    }
}

impl Default for CollectionMode {
    fn default() -> (m: Self)
        ensures
            m == CollectionMode::Strict,
    {
        CollectionMode::Strict
    }
}

/// The mode a setting names: `Compat` when, trimmed and in ASCII lowercase,
/// it reads `compat`; `Strict` otherwise, and when there is no setting.
pub open spec fn mode_from_setting(mode: Option<Seq<char>>) -> CollectionMode {
    match mode {
        Some(s) => if ascii_lower_seq(trim_seq(s)) == "compat"@ {
            CollectionMode::Compat
        } else {
            CollectionMode::Strict
        },
        None => CollectionMode::Strict,
    }
}

impl CollectionMode {
    pub fn from_option_str(mode: Option<&str>) -> (m: Self)
        ensures
            m == mode_from_setting(
                match mode {
                    Some(s) => Some(s@),
                    None => None,
                },
            ),
    {
        match mode {
            Some(s) => {
                let t = trim(s);
                let l = ascii_lowercase(t.as_str());
                if str_eq(l.as_str(), "compat") {
                    CollectionMode::Compat
                } else {
                    CollectionMode::Strict
                }
            },
            None => CollectionMode::Strict,
        }
    }
}

/// Why Bilibili data could not be used.
#[derive(Debug, Clone, PartialEq)]
pub enum BiliError {
    /// The URL is not a Bilibili video URL.
    UnrecognizedUrl,
    /// The API answered with a non-zero code; the message as the API gave it.
    Api { message: String },
    /// A required field is missing from the video data.
    MissingField { field: video::VideoField },
    /// The video has no parts.
    NoPages,
    /// No video stream is offered.
    NoVideoStream,
    /// A video stream exists but no audio stream.
    NoAudioStream,
    /// Both streams are chosen but the answer carries no quality.
    MissingQuality,
}

/// The URL pattern of a Bilibili video page.
pub open spec fn video_url_pattern() -> Seq<char> {
    "bilibili\\.com/video/(BV[\\w]+)"@
}

/// Law: a video URL gives its BV id whatever comes before
/// `bilibili.com/video/` (any host, scheme or path). Where
/// `bilibili.com/video/BV` first occurs at `i` followed by word characters
/// up to `e` (the end of the URL or a non-word character), the id is `BV`
/// and those characters; `parse_url` returns it for ASCII URLs.
pub proof fn lemma_bv_read_anywhere(url: Seq<char>, i: int, e: int)
    requires
        occurs_at(url, "bilibili.com/video/BV"@, i),
        i + 21 < e <= url.len(),
        forall|m: int| i + 21 <= m < e ==> is_ascii_word_char(#[trigger] url[m]),
        e == url.len() || !is_ascii_word_char(url[e]),
        forall|k: int|
            0 <= k < i ==> !(#[trigger] occurs_at(url, "bilibili.com/video/BV"@, k) && k + 21 < url.len()
                && is_ascii_word_char(url[k + 21])),
    ensures
        bv_in_text(url) == Some(url.subrange(i + 19, e)),
{
    reveal_strlit("bilibili.com/video/BV");
    let lit = "bilibili.com/video/BV"@;
    let alts = seq![lit];
    let cls = |c: char| is_ascii_word_char(c);
    assert(lit.len() == 21);
    lemma_class_run_exact(url, i + 21, e, cls);
    assert forall|k2: int| 0 <= k2 < i implies #[trigger] alt_at(url, alts, cls, k2, 0) is None by {
        assert(alts[0] == lit);
        if occurs_at(url, lit, k2) && class_run(url, k2 + 21, cls) > 0 {
            assert(k2 + 21 < url.len() && cls(url[k2 + 21]));
        }
        assert(alt_at(url, alts, cls, k2, 1) is None);
    }
    assert(alt_at(url, alts, cls, i, 0) == Some(0int));
    lemma_leftmost_at(url, alts, cls, 0, i, 0);
}

/// Bilibili web client settings.
#[derive(Debug, Clone)]
pub struct BilibiliClient {
    pub sessdata: Option<String>,
}

impl BilibiliClient {
    /// A client without login.
    pub fn new() -> (c: Self)
        ensures
            c.sessdata is None,
    {
        BilibiliClient { sessdata: None }
    }

    /// The client, logged in with `sessdata`.
    pub fn with_sessdata(self, sessdata: String) -> (c: Self)
        ensures
            c.sessdata == Some(sessdata),
    {
        BilibiliClient { sessdata: Some(sessdata) }
    }

    /// The `Cookie` header value sent when logged in: `SESSDATA=<value>`.
    pub fn cookie_header(&self) -> (h: Option<String>)
        ensures
            match self.sessdata {
                Some(s) => h is Some && h->0@ == "SESSDATA="@ + s@,
                None => h is None,
            },
    {
        match &self.sessdata {
            Some(s) => Some(concat("SESSDATA=", s.as_str())),
            None => None,
        }
    }

    /// The `view` API address of a video.
    pub fn view_api_url(bvid: &str) -> (u: String)
        ensures
            u@ == "https://api.bilibili.com/x/web-interface/view?bvid="@ + bvid@,
    {
        concat("https://api.bilibili.com/x/web-interface/view?bvid=", bvid)
    }

    /// The web page of a video.
    pub fn video_page_url(bvid: &str) -> (u: String)
        ensures
            u@ == "https://www.bilibili.com/video/"@ + bvid@,
    {
        concat("https://www.bilibili.com/video/", bvid)
    }

    /// The `playurl` API address of part `cid` of a video at quality `quality`,
    /// asking for DASH streams and 4K.
    pub fn play_url_api(bvid: &str, cid: i64, quality: i32) -> (u: String)
        ensures
            u@ == "https://api.bilibili.com/x/player/playurl?bvid="@ + bvid@ + "&cid="@
                + int_decimal(cid as int) + "&qn="@ + int_decimal(quality as int)
                + "&fnval=16&fourk=1"@,
    {
        let mut u = concat("https://api.bilibili.com/x/player/playurl?bvid=", bvid);
        push_str(&mut u, "&cid=");
        push_i64(&mut u, cid);
        push_str(&mut u, "&qn=");
        push_i64(&mut u, quality as i64);
        push_str(&mut u, "&fnval=16&fourk=1");
        u
    }

    /// Recognises a video URL: the BV id after `bilibili.com/video/`.
    pub fn parse_url(url: &str) -> (r: Result<(BilibiliUrlType, Option<String>), BiliError>)
        ensures
            match regex_capture(video_url_pattern(), url@, 1) {
                Some(b) => {
                    &&& r is Ok
                    &&& (r->Ok_0.0 matches BilibiliUrlType::SingleVideo { bvid } && bvid@ == b)
                    &&& r->Ok_0.1 is Some
                    &&& r->Ok_0.1->0@ == b
                },
                None => r == Err::<(BilibiliUrlType, Option<String>), BiliError>(
                    BiliError::UnrecognizedUrl,
                ),
            },
            is_ascii_seq(url@) ==> match bv_in_text(url@) {
                Some(b) => {
                    &&& r is Ok
                    &&& (r->Ok_0.0 matches BilibiliUrlType::SingleVideo { bvid } && bvid@ == b)
                    &&& r->Ok_0.1 is Some
                    &&& r->Ok_0.1->0@ == b
                },
                None => r is Err,
            },
    {
        match capture_group("bilibili\\.com/video/(BV[\\w]+)", url, 1) {
            Some(b) => {
                let b2 = b.clone();
                Ok((BilibiliUrlType::SingleVideo { bvid: b }, Some(b2)))
            },
            None => Err(BiliError::UnrecognizedUrl),
        }
    }
}

} // verus!
