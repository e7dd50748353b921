//! What the user-facing commands decide and answer: playlist answers, login
//! state, the `SESSDATA` login token, and download requests.

use vstd::prelude::*;
use crate::bilibili::{PlaylistResult, PlaylistVideo, PlayUrlResult};
use crate::login::LoginStatus;
use crate::downloader::DownloadConfig;
use crate::downloader::manager::StartDownloadRequest;
use crate::pattern::{capture_group, regex_capture};
use crate::url_encoding::{url_decode, url_decoded};
use crate::text::{
    split_char, split_char_exec, strip_prefix_all, trim_start_matches_str, starts_with,
    starts_with_seq, str_eq, strings_view, opt_view, to_owned_string, push_str, trim, trim_seq,
};
use crate::fmt::{decimal, push_decimal};

verus! {

/// The answer to a playlist request.
#[derive(Debug, Clone)]
pub struct ParseUrlResult {
    /// `"multi_part"`, `"collection"` or `"single"`.
    pub kind: String,
    pub title: String,
    pub videos: Vec<PlaylistVideo>,
}

impl ParseUrlResult {
    /// The answer that carries `playlist`.
    pub fn from_playlist(playlist: PlaylistResult) -> (r: Self)
        ensures
            r.kind == playlist.kind,
            r.title == playlist.title,
            r.videos == playlist.videos,
    {
        ParseUrlResult { kind: playlist.kind, title: playlist.title, videos: playlist.videos }
    }
}

/// Whether the user is logged in.
#[derive(Debug, Clone)]
pub struct LoginStatusResult {
    pub logged_in: bool,
    pub username: Option<String>,
}

/// The login state to report. `polled` is the status of the pending QR
/// code, `None` where no code is pending; `has_sessdata` tells whether a
/// login token is held. A successful poll means logged in; otherwise the
/// held token decides.
pub fn login_status_result(polled: Option<&LoginStatus>, has_sessdata: bool) -> (r: LoginStatusResult)
    ensures
        r.logged_in == ((polled matches Some(s) && s is Success) || has_sessdata),
        r.username is None,
{
    let success = match polled {
        Some(LoginStatus::Success { .. }) => true,
        _ => false,
    };
    LoginStatusResult { logged_in: success || has_sessdata, username: None }
}

/// A QR code as shown to the user.
#[derive(Debug, Clone)]
pub struct QrcodeResult {
    pub url: String,
    pub qrcode_image: String,
}

impl QrcodeResult {
    /// What the user sees of a login QR code; its key stays with the caller.
    pub fn from_login(q: crate::login::QrcodeResult) -> (r: Self)
        ensures
            r.url == q.url,
            r.qrcode_image == q.qrcode_image,
    {
        QrcodeResult { url: q.url, qrcode_image: q.qrcode_image }
    }
}

/// A video the user asked to download.
#[derive(Debug, Clone)]
pub struct VideoToDownload {
    pub bvid: String,
    pub cid: i64,
    pub title: String,
    pub part_title: Option<String>,
}

/// The settings a download runs with: `config`, saving under `save_path`
/// where one is given.
pub fn download_config(config: DownloadConfig, save_path: Option<String>) -> (r: DownloadConfig)
    ensures
        r.save_path == (match save_path {
            Some(p) => p,
            None => config.save_path,
        }),
        r.concurrent_connections == config.concurrent_connections,
        r.chunk_size == config.chunk_size,
        r.quality == config.quality,
        r.max_retry == config.max_retry,
        r.timeout == config.timeout,
{
    let mut c = config;
    if let Some(p) = save_path {
        c.save_path = p;
    }
    c
}

/// The download request for `video` with the streams of `play`.
pub fn download_request(video: VideoToDownload, play: PlayUrlResult, config: DownloadConfig) -> (r:
    StartDownloadRequest)
    ensures
        r.bvid == video.bvid,
        r.cid == video.cid,
        r.title == video.title,
        r.part_title == video.part_title,
        r.video_url == play.video_url,
        r.audio_url == play.audio_url,
        r.config == config,
        r.collection_type is None,
        r.collection_title is None,
{
    StartDownloadRequest {
        bvid: video.bvid,
        cid: video.cid,
        title: video.title,
        part_title: video.part_title,
        video_url: play.video_url,
        audio_url: play.audio_url,
        config,
        collection_type: None,
        collection_title: None,
    }
}

/// The message that reports how many downloads were queued.
pub open spec fn download_summary_text(count: nat) -> Seq<char> {
    "已添加 "@ + decimal(count) + " 个下载任务"@
}

/// The message that reports `count` queued downloads.
pub fn download_summary(count: usize) -> (s: String)
    ensures
        s@ == download_summary_text(count as nat),
{
    let mut s = to_owned_string("已添加 ");
    push_decimal(&mut s, count as u128);
    push_str(&mut s, " 个下载任务");
    s
}

// ---------------------------------------------------------------------------
// The SESSDATA login token
// ---------------------------------------------------------------------------

/// The pattern that finds a `sessdata` query parameter, in any case.
pub open spec fn sessdata_pattern() -> Seq<char> {
    "(?i)(?:[?&]|^)sessdata=([^&#]+)"@
}

/// A `Set-Cookie` value that sets the login token.
pub open spec fn is_sessdata_cookie(cookie: Seq<char>) -> bool {
    starts_with_seq(cookie, "SESSDATA="@) || starts_with_seq(cookie, "sessdata="@)
}

/// The token in such a value: the part before the first `;`, without the
/// leading `SESSDATA=` and then `sessdata=` repetitions.
pub open spec fn cookie_token(cookie: Seq<char>) -> Seq<char> {
    strip_prefix_all(strip_prefix_all(split_char(cookie, ';')[0], "SESSDATA="@), "sessdata="@)
}

/// The token of the first `Set-Cookie` value that sets it.
pub open spec fn set_cookie_token(cookies: Seq<Seq<char>>) -> Option<Seq<char>>
    decreases cookies.len(),
{
    if cookies.len() == 0 {
        None
    } else if is_sessdata_cookie(cookies[0]) {
        Some(cookie_token(cookies[0]))
    } else {
        set_cookie_token(cookies.drop_first())
    }
}

/// Searching up to `rounds` further percent-decodings of `text` for the
/// token; the search stops where decoding fails or changes nothing.
pub open spec fn decode_search(text: Seq<char>, rounds: nat) -> Option<Seq<char>>
    decreases rounds,
{
    if rounds == 0 {
        None
    } else {
        match url_decoded(text) {
            None => None,
            Some(next) => if next == text {
                None
            } else {
                match regex_capture(sessdata_pattern(), next, 1) {
                    Some(t) => Some(t),
                    None => decode_search(next, (rounds - 1) as nat),
                }
            },
        }
    }
}

/// The token in a login address: in the address itself, else in up to two
/// percent-decodings of it.
pub open spec fn url_token(url: Seq<char>) -> Option<Seq<char>> {
    match regex_capture(sessdata_pattern(), url, 1) {
        Some(t) => Some(t),
        None => decode_search(url, 2),
    }
}

/// The token of the `sessdata` query parameter in `text`.
pub fn find_sessdata_in_text(text: &str) -> (r: Option<String>)
    ensures
        opt_view(r) == regex_capture(sessdata_pattern(), text@, 1),
{
    capture_group("(?i)(?:[?&]|^)sessdata=([^&#]+)", text, 1)
}

/// The token set by the first `Set-Cookie` value that sets it.
pub fn sessdata_from_set_cookies(cookies: &Vec<String>) -> (r: Option<String>)
    ensures
        opt_view(r) == set_cookie_token(strings_view(cookies@)),
{
    let ghost all = strings_view(cookies@);
    let mut i: usize = 0;
    assert(all.subrange(0, all.len() as int) =~= all);
    while i < cookies.len()
        invariant
            i <= cookies.len(),
            all == strings_view(cookies@),
            set_cookie_token(all) == set_cookie_token(all.subrange(i as int, all.len() as int)),
        decreases cookies.len() - i,
    {
        let c = &cookies[i];
        let ghost rest = all.subrange(i as int, all.len() as int);
        assert(rest[0] == c@);
        assert(rest.drop_first() =~= all.subrange(i + 1, all.len() as int));
        if starts_with(c.as_str(), "SESSDATA=") || starts_with(c.as_str(), "sessdata=") {
            let pieces = split_char_exec(c.as_str(), ';');
            assert(pieces@[0]@ == split_char(c@, ';')[0]);
            let a = trim_start_matches_str(pieces[0].as_str(), "SESSDATA=");
            let b = trim_start_matches_str(a.as_str(), "sessdata=");
            return Some(b);
        }
        i = i + 1;
    }
    None
}

/// The token in a login address: in the address itself, else in up to two
/// successive percent-decodings of it.
pub fn sessdata_from_url(url: &str) -> (r: Option<String>)
    ensures
        opt_view(r) == url_token(url@),
{
    if let Some(t) = find_sessdata_in_text(url) {
        return Some(t);
    }
    let mut decoded = to_owned_string(url);
    let mut round: usize = 0;
    while round < 2
        invariant
            round <= 2,
            url_token(url@) == decode_search(decoded@, (2 - round) as nat),
        decreases 2 - round,
    {
        let next = match url_decode(decoded.as_str()) {
            Some(n) => n,
            None => {
                return None;
            },
        };
        if str_eq(next.as_str(), decoded.as_str()) {
            return None;
        }
        if let Some(t) = find_sessdata_in_text(next.as_str()) {
            return Some(t);
        }
        decoded = next;
        round = round + 1;
    }
    None
}

/// The login token after a successful QR login: from the `Set-Cookie` values
/// of the login address's answer, else from the address itself.
pub fn extract_sessdata(set_cookies: &Vec<String>, url: &str) -> (r: Option<String>)
    ensures
        opt_view(r) == (match set_cookie_token(strings_view(set_cookies@)) {
            Some(t) => Some(t),
            None => url_token(url@),
        }),
{
    match sessdata_from_set_cookies(set_cookies) {
        Some(t) => Some(t),
        None => sessdata_from_url(url),
    }
}

/// The login token kept in the token file: its trimmed content, unless that
/// is empty; `content` is `None` where the file cannot be read.
pub fn stored_sessdata(content: Option<&str>) -> (r: Option<String>)
    ensures
        opt_view(r) == (match content {
            Some(c) => if trim_seq(c@).len() > 0 {
                Some(trim_seq(c@))
            } else {
                None
            },
            None => None,
        }),
{
    match content {
        Some(c) => {
            let t = trim(c);
            if t.as_str().is_empty() {
                None
            } else {
                Some(t)
            }
        },
        None => None,
    }
}

} // verus!
