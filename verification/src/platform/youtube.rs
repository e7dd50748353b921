//! YouTube through `yt-dlp`: the command lines the client runs and how it
//! reads what `yt-dlp` prints.

use vstd::prelude::*;
use super::{Platform, PlatformError, VideoInfo, StreamUrls, CookiesStatus};
use crate::text::{
    trim, trim_seq, str_eq, str_contains, starts_with, starts_with_seq, contains_seq, lowercase,
    to_lowercase, to_owned_string, concat, chars_of, split_char, split_char_exec, strings_view, occurs_at,
};
use crate::fmt::{parse_u64_spec, parse_u64_chars, int_decimal, i32_to_string};
use crate::pattern::{
    capture_group, regex_capture, youtube_id_in_text, is_id_char, class_run, alt_at, lemma_class_run_exact,
    lemma_leftmost_at,
};

verus! {

/// The pattern that finds the video id in a watch URL or a short link.
pub open spec fn youtube_url_pattern() -> Seq<char> {
    "(?:youtube\\.com/watch\\?v=|youtu\\.be/)([a-zA-Z0-9_-]+)"@
}

/// No match of the watch or short-link form starts at `k`.
pub open spec fn no_id_link_at(url: Seq<char>, k: int) -> bool {
    &&& !(occurs_at(url, "youtube.com/watch?v="@, k) && k + 20 < url.len() && is_id_char(url[k + 20]))
    &&& !(occurs_at(url, "youtu.be/"@, k) && k + 9 < url.len() && is_id_char(url[k + 9]))
}

/// Law: a watch URL or short link gives its video id whatever comes before
/// `youtube.com` or `youtu.be` (any host, scheme or path). Where the first
/// `youtube.com/watch?v=` or `youtu.be/` is at `i`, followed by id
/// characters up to `e` (the end of the URL or another character), the id
/// is those characters; `extract_video_id` returns it.
pub proof fn lemma_youtube_id_read_anywhere(url: Seq<char>, link: Seq<char>, i: int, e: int)
    requires
        link == "youtube.com/watch?v="@ || link == "youtu.be/"@,
        occurs_at(url, link, i),
        i + link.len() < e <= url.len(),
        forall|m: int| i + link.len() <= m < e ==> is_id_char(#[trigger] url[m]),
        e == url.len() || !is_id_char(url[e]),
        forall|k: int| 0 <= k < i ==> #[trigger] no_id_link_at(url, k),
    ensures
        youtube_id_in_text(url) == Some(url.subrange(i + link.len(), e)),
{
    reveal_strlit("youtube.com/watch?v=");
    reveal_strlit("youtu.be/");
    let w = "youtube.com/watch?v="@;
    let b = "youtu.be/"@;
    let alts = seq![w, b];
    let cls = |c: char| is_id_char(c);
    assert(w.len() == 20 && b.len() == 9);
    assert(alts[0] == w && alts[1] == b);
    lemma_class_run_exact(url, i + link.len(), e, cls);
    assert forall|k2: int| 0 <= k2 < i implies #[trigger] alt_at(url, alts, cls, k2, 0) is None by {
        assert(no_id_link_at(url, k2));
        if occurs_at(url, w, k2) && class_run(url, k2 + 20, cls) > 0 {
            assert(k2 + 20 < url.len() && cls(url[k2 + 20]));
        }
        if occurs_at(url, b, k2) && class_run(url, k2 + 9, cls) > 0 {
            assert(k2 + 9 < url.len() && cls(url[k2 + 9]));
        }
        assert(alt_at(url, alts, cls, k2, 2) is None);
        assert(alt_at(url, alts, cls, k2, 1) is None);
    }
    if link == w {
        assert(alt_at(url, alts, cls, i, 0) == Some(0int));
        lemma_leftmost_at(url, alts, cls, 0, i, 0);
    } else {
        if occurs_at(url, w, i) {
            assert(url.subrange(i, i + 20)[5] == url[i + 5]);
            assert(url.subrange(i, i + 9)[5] == url[i + 5]);
            assert(w[5] != b[5]);
        }
        assert(alt_at(url, alts, cls, i, 1) == Some(1int));
        assert(alt_at(url, alts, cls, i, 0) == Some(1int));
        lemma_leftmost_at(url, alts, cls, 0, i, 1);
    }
}

/// The `yt-dlp` print template of the video facts: title, channel,
/// duration and thumbnail, separated by `|`.
pub open spec fn info_template() -> Seq<char> {
    "%(title)s|%(channel)s|%(duration)s|%(thumbnail)s"@
}

/// The `yt-dlp` format selector: H.264 video with AAC audio where offered,
/// then any H.264 video with the best audio, then the best MP4, then the best.
pub open spec fn format_selector() -> Seq<char> {
    "bestvideo[vcodec~='h264'][ext=mp4]+bestaudio[ext=m4a]/bestvideo[vcodec~='h264']+bestaudio/best[ext=mp4]/best"@
}

/// The public video whose title the cookie probe asks for.
pub open spec fn probe_video_url() -> Seq<char> {
    "https://www.youtube.com/watch?v=dQw4w9WgXcQ"@
}

/// The quality that stream requests for YouTube ask for.
pub const PREFERRED_QUALITY: i32 = 120;

/// A YouTube client; `cookies_path` is the cookie file handed to `yt-dlp`.
#[derive(Debug, Clone)]
pub struct YouTubeClient {
    pub cookies_path: Option<String>,
}

/// What reading the cookie file decides: a status, or that `yt-dlp` must be
/// asked whether the cookies still work.
#[derive(Debug, Clone, Copy, PartialEq, Eq, Structural)]
pub enum CookieFileVerdict {
    Settled(CookiesStatus),
    Probe,
}

/// The error that starting `yt-dlp --version` failed with: `yt-dlp` is
/// missing when the message, lowercased, says `not found` or `no such file`.
pub open spec fn check_error_is_missing(message: Seq<char>) -> bool {
    contains_seq(lowercase(message), "not found"@) || contains_seq(lowercase(message), "no such file"@)
}

/// What `yt-dlp` answered, when it succeeded: its trimmed standard output,
/// else its trimmed standard error, else nothing.
pub open spec fn answer_text(stdout: Seq<char>, stderr: Seq<char>) -> Seq<char> {
    if trim_seq(stdout).len() > 0 {
        trim_seq(stdout)
    } else if trim_seq(stderr).len() > 0 {
        trim_seq(stderr)
    } else {
        Seq::<char>::empty()
    }
}

/// The number a duration field spells, 0 where it spells none.
pub open spec fn duration_field(s: Seq<char>) -> nat {
    match parse_u64_spec(s) {
        Some(v) => v as nat,
        None => 0,
    }
}

/// Seconds in a duration written `H:M:S`, `M:S` or `S`; 0 for more fields.
pub open spec fn duration_seconds(s: Seq<char>) -> nat {
    let p = split_char(s, ':');
    if p.len() == 3 {
        duration_field(p[0]) * 3600 + duration_field(p[1]) * 60 + duration_field(p[2])
    } else if p.len() == 2 {
        duration_field(p[0]) * 60 + duration_field(p[1])
    } else if p.len() == 1 {
        duration_field(p[0])
    } else {
        0
    }
}

/// The fields `yt-dlp` printed with `info_template`.
pub open spec fn info_fields(output: Seq<char>) -> Seq<Seq<char>> {
    split_char(output, '|')
}

/// The duration field, when present, fits in a `u64`.
pub open spec fn info_duration_fits(output: Seq<char>) -> bool {
    let p = info_fields(output);
    p.len() >= 4 && p[2].len() > 0 ==> duration_seconds(p[2]) <= u64::MAX
}

/// `info` is the video `video_id` as described by the fields in `output`.
pub open spec fn info_from_fields(info: VideoInfo, video_id: Seq<char>, output: Seq<char>) -> bool {
    let p = info_fields(output);
    &&& info.platform == Platform::YouTube
    &&& info.video_id@ == video_id
    &&& info.title@ == p[0]
    &&& info.author@ == p[1]
    &&& info.duration == (if p[2].len() == 0 {
        None
    } else {
        Some(duration_seconds(p[2]) as u64)
    })
    &&& info.description is None
    &&& info.thumbnail matches Some(t) && t@ == p[3]
}

/// A line of `--get-url` output that carries a URL.
pub open spec fn stream_line_ok(line: Seq<char>) -> bool {
    trim_seq(line).len() > 0 && trim_seq(line) != "NA"@
}

/// The usable lines among `lines`, trimmed, in order.
pub open spec fn stream_lines(lines: Seq<Seq<char>>) -> Seq<Seq<char>>
    decreases lines.len(),
{
    if lines.len() == 0 {
        Seq::<Seq<char>>::empty()
    } else {
        let rest = stream_lines(lines.drop_last());
        if stream_line_ok(lines.last()) {
            rest.push(trim_seq(lines.last()))
        } else {
            rest
        }
    }
}

/// A line of a Netscape cookie file that holds a cookie: trimmed, it is not
/// empty, not a `#` comment, and has at least seven tab-separated fields.
pub open spec fn cookie_entry_line(line: Seq<char>) -> bool {
    let t = trim_seq(line);
    t.len() > 0 && !starts_with_seq(t, "#"@) && split_char(t, '\t').len() >= 7
}

/// The lines of the trimmed cookie file content.
pub open spec fn cookie_lines(content: Seq<char>) -> Seq<Seq<char>> {
    split_char(trim_seq(content), '\n')
}

/// Some line of the content holds a cookie.
pub open spec fn has_cookie_entry(content: Seq<char>) -> bool {
    exists|i: int| 0 <= i < cookie_lines(content).len() && cookie_entry_line(#[trigger] cookie_lines(content)[i])
}

/// What the cookie file's content decides; `None` where there is no file.
pub open spec fn cookie_file_verdict_spec(content: Option<Seq<char>>) -> CookieFileVerdict {
    match content {
        None => CookieFileVerdict::Settled(CookiesStatus::NotFound),
        Some(c) => if trim_seq(c).len() == 0 || !has_cookie_entry(c) {
            CookieFileVerdict::Settled(CookiesStatus::Invalid)
        } else {
            CookieFileVerdict::Probe
        },
    }
}

/// The owned copies of `items`.
fn owned_strings(items: &[&str]) -> (r: Vec<String>)
    ensures
        r@.len() == items@.len(),
        forall|i: int| 0 <= i < items@.len() ==> (#[trigger] r@[i])@ == items@[i]@,
{
    let mut r: Vec<String> = Vec::new();
    let mut i: usize = 0;
    while i < items.len()
        invariant
            i <= items@.len(),
            r@.len() == i,
            forall|k: int| 0 <= k < i ==> (#[trigger] r@[k])@ == items@[k]@,
        decreases items@.len() - i,
    {
        r.push(to_owned_string(items[i]));
        i = i + 1;
    }
    r
}

/// The number in a duration field, 0 where it spells none.
fn field_value(p: &String) -> (v: u64)
    ensures
        v == duration_field(p@),
{
    let cs = chars_of(p.as_str());
    assert(cs@.subrange(0, cs@.len() as int) =~= p@);
    match parse_u64_chars(&cs, 0, cs.len()) {
        Some(v) => v,
        None => 0,
    }
}

/// The seconds of a duration, computed wide enough never to overflow.
fn duration_wide(s: &str) -> (r: u128)
    ensures
        r == duration_seconds(s@),
{
    let parts = split_char_exec(s, ':');
    let ghost p = split_char(s@, ':');
    assert(strings_view(parts@) == p);
    if parts.len() == 3 {
        assert(parts@[0]@ == p[0] && parts@[1]@ == p[1] && parts@[2]@ == p[2]);
        let h = field_value(&parts[0]) as u128;
        let m = field_value(&parts[1]) as u128;
        let x = field_value(&parts[2]) as u128;
        h * 3600 + m * 60 + x
    } else if parts.len() == 2 {
        assert(parts@[0]@ == p[0] && parts@[1]@ == p[1]);
        let m = field_value(&parts[0]) as u128;
        let x = field_value(&parts[1]) as u128;
        m * 60 + x
    } else if parts.len() == 1 {
        assert(parts@[0]@ == p[0]);
        field_value(&parts[0]) as u128
    } else {
        0
    }
}

/// Whether the duration field of `yt-dlp`'s video facts, when there is one,
/// fits in a `u64` (what `parse_youtube_url` needs).
pub fn info_output_fits(output: &str) -> (b: bool)
    ensures
        b == info_duration_fits(output@),
{
    let parts = split_char_exec(output, '|');
    let ghost p = info_fields(output@);
    assert(strings_view(parts@) == p);
    if parts.len() >= 4 && !parts[2].as_str().is_empty() {
        assert(parts@[2]@ == p[2]);
        duration_wide(parts[2].as_str()) <= u64::MAX as u128
    } else {
        true
    }
}

impl YouTubeClient {
    /// A client that hands `yt-dlp` the cookie file `cookies_path`, if any.
    pub fn new(cookies_path: Option<String>) -> (c: Self)
        ensures
            c.cookies_path == cookies_path,
    {
        YouTubeClient { cookies_path }
    }

    /// The client, with the cookie file `cookies_path`.
    pub fn with_cookies(self, cookies_path: String) -> (c: Self)
        ensures
            c.cookies_path == Some(cookies_path),
    {
        YouTubeClient { cookies_path: Some(cookies_path) }
    }

    /// The error for a failed start of `yt-dlp --version`, from the system's
    /// message.
    pub fn yt_dlp_check_error(message: &str) -> (e: PlatformError)
        ensures
            check_error_is_missing(message@) ==> e matches PlatformError::YtDlpMissing,
            !check_error_is_missing(message@) ==> (e matches PlatformError::YtDlpCheckFailed {
                message: m,
            } && m@ == message@),
    {
        let lower = to_lowercase(message);
        if str_contains(lower.as_str(), "not found") || str_contains(lower.as_str(), "no such file") {
            PlatformError::YtDlpMissing
        } else {
            PlatformError::YtDlpCheckFailed { message: to_owned_string(message) }
        }
    }

    /// The arguments of a `yt-dlp` run: `--cookies <file>` first when the
    /// client has a cookie file and it exists, then `args`.
    pub fn yt_dlp_args(&self, cookies_file_exists: bool, args: &Vec<String>) -> (r: Vec<String>)
        ensures
            strings_view(r@) == (match self.cookies_path {
                Some(p) => if cookies_file_exists {
                    seq!["--cookies"@, p@] + strings_view(args@)
                } else {
                    strings_view(args@)
                },
                None => strings_view(args@),
            }),
    {
        let mut r: Vec<String> = Vec::new();
        if let Some(p) = &self.cookies_path {
            if cookies_file_exists {
                r.push(to_owned_string("--cookies"));
                r.push(p.clone());
            }
        }
        let ghost prefix = strings_view(r@);
        let mut i: usize = 0;
        while i < args.len()
            invariant
                i <= args.len(),
                strings_view(r@) == prefix + strings_view(args@).take(i as int),
            decreases args.len() - i,
        {
            let ghost before = r@;
            r.push(args[i].clone());
            assert(strings_view(r@) =~= strings_view(before).push(args@[i as int]@));
            assert(strings_view(args@).take(i as int + 1) =~= strings_view(args@).take(
                i as int,
            ).push(args@[i as int]@));
            i = i + 1;
        }
        assert(strings_view(args@).take(args@.len() as int) =~= strings_view(args@));
        assert(strings_view(r@) =~= (match self.cookies_path {
            Some(p) => if cookies_file_exists {
                seq!["--cookies"@, p@] + strings_view(args@)
            } else {
                strings_view(args@)
            },
            None => strings_view(args@),
        }));
        r
    }

    /// What a finished `yt-dlp` run yields: its answer when it succeeded,
    /// else its standard error as the failure.
    pub fn yt_dlp_output(success: bool, stdout: &str, stderr: &str) -> (r: Result<String, PlatformError>)
        ensures
            success ==> (r matches Ok(s) && s@ == answer_text(stdout@, stderr@)),
            !success ==> (r matches Err(PlatformError::YtDlpFailed { stderr: e }) && e@ == stderr@),
    {
        if !success {
            return Err(PlatformError::YtDlpFailed { stderr: to_owned_string(stderr) });
        }
        let out = trim(stdout);
        if !out.as_str().is_empty() {
            return Ok(out);
        }
        let err = trim(stderr);
        if !err.as_str().is_empty() {
            return Ok(err);
        }
        Ok(String::new())
    }

    /// Arguments that print the facts of the video at `url`.
    pub fn video_info_args(url: &str) -> (r: Vec<String>)
        ensures
            strings_view(r@) == seq!["--print"@, info_template(), url@],
    {
        let r = owned_strings(&["--print", "%(title)s|%(channel)s|%(duration)s|%(thumbnail)s", url]);
        assert(strings_view(r@) =~= seq!["--print"@, info_template(), url@]);
        r
    }

    /// Arguments that print the stream URLs of the video at `url`.
    pub fn stream_url_args(url: &str) -> (r: Vec<String>)
        ensures
            strings_view(r@) == seq!["--format"@, format_selector(), "--get-url"@, url@],
    {
        let r = owned_strings(
            &[
                "--format",
                "bestvideo[vcodec~='h264'][ext=mp4]+bestaudio[ext=m4a]/bestvideo[vcodec~='h264']+bestaudio/best[ext=mp4]/best",
                "--get-url",
                url,
            ],
        );
        assert(strings_view(r@) =~= seq!["--format"@, format_selector(), "--get-url"@, url@]);
        r
    }

    /// Arguments that ask, with the cookie file copy `cookies_copy`, for the
    /// title of a public video.
    pub fn cookie_probe_args(cookies_copy: &str) -> (r: Vec<String>)
        ensures
            strings_view(r@) == seq![
                "--cookies"@,
                cookies_copy@,
                "--print"@,
                "%(title)s"@,
                probe_video_url(),
            ],
    {
        let r = owned_strings(
            &[
                "--cookies",
                cookies_copy,
                "--print",
                "%(title)s",
                "https://www.youtube.com/watch?v=dQw4w9WgXcQ",
            ],
        );
        assert(strings_view(r@) =~= seq![
            "--cookies"@,
            cookies_copy@,
            "--print"@,
            "%(title)s"@,
            probe_video_url(),
        ]);
        r
    }

    /// The watch page of a video.
    pub fn watch_url(video_id: &str) -> (r: String)
        ensures
            r@ == "https://www.youtube.com/watch?v="@ + video_id@,
    {
        concat("https://www.youtube.com/watch?v=", video_id)
    }

    /// The video id in a watch URL or a short link.
    pub fn extract_video_id(&self, url: &str) -> (r: Result<String, PlatformError>)
        ensures
            match regex_capture(youtube_url_pattern(), url@, 1) {
                Some(id) => r matches Ok(s) && s@ == id,
                None => r matches Err(PlatformError::UnrecognizedYouTubeUrl { url: u }) && u@
                    == url@,
            },
            match youtube_id_in_text(url@) {
                Some(id) => r matches Ok(s) && s@ == id,
                None => r is Err,
            },
    {
        match capture_group("(?:youtube\\.com/watch\\?v=|youtu\\.be/)([a-zA-Z0-9_-]+)", url, 1) {
            Some(id) => Ok(id),
            None => Err(PlatformError::UnrecognizedYouTubeUrl { url: to_owned_string(url) }),
        }
    }

    /// Seconds in a duration written `H:M:S`, `M:S` or `S`; a field that is
    /// no number counts 0, and a duration of more fields is 0.
    pub fn parse_duration(duration_str: &str) -> (r: Result<u64, PlatformError>)
        requires
            duration_seconds(duration_str@) <= u64::MAX,
        ensures
            r == Ok::<u64, PlatformError>(duration_seconds(duration_str@) as u64),
    {
        let parts = split_char_exec(duration_str, ':');
        let ghost p = split_char(duration_str@, ':');
        assert(strings_view(parts@) == p);
        let seconds: u64 = if parts.len() == 3 {
            assert(parts@[0]@ == p[0] && parts@[1]@ == p[1] && parts@[2]@ == p[2]);
            let h = field_value(&parts[0]);
            let m = field_value(&parts[1]);
            let s = field_value(&parts[2]);
            h * 3600 + m * 60 + s
        } else if parts.len() == 2 {
            assert(parts@[0]@ == p[0] && parts@[1]@ == p[1]);
            let m = field_value(&parts[0]);
            let s = field_value(&parts[1]);
            m * 60 + s
        } else if parts.len() == 1 {
            assert(parts@[0]@ == p[0]);
            field_value(&parts[0])
        } else {
            0
        };
        Ok(seconds)
    }

    /// The video `video_id` as described by the `info_template` fields that
    /// `yt-dlp` printed.
    pub fn video_info_from_output(video_id: String, output: &str) -> (r: Result<VideoInfo, PlatformError>)
        requires
            info_duration_fits(output@),
        ensures
            info_fields(output@).len() < 4 ==> r matches Err(PlatformError::MalformedVideoInfo),
            info_fields(output@).len() >= 4 ==> (r matches Ok(info) && info_from_fields(
                info,
                video_id@,
                output@,
            )),
    {
        let parts = split_char_exec(output, '|');
        let ghost p = info_fields(output@);
        assert(strings_view(parts@) == p);
        if parts.len() < 4 {
            return Err(PlatformError::MalformedVideoInfo);
        }
        assert(parts@[0]@ == p[0] && parts@[1]@ == p[1] && parts@[2]@ == p[2] && parts@[3]@ == p[3]);
        let title = parts[0].clone();
        let author = parts[1].clone();
        let duration = if parts[2].as_str().is_empty() {
            None
        } else {
            match Self::parse_duration(parts[2].as_str()) {
                Ok(d) => Some(d),
                Err(e) => {
                    return Err(e);
                },
            }
        };
        let thumbnail = parts[3].clone();
        Ok(VideoInfo {
            platform: Platform::YouTube,
            video_id,
            title,
            author,
            duration,
            description: None,
            thumbnail: Some(thumbnail),
        })
    }

    /// The video at `url`, from the facts `yt-dlp` printed for it.
    pub fn parse_youtube_url(&self, url: &str, output: &str) -> (r: Result<VideoInfo, PlatformError>)
        requires
            info_duration_fits(output@),
        ensures
            match regex_capture(youtube_url_pattern(), url@, 1) {
                None => r matches Err(PlatformError::UnrecognizedYouTubeUrl { url: u }) && u@ == url@,
                Some(id) => {
                    &&& info_fields(output@).len() < 4 ==> (r matches Err(
                        PlatformError::MalformedVideoInfo,
                    ))
                    &&& info_fields(output@).len() >= 4 ==> (r matches Ok(info) && info_from_fields(
                        info,
                        id,
                        output@,
                    ))
                },
            },
    {
        let video_id = match self.extract_video_id(url) {
            Ok(id) => id,
            Err(e) => {
                return Err(e);
            },
        };
        Self::video_info_from_output(video_id, output)
    }

    /// The stream URLs in the `--get-url` output of `yt-dlp`: the first usable
    /// line is the video, the second the audio; a single line serves both.
    pub fn get_stream_urls_impl(&self, output: &str, quality: i32) -> (r: Result<StreamUrls, PlatformError>)
        ensures
            output@.len() == 0 ==> r matches Err(PlatformError::EmptyStreamResponse),
            output@.len() > 0 ==> {
                let v = stream_lines(split_char(output@, '\n'));
                &&& v.len() == 0 ==> (r matches Err(PlatformError::NoValidStreamUrl))
                &&& v.len() > 0 ==> (r matches Ok(u) && u.video_url@ == v[0] && u.audio_url@ == (if v.len()
                    >= 2 {
                    v[1]
                } else {
                    v[0]
                }) && u.video_quality@ == int_decimal(quality as int) && u.audio_quality@
                    == "audio"@)
            },
    {
        if output.is_empty() {
            return Err(PlatformError::EmptyStreamResponse);
        }
        let lines = split_char_exec(output, '\n');
        let ghost l = split_char(output@, '\n');
        let mut valid: Vec<String> = Vec::new();
        let mut i: usize = 0;
        assert(l.take(0) =~= Seq::<Seq<char>>::empty());
        assert(strings_view(valid@) =~= stream_lines(l.take(0)));
        while i < lines.len()
            invariant
                i <= lines.len(),
                strings_view(lines@) == l,
                strings_view(valid@) == stream_lines(l.take(i as int)),
            decreases lines.len() - i,
        {
            let t = trim(lines[i].as_str());
            let ghost before = valid@;
            assert(l.take(i as int + 1).drop_last() =~= l.take(i as int));
            assert(l.take(i as int + 1).last() == lines@[i as int]@);
            if !t.as_str().is_empty() && !str_eq(t.as_str(), "NA") {
                valid.push(t);
                assert(strings_view(valid@) =~= strings_view(before).push(valid@[valid@.len() - 1]@));
            }
            i = i + 1;
        }
        assert(l.take(l.len() as int) =~= l);
        if valid.len() == 0 {
            return Err(PlatformError::NoValidStreamUrl);
        }
        assert(valid@[0]@ == strings_view(valid@)[0]);
        let video_url = valid[0].clone();
        let audio_url = if valid.len() >= 2 {
            assert(valid@[1]@ == strings_view(valid@)[1]);
            valid[1].clone()
        } else {
            valid[0].clone()
        };
        Ok(
            StreamUrls {
                video_url,
                audio_url,
                video_quality: i32_to_string(quality),
                audio_quality: to_owned_string("audio"),
            },
        )
    }

    /// What the content of the cookie file decides; `None` where the file
    /// does not exist.
    pub fn cookie_file_verdict(content: Option<&str>) -> (v: CookieFileVerdict)
        ensures
            v == cookie_file_verdict_spec(
                match content {
                    Some(c) => Some(c@),
                    None => None,
                },
            ),
    {
        let c = match content {
            None => {
                return CookieFileVerdict::Settled(CookiesStatus::NotFound);
            },
            Some(c) => c,
        };
        let trimmed = trim(c);
        if trimmed.as_str().is_empty() {
            return CookieFileVerdict::Settled(CookiesStatus::Invalid);
        }
        assert(trim_seq(c@).len() > 0);
        let lines = split_char_exec(trimmed.as_str(), '\n');
        let ghost l = cookie_lines(c@);
        let mut i: usize = 0;
        while i < lines.len()
            invariant
                i <= lines.len(),
                strings_view(lines@) == l,
                l == cookie_lines(c@),
                content == Some(c),
                trim_seq(c@).len() > 0,
                forall|k: int| 0 <= k < i ==> !cookie_entry_line(#[trigger] l[k]),
            decreases lines.len() - i,
        {
            let t = trim(lines[i].as_str());
            assert(l[i as int] == lines@[i as int]@);
            if !t.as_str().is_empty() && !starts_with(t.as_str(), "#") {
                let fields = split_char_exec(t.as_str(), '\t');
                if fields.len() >= 7 {
                    assert(cookie_entry_line(cookie_lines(c@)[i as int]));
                    assert(has_cookie_entry(c@));
                    assert(cookie_file_verdict_spec(Some(c@)) == CookieFileVerdict::Probe);
                    return CookieFileVerdict::Probe;
                }
            }
            i = i + 1;
        }
        assert(!has_cookie_entry(c@));
        CookieFileVerdict::Settled(CookiesStatus::Invalid)
    }

    /// The cookie status from the probe run: valid when `yt-dlp` printed a
    /// title, expired when it printed nothing or failed.
    pub fn cookie_probe_status(probe: &Result<String, PlatformError>) -> (s: CookiesStatus)
        ensures
            s == (match probe {
                Ok(t) => if trim_seq(t@).len() > 0 {
                    CookiesStatus::Valid
                } else {
                    CookiesStatus::Expired
                },
                Err(_) => CookiesStatus::Expired,
            }),
    {
        match probe {
            Ok(t) => {
                let tt = trim(t.as_str());
                if !tt.as_str().is_empty() {
                    CookiesStatus::Valid
                } else {
                    CookiesStatus::Expired
                }
            },
            Err(_) => CookiesStatus::Expired,
        }
    }
}

} // verus!
