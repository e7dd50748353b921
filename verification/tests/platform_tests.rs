use bilibili_downloader::bilibili::{PlayUrlResult, PlaylistResult, PlaylistVideo, VideoInfo as BiliVideoInfo, VideoPage};
use bilibili_downloader::platform::bilibili::BilibiliClientAdapter;
use bilibili_downloader::platform::youtube::{CookieFileVerdict, YouTubeClient, PREFERRED_QUALITY};
use bilibili_downloader::platform::{CookiesStatus, Platform, PlatformError};

fn yt() -> YouTubeClient {
    YouTubeClient::new(None)
}

#[test]
fn platform_detection() {
    assert_eq!(Platform::from_url("https://www.YouTube.com/watch?v=x").unwrap(), Platform::YouTube);
    assert_eq!(Platform::from_url("https://youtu.be/abc").unwrap(), Platform::YouTube);
    assert_eq!(Platform::from_url("https://www.BILIBILI.com/video/BV1").unwrap(), Platform::Bilibili);
    match Platform::from_url("https://example.com/v") {
        Err(PlatformError::UnsupportedPlatform { url }) => assert_eq!(url, "https://example.com/v"),
        other => panic!("unexpected {:?}", other),
    }
    assert_eq!(Platform::Bilibili.name(), "bilibili");
    assert_eq!(Platform::YouTube.name(), "youtube");
}

#[test]
fn youtube_video_ids() {
    let c = yt();
    assert_eq!(c.extract_video_id("https://www.youtube.com/watch?v=dQw4w9WgXcQ&t=1").unwrap(), "dQw4w9WgXcQ");
    assert_eq!(c.extract_video_id("https://youtu.be/abc-_1?si=x").unwrap(), "abc-_1");
    assert!(matches!(
        c.extract_video_id("https://vimeo.com/1"),
        Err(PlatformError::UnrecognizedYouTubeUrl { .. })
    ));
}

#[test]
fn youtube_durations() {
    assert_eq!(YouTubeClient::parse_duration("1:02:03").unwrap(), 3723);
    assert_eq!(YouTubeClient::parse_duration("02:03").unwrap(), 123);
    assert_eq!(YouTubeClient::parse_duration("212").unwrap(), 212);
    assert_eq!(YouTubeClient::parse_duration("NA").unwrap(), 0);
    assert_eq!(YouTubeClient::parse_duration("a:5").unwrap(), 5);
    assert_eq!(YouTubeClient::parse_duration("1:2:3:4").unwrap(), 0);
}

#[test]
fn youtube_video_facts() {
    let c = yt();
    let info = c.parse_youtube_url("https://youtu.be/xyz", "Title|Chan|212|http://t.jpg").unwrap();
    assert_eq!(info.platform, Platform::YouTube);
    assert_eq!(info.video_id, "xyz");
    assert_eq!(info.title, "Title");
    assert_eq!(info.author, "Chan");
    assert_eq!(info.duration, Some(212));
    assert_eq!(info.description, None);
    assert_eq!(info.thumbnail.as_deref(), Some("http://t.jpg"));
    let info = YouTubeClient::video_info_from_output("id".to_string(), "T|C||th|extra").unwrap();
    assert_eq!(info.duration, None);
    assert_eq!(info.thumbnail.as_deref(), Some("th"));
    assert!(matches!(
        YouTubeClient::video_info_from_output("id".to_string(), "a|b|c"),
        Err(PlatformError::MalformedVideoInfo)
    ));
    assert!(matches!(
        c.parse_youtube_url("https://example.com/x", "a|b|c|d"),
        Err(PlatformError::UnrecognizedYouTubeUrl { .. })
    ));
}

#[test]
fn youtube_stream_urls() {
    let c = yt();
    assert!(matches!(c.get_stream_urls_impl("", 120), Err(PlatformError::EmptyStreamResponse)));
    assert!(matches!(c.get_stream_urls_impl("NA\n  \n", 120), Err(PlatformError::NoValidStreamUrl)));
    let u = c.get_stream_urls_impl("https://v\nhttps://a\n", 120).unwrap();
    assert_eq!(u.video_url, "https://v");
    assert_eq!(u.audio_url, "https://a");
    assert_eq!(u.video_quality, "120");
    assert_eq!(u.audio_quality, "audio");
    let u = c.get_stream_urls_impl("NA\n  https://both  \r\n", -1).unwrap();
    assert_eq!(u.video_url, "https://both");
    assert_eq!(u.audio_url, "https://both");
    assert_eq!(u.video_quality, "-1");
}

#[test]
fn yt_dlp_runs() {
    assert_eq!(YouTubeClient::yt_dlp_output(true, "  out \n", "err").unwrap(), "out");
    assert_eq!(YouTubeClient::yt_dlp_output(true, "  ", " warn ").unwrap(), "warn");
    assert_eq!(YouTubeClient::yt_dlp_output(true, "", "").unwrap(), "");
    match YouTubeClient::yt_dlp_output(false, "x", "bad thing") {
        Err(PlatformError::YtDlpFailed { stderr }) => assert_eq!(stderr, "bad thing"),
        other => panic!("unexpected {:?}", other),
    }
    assert!(matches!(
        YouTubeClient::yt_dlp_check_error("No such file or directory (os error 2)"),
        PlatformError::YtDlpMissing
    ));
    match YouTubeClient::yt_dlp_check_error("Permission denied") {
        PlatformError::YtDlpCheckFailed { message } => assert_eq!(message, "Permission denied"),
        other => panic!("unexpected {:?}", other),
    }
}

#[test]
fn yt_dlp_arguments() {
    let with_cookies = YouTubeClient::new(None).with_cookies("/c.txt".to_string());
    assert_eq!(with_cookies.cookies_path.as_deref(), Some("/c.txt"));
    let args = vec!["--print".to_string(), "x".to_string()];
    assert_eq!(with_cookies.yt_dlp_args(true, &args), vec!["--cookies", "/c.txt", "--print", "x"]);
    assert_eq!(with_cookies.yt_dlp_args(false, &args), vec!["--print", "x"]);
    assert_eq!(yt().yt_dlp_args(true, &args), vec!["--print", "x"]);
    assert_eq!(
        YouTubeClient::video_info_args("u"),
        vec!["--print", "%(title)s|%(channel)s|%(duration)s|%(thumbnail)s", "u"]
    );
    let s = YouTubeClient::stream_url_args("u");
    assert_eq!(s.len(), 4);
    assert_eq!(s[0], "--format");
    assert!(s[1].starts_with("bestvideo[vcodec~='h264']"));
    assert_eq!(s[3], "u");
    assert_eq!(
        YouTubeClient::cookie_probe_args("/tmp/c"),
        vec!["--cookies", "/tmp/c", "--print", "%(title)s", "https://www.youtube.com/watch?v=dQw4w9WgXcQ"]
    );
    assert_eq!(YouTubeClient::watch_url("abc"), "https://www.youtube.com/watch?v=abc");
    assert_eq!(PREFERRED_QUALITY, 120);
}

#[test]
fn youtube_cookie_files() {
    assert_eq!(YouTubeClient::cookie_file_verdict(None), CookieFileVerdict::Settled(CookiesStatus::NotFound));
    assert_eq!(YouTubeClient::cookie_file_verdict(Some("  \n ")), CookieFileVerdict::Settled(CookiesStatus::Invalid));
    assert_eq!(
        YouTubeClient::cookie_file_verdict(Some("# Netscape HTTP Cookie File\n\n")),
        CookieFileVerdict::Settled(CookiesStatus::Invalid)
    );
    assert_eq!(
        YouTubeClient::cookie_file_verdict(Some("# x\n.youtube.com\tTRUE\t/\tTRUE\t0\tSID\tabc\n")),
        CookieFileVerdict::Probe
    );
    assert_eq!(
        YouTubeClient::cookie_file_verdict(Some(".youtube.com\tTRUE\t/\tTRUE\t0\tSID")),
        CookieFileVerdict::Settled(CookiesStatus::Invalid)
    );
    assert_eq!(YouTubeClient::cookie_probe_status(&Ok("Title".to_string())), CookiesStatus::Valid);
    assert_eq!(YouTubeClient::cookie_probe_status(&Ok("  ".to_string())), CookiesStatus::Expired);
    assert_eq!(YouTubeClient::cookie_probe_status(&Err(PlatformError::YtDlpMissing)), CookiesStatus::Expired);
}

#[test]
fn bilibili_adapter() {
    let a = BilibiliClientAdapter::new().unwrap();
    assert!(a.client.sessdata.is_none());
    let data = BiliVideoInfo {
        bvid: "BV1".to_string(),
        title: "T".to_string(),
        owner: "O".to_string(),
        cid: 1,
        pages: vec![
            VideoPage { page: 1, cid: 1, part: "a".to_string(), duration: 10 },
            VideoPage { page: 2, cid: 2, part: "b".to_string(), duration: 20 },
        ],
        intro: "I".to_string(),
    };
    let info = BilibiliClientAdapter::platform_video_info("BV1".to_string(), data);
    assert_eq!(info.platform, Platform::Bilibili);
    assert_eq!(info.duration, Some(30));
    assert_eq!(info.author, "O");
    assert_eq!(info.description.as_deref(), Some("I"));
    assert_eq!(info.thumbnail, None);

    let empty = PlaylistResult { kind: "single".to_string(), title: "T".to_string(), videos: vec![] };
    assert!(matches!(BilibiliClientAdapter::first_cid(&empty), Err(PlatformError::EmptyPlaylist)));
    let one = PlaylistResult {
        kind: "single".to_string(),
        title: "T".to_string(),
        videos: vec![PlaylistVideo { bvid: "BV1".to_string(), cid: 77, title: "T".to_string(), index: 1 }],
    };
    assert_eq!(BilibiliClientAdapter::first_cid(&one).unwrap(), 77);
    let play = PlayUrlResult {
        video_url: "v".to_string(),
        audio_url: "a".to_string(),
        video_quality: 64,
        video_size: 0,
        audio_size: 0,
    };
    let urls = BilibiliClientAdapter::stream_urls(play, 80);
    assert_eq!((urls.video_url.as_str(), urls.audio_url.as_str()), ("v", "a"));
    assert_eq!(urls.video_quality, "80");
    assert_eq!(urls.audio_quality, "audio");
    assert_eq!(BilibiliClientAdapter::sessdata_file_status(None), CookiesStatus::NotFound);
    assert_eq!(BilibiliClientAdapter::sessdata_file_status(Some(" \n")), CookiesStatus::Invalid);
    assert_eq!(BilibiliClientAdapter::sessdata_file_status(Some("abc")), CookiesStatus::Valid);
}

#[test]
fn platform_names_lead_back() {
    for p in [Platform::Bilibili, Platform::YouTube] {
        let url = format!("https://www.{}.com/", p.name());
        assert_eq!(Platform::from_url(&url).unwrap(), p);
    }
    assert_eq!(Platform::Bilibili.name(), "bilibili");
    assert_eq!(Platform::YouTube.name(), "youtube");
}
