use bilibili_downloader::bilibili::{PlayUrlResult, PlaylistResult, PlaylistVideo};
use bilibili_downloader::commands::{
    download_config, download_request, download_summary, extract_sessdata, find_sessdata_in_text,
    login_status_result, sessdata_from_set_cookies, sessdata_from_url, stored_sessdata, ParseUrlResult,
    QrcodeResult, VideoToDownload,
};
use bilibili_downloader::downloader::DownloadConfig;
use bilibili_downloader::login::{
    login_status_from_poll, poll_url, qrcode_from_reply, qrcode_generate_url, qrcode_image_url, LoginError,
    LoginStatus, PollReply, QrcodeResult as LoginQrcode,
};

fn reply(code: Option<i64>) -> PollReply {
    PollReply { code, url: Some("https://cb/?SESSDATA=t".to_string()), refresh_token: None }
}

#[test]
fn login_addresses() {
    assert_eq!(
        qrcode_generate_url(),
        "https://passport.bilibili.com/x/passport-login/web/qrcode/generate"
    );
    assert_eq!(
        poll_url("k1"),
        "https://passport.bilibili.com/x/passport-login/web/qrcode/poll?qrcode_key=k1"
    );
    assert_eq!(
        qrcode_image_url("https://a.b/c?d=e f~"),
        "https://api.qrserver.com/v1/create-qr-code/?size=200x200&data=https%3A%2F%2Fa.b%2Fc%3Fd%3De%20f~"
    );
    assert_eq!(
        qrcode_image_url("é"),
        "https://api.qrserver.com/v1/create-qr-code/?size=200x200&data=%C3%A9"
    );
}

#[test]
fn qrcode_answers() {
    let q = qrcode_from_reply(Some(0), "\"0\"".to_string(), Some("https://q/x".to_string()), Some("key".to_string()))
        .unwrap();
    assert_eq!(q.url, "https://q/x");
    assert_eq!(q.qrcode_key, "key");
    assert_eq!(q.qrcode_image, "https://api.qrserver.com/v1/create-qr-code/?size=200x200&data=https%3A%2F%2Fq%2Fx");
    match qrcode_from_reply(Some(-1), "\"bad\"".to_string(), None, None) {
        Err(LoginError::Api { message }) => assert_eq!(message, "\"bad\""),
        other => panic!("unexpected {:?}", other),
    }
    assert!(qrcode_from_reply(None, "null".to_string(), None, None).is_err());
}

#[test]
fn poll_answers() {
    assert!(matches!(login_status_from_poll(None), LoginStatus::Failed));
    match login_status_from_poll(Some(reply(Some(0)))) {
        LoginStatus::Success { url, refresh_token } => {
            assert_eq!(url, "https://cb/?SESSDATA=t");
            assert_eq!(refresh_token, "");
        }
        other => panic!("unexpected {:?}", other),
    }
    assert!(matches!(login_status_from_poll(Some(reply(Some(86038)))), LoginStatus::Expired));
    assert!(matches!(login_status_from_poll(Some(reply(Some(86101)))), LoginStatus::Waiting));
    assert!(matches!(login_status_from_poll(Some(reply(Some(86090)))), LoginStatus::Waiting));
    assert!(matches!(login_status_from_poll(Some(reply(None))), LoginStatus::Failed));
    assert!(matches!(login_status_from_poll(Some(reply(Some(1)))), LoginStatus::Failed));
}

#[test]
fn login_state_reports() {
    let success = LoginStatus::Success { url: String::new(), refresh_token: String::new() };
    assert!(login_status_result(Some(&success), false).logged_in);
    assert!(!login_status_result(Some(&LoginStatus::Waiting), false).logged_in);
    assert!(login_status_result(Some(&LoginStatus::Expired), true).logged_in);
    assert!(!login_status_result(None, false).logged_in);
    assert!(login_status_result(None, true).username.is_none());
    let shown = QrcodeResult::from_login(LoginQrcode {
        url: "u".to_string(),
        qrcode_key: "k".to_string(),
        qrcode_image: "i".to_string(),
    });
    assert_eq!((shown.url.as_str(), shown.qrcode_image.as_str()), ("u", "i"));
}

#[test]
fn sessdata_in_text_and_cookies() {
    assert_eq!(
        find_sessdata_in_text("https://x.com/cb?a=1&SESSDATA=abc%2Cdef&b=2").as_deref(),
        Some("abc%2Cdef")
    );
    assert_eq!(find_sessdata_in_text("sessdata=xyz#frag").as_deref(), Some("xyz"));
    assert_eq!(find_sessdata_in_text("https://x.com/cb?notsessdata=1"), None);
    let cookies = vec!["a=b; Path=/".to_string(), "SESSDATA=tok123; Path=/; HttpOnly".to_string()];
    assert_eq!(sessdata_from_set_cookies(&cookies).as_deref(), Some("tok123"));
    assert_eq!(
        sessdata_from_set_cookies(&vec!["sessdata=SESSDATA=x; y".to_string()]).as_deref(),
        Some("SESSDATA=x")
    );
    assert_eq!(sessdata_from_set_cookies(&vec!["SESSDATA=SESSDATA=v".to_string()]).as_deref(), Some("v"));
    assert_eq!(sessdata_from_set_cookies(&vec!["x=1".to_string()]), None);
}

#[test]
fn sessdata_in_encoded_urls() {
    assert_eq!(
        sessdata_from_url("https://passport.biligame.com/x?DedeUserID=1&SESSDATA=abc%2C123&bili_jct=x").as_deref(),
        Some("abc%2C123")
    );
    assert_eq!(
        sessdata_from_url("https://x/cb?url=https%3A%2F%2Fy%2F%3Fsessdata%3Dtok%26z%3D1").as_deref(),
        Some("tok")
    );
    assert_eq!(sessdata_from_url("https://x/cb?u=%253Fsessdata%253Dtok2").as_deref(), Some("tok2"));
    assert_eq!(sessdata_from_url("https://x/cb?u=%25253Fsessdata%25253Dtok3"), None);
    assert_eq!(sessdata_from_url("https://x/cb?u=%FF"), None);
    assert_eq!(sessdata_from_url("https://x/plain"), None);
    let cookies = vec!["SESSDATA=fromcookie; Path=/".to_string()];
    assert_eq!(extract_sessdata(&cookies, "https://x/?sessdata=fromurl").as_deref(), Some("fromcookie"));
    assert_eq!(extract_sessdata(&vec![], "https://x/?sessdata=fromurl").as_deref(), Some("fromurl"));
    assert_eq!(stored_sessdata(Some("  tok \n")).as_deref(), Some("tok"));
    assert_eq!(stored_sessdata(Some("   ")), None);
    assert_eq!(stored_sessdata(None), None);
}

fn config() -> DownloadConfig {
    DownloadConfig {
        save_path: "/videos".to_string(),
        concurrent_connections: 4,
        chunk_size: 1024,
        quality: 80,
        max_retry: 3,
        timeout: 30,
    }
}

#[test]
fn download_commands() {
    let c = download_config(config(), Some("/elsewhere".to_string()));
    assert_eq!(c.save_path, "/elsewhere");
    assert_eq!(c.quality, 80);
    assert_eq!(download_config(config(), None).save_path, "/videos");
    let video = VideoToDownload {
        bvid: "BV1".to_string(),
        cid: 5,
        title: "T".to_string(),
        part_title: Some("P".to_string()),
    };
    let play = PlayUrlResult {
        video_url: "v".to_string(),
        audio_url: "a".to_string(),
        video_quality: 80,
        video_size: 0,
        audio_size: 0,
    };
    let r = download_request(video, play, config());
    assert_eq!((r.bvid.as_str(), r.cid, r.title.as_str()), ("BV1", 5, "T"));
    assert_eq!(r.part_title.as_deref(), Some("P"));
    assert_eq!((r.video_url.as_str(), r.audio_url.as_str()), ("v", "a"));
    assert_eq!(r.config.save_path, "/videos");
    assert!(r.collection_type.is_none() && r.collection_title.is_none());
    assert_eq!(download_summary(3), "已添加 3 个下载任务");
    assert_eq!(download_summary(0), "已添加 0 个下载任务");
    let p = ParseUrlResult::from_playlist(PlaylistResult {
        kind: "collection".to_string(),
        title: "C".to_string(),
        videos: vec![PlaylistVideo { bvid: "BV1".to_string(), cid: 1, title: "a".to_string(), index: 1 }],
    });
    assert_eq!((p.kind.as_str(), p.title.as_str(), p.videos.len()), ("collection", "C", 1));
}
