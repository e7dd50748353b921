use bilibili_downloader::bilibili::collection::{
    build_collection_from_ugc_season, collection_lookups, extract_episode_bvid, extract_episode_cid,
    extract_episode_title, section_contains_bvid, CidLookup, EpisodeData, SectionData, UgcSeason,
};
use bilibili_downloader::bilibili::page::{extract_initial_state_json, initial_state_text};
use bilibili_downloader::bilibili::playurl::{
    all_qualities_failed_message, fallback_qualities, should_degrade, stream_status_ok, FallbackStep, PlayUrlProbe,
    PlayUrlResponse, ProbeStep, QualityFallback,
};
use bilibili_downloader::bilibili::video::{
    check_view_answer, parse_video_info_from_data, InitialState, PageData, PlaylistFlow, PlaylistStep,
    VideoField, ViewData,
};
use bilibili_downloader::bilibili::{BiliError, BilibiliClient, BilibiliUrlType, CollectionMode};

fn s(x: &str) -> Option<String> {
    Some(x.to_string())
}

fn episode_with_bvid(bvid: &str) -> EpisodeData {
    EpisodeData { bvid: s(bvid), ..Default::default() }
}

#[test]
fn should_extract_initial_state_json() {
    let html = r#"<script>window.__INITIAL_STATE__={"videoData":{"ugc_season":{"title":"合集A"}}};(function(){})</script>"#;
    let parsed = extract_initial_state_json(html).expect("should parse");
    assert_eq!(parsed["videoData"]["ugc_season"]["title"].as_str(), Some("合集A"));
}

#[test]
fn should_match_section_by_current_bvid() {
    let section = SectionData {
        episodes: Some(vec![
            EpisodeData { bvid: s("BV111"), ..Default::default() },
            EpisodeData { arc_bvid: s("BV222"), ..Default::default() },
        ]),
    };
    assert!(section_contains_bvid(&section, "BV222"));
    assert!(!section_contains_bvid(&section, "BV333"));
}

#[test]
fn should_extract_episode_cid_by_priority() {
    let episode = EpisodeData { cid: Some(100), page_cid: Some(200), ..Default::default() };
    assert_eq!(extract_episode_cid(&episode), Some(200));

    let episode2 = EpisodeData { cid: Some(300), ..Default::default() };
    assert_eq!(extract_episode_cid(&episode2), Some(300));
}

#[test]
fn should_extract_episode_bvid_and_title() {
    let episode = EpisodeData { arc_bvid: s("BVabc"), arc_title: s("标题1"), ..Default::default() };
    assert_eq!(extract_episode_bvid(&episode).as_deref(), Some("BVabc"));
    assert_eq!(extract_episode_title(&episode).as_deref(), Some("标题1"));
}

#[test]
fn initial_state_text_falls_back_to_script_end_and_line_break() {
    let html = "<script>window.__INITIAL_STATE__= {\"a\":1} ;</script>";
    assert_eq!(initial_state_text(html).as_deref(), Some("{\"a\":1}"));
    let html2 = "window.__INITIAL_STATE__={\"b\":2}\nrest";
    assert_eq!(initial_state_text(html2).as_deref(), Some("{\"b\":2}"));
    assert_eq!(initial_state_text("no state here"), None);
    assert_eq!(initial_state_text("window.__INITIAL_STATE__={\"c\":3}"), None);
    assert!(extract_initial_state_json("window.__INITIAL_STATE__={broken;</script>").is_none());
}

#[test]
fn parse_url_finds_bv_id() {
    let (kind, bvid) = BilibiliClient::parse_url("https://www.bilibili.com/video/BV1xx411c7mD?p=2").unwrap();
    assert_eq!(kind, BilibiliUrlType::SingleVideo { bvid: "BV1xx411c7mD".to_string() });
    assert_eq!(bvid.as_deref(), Some("BV1xx411c7mD"));
    assert_eq!(BilibiliClient::parse_url("https://example.com/watch").unwrap_err(), BiliError::UnrecognizedUrl);
}

#[test]
fn client_addresses() {
    assert_eq!(
        BilibiliClient::view_api_url("BV1"),
        "https://api.bilibili.com/x/web-interface/view?bvid=BV1"
    );
    assert_eq!(BilibiliClient::video_page_url("BV1"), "https://www.bilibili.com/video/BV1");
    assert_eq!(
        BilibiliClient::play_url_api("BV1", 42, 80),
        "https://api.bilibili.com/x/player/playurl?bvid=BV1&cid=42&qn=80&fnval=16&fourk=1"
    );
    let c = BilibiliClient::new();
    assert_eq!(c.cookie_header(), None);
    let c = c.with_sessdata("abc".to_string());
    assert_eq!(c.cookie_header().as_deref(), Some("SESSDATA=abc"));
}

#[test]
fn collection_mode_from_setting() {
    assert_eq!(CollectionMode::from_option_str(Some("  Compat ")), CollectionMode::Compat);
    assert_eq!(CollectionMode::from_option_str(Some("strict")), CollectionMode::Strict);
    assert_eq!(CollectionMode::from_option_str(Some("other")), CollectionMode::Strict);
    assert_eq!(CollectionMode::from_option_str(None), CollectionMode::Strict);
    assert_eq!(CollectionMode::default(), CollectionMode::Strict);
}

fn view_with_pages(pages: Vec<PageData>) -> ViewData {
    ViewData {
        bvid: s("BV1"),
        title: s("Title"),
        owner_name: s("Owner"),
        cid: Some(7),
        desc: s("Intro"),
        pages: Some(pages),
        ugc_season: None,
    }
}

fn page(n: i64, cid: i64, part: &str, duration: i64) -> PageData {
    PageData { page: Some(n), cid: Some(cid), part: s(part), duration: Some(duration) }
}

#[test]
fn video_info_reads_view_data() {
    let view = view_with_pages(vec![
        page(1, 11, "P1", 60),
        PageData { page: Some(2), cid: None, ..Default::default() },
        PageData { page: Some(3), cid: Some(33), part: None, duration: None },
    ]);
    let info = parse_video_info_from_data(&view).unwrap();
    assert_eq!(info.bvid, "BV1");
    assert_eq!(info.owner, "Owner");
    assert_eq!(info.intro, "Intro");
    assert_eq!(info.pages.len(), 2);
    assert_eq!(info.pages[0].duration, 60);
    assert_eq!(info.pages[1].cid, 33);
    assert_eq!(info.pages[1].part, "");
    assert_eq!(info.pages[1].duration, 0);

    let missing_title = ViewData { title: None, ..view_with_pages(vec![page(1, 1, "a", 1)]) };
    assert_eq!(
        parse_video_info_from_data(&missing_title).unwrap_err(),
        BiliError::MissingField { field: VideoField::Title }
    );
    let no_usable_pages = view_with_pages(vec![PageData::default()]);
    assert_eq!(parse_video_info_from_data(&no_usable_pages).unwrap_err(), BiliError::NoPages);
    let no_pages = ViewData { pages: None, ..view_with_pages(vec![]) };
    assert_eq!(
        parse_video_info_from_data(&no_pages).unwrap_err(),
        BiliError::MissingField { field: VideoField::Pages }
    );
}

#[test]
fn view_answer_code_is_checked() {
    assert!(check_view_answer(Some(0), "\"0\"".to_string()).is_ok());
    assert_eq!(
        check_view_answer(Some(-404), "\"啥都木有\"".to_string()).unwrap_err(),
        BiliError::Api { message: "\"啥都木有\"".to_string() }
    );
    assert!(check_view_answer(None, "null".to_string()).is_err());
}

#[test]
fn multi_part_video_is_its_own_playlist() {
    let view = view_with_pages(vec![page(1, 11, "P1", 60), page(2, 22, "P2", 30)]);
    let (_flow, step) = PlaylistFlow::start("BV1", CollectionMode::Strict, &view).unwrap();
    match step {
        PlaylistStep::Done(p) => {
            assert_eq!(p.kind, "multi_part");
            assert_eq!(p.title, "Title");
            assert_eq!(p.videos.len(), 2);
            assert_eq!(p.videos[1].bvid, "BV1");
            assert_eq!(p.videos[1].cid, 22);
            assert_eq!(p.videos[1].title, "P2");
            assert_eq!(p.videos[1].index, 2);
        }
        _ => panic!("expected a finished playlist"),
    }
}

#[test]
fn lone_video_in_strict_mode_is_single() {
    let view = view_with_pages(vec![page(1, 11, "P1", 60)]);
    let (_flow, step) = PlaylistFlow::start("BV1", CollectionMode::Strict, &view).unwrap();
    match step {
        PlaylistStep::Done(p) => {
            assert_eq!(p.kind, "single");
            assert_eq!(p.videos.len(), 1);
            assert_eq!(p.videos[0].cid, 7);
            assert_eq!(p.videos[0].title, "Title");
            assert_eq!(p.videos[0].index, 1);
        }
        _ => panic!("expected a finished playlist"),
    }
}

#[test]
fn lone_video_in_compat_mode_reads_the_page() {
    let view = view_with_pages(vec![page(1, 11, "P1", 60)]);
    let (mut flow, step) = PlaylistFlow::start("BV1", CollectionMode::Compat, &view).unwrap();
    assert!(matches!(step, PlaylistStep::FetchHtml));
    let season = UgcSeason {
        title: s("合集"),
        sections: Some(vec![SectionData {
            episodes: Some(vec![
                EpisodeData { bvid: s("BV1"), cid: Some(1), title: s("一"), ..Default::default() },
                episode_with_bvid("BV2"),
            ]),
        }]),
    };
    let state = InitialState { ugc_season: None, video_data_ugc_season: Some(season.clone()) };
    let step = flow.after_html(Some(&state));
    assert!(flow.from_html);
    match step {
        PlaylistStep::LookupCids(v) => assert_eq!(v, vec!["BV2".to_string()]),
        _ => panic!("expected lookups"),
    }
    let lookups = vec![CidLookup { bvid: "BV2".to_string(), cid: Some(2) }];
    match flow.after_lookups(&season, &lookups) {
        PlaylistStep::Done(p) => {
            assert_eq!(p.kind, "collection");
            assert_eq!(p.title, "合集");
            assert_eq!(p.videos.len(), 2);
            assert_eq!(p.videos[1].cid, 2);
            assert_eq!(p.videos[1].title, "选集 2");
        }
        _ => panic!("expected a collection"),
    }
    let step = flow.after_html(None);
    assert!(matches!(step, PlaylistStep::Done(ref p) if p.kind == "single"));
}

#[test]
fn collection_entries_are_numbered_and_deduplicated() {
    let season = UgcSeason {
        title: s("   "),
        sections: Some(vec![
            SectionData { episodes: Some(vec![episode_with_bvid("BVX")]) },
            SectionData {
                episodes: Some(vec![
                    EpisodeData { bvid: s("BV1"), page_cid: Some(10), ..Default::default() },
                    EpisodeData { bvid: s("BV1"), cid: Some(99), title: s("again"), ..Default::default() },
                    EpisodeData { arc_bvid: s("BV2"), arc_title: s("Two"), ..Default::default() },
                    EpisodeData { title: s("no id"), cid: Some(5), ..Default::default() },
                    episode_with_bvid("BV3"),
                ]),
            },
        ]),
    };
    let needed = collection_lookups(&season, "BV2");
    assert_eq!(needed, vec!["BV2".to_string(), "BV3".to_string()]);
    let lookups = vec![
        CidLookup { bvid: "BV2".to_string(), cid: Some(20) },
        CidLookup { bvid: "BV3".to_string(), cid: None },
    ];
    let p = build_collection_from_ugc_season(&season, "BV2", "Fallback", &lookups).unwrap();
    assert_eq!(p.title, "Fallback");
    assert_eq!(p.videos.len(), 2);
    assert_eq!((p.videos[0].bvid.as_str(), p.videos[0].cid, p.videos[0].index), ("BV1", 10, 1));
    assert_eq!(p.videos[0].title, "选集 1");
    assert_eq!((p.videos[1].bvid.as_str(), p.videos[1].cid, p.videos[1].index), ("BV2", 20, 2));
    assert_eq!(p.videos[1].title, "Two");
    assert_ne!(p.videos[0].bvid, p.videos[1].bvid);

    assert!(build_collection_from_ugc_season(&season, "BVX", "F", &lookups).is_none());
    assert!(build_collection_from_ugc_season(&season, "BV404", "F", &lookups).is_none());
}

fn answer(video: Vec<Option<&str>>, audio: Vec<Option<&str>>) -> PlayUrlResponse {
    PlayUrlResponse {
        code: Some(0),
        message: "\"0\"".to_string(),
        quality: Some(80),
        video_urls: Some(video.into_iter().map(|u| u.map(|x| x.to_string())).collect()),
        audio_urls: Some(audio.into_iter().map(|u| u.map(|x| x.to_string())).collect()),
    }
}

#[test]
fn probe_tries_candidates_in_order() {
    let (mut probe, step) = PlayUrlProbe::start(answer(vec![None, Some("v1"), Some("v2")], vec![Some("a1"), Some("a2")]));
    assert!(matches!(step, ProbeStep::Validate(ref u) if u == "v1"));
    let step = probe.on_validated(false);
    assert!(matches!(step, ProbeStep::Validate(ref u) if u == "v2"));
    let step = probe.on_validated(true);
    assert!(matches!(step, ProbeStep::Validate(ref u) if u == "a1"));
    let step = probe.on_validated(false);
    assert!(matches!(step, ProbeStep::Validate(ref u) if u == "a2"));
    match probe.on_validated(true) {
        ProbeStep::Done(Ok(r)) => {
            assert_eq!(r.video_url, "v2");
            assert_eq!(r.audio_url, "a2");
            assert_eq!(r.video_quality, 80);
        }
        _ => panic!("expected the chosen streams"),
    }
}

#[test]
fn probe_falls_back_to_first_entries() {
    let (mut probe, step) = PlayUrlProbe::start(answer(vec![Some("v1")], vec![Some("a1")]));
    assert!(matches!(step, ProbeStep::Validate(ref u) if u == "v1"));
    let step = probe.on_validated(false);
    assert!(matches!(step, ProbeStep::Validate(ref u) if u == "a1"));
    match probe.on_validated(false) {
        ProbeStep::Done(Ok(r)) => {
            assert_eq!(r.video_url, "v1");
            assert_eq!(r.audio_url, "a1");
        }
        _ => panic!("expected the first entries"),
    }
}

#[test]
fn probe_errors() {
    let mut bad = answer(vec![Some("v")], vec![Some("a")]);
    bad.code = Some(-404);
    bad.message = "\"啥都木有\"".to_string();
    let (_p, step) = PlayUrlProbe::start(bad);
    assert!(matches!(step, ProbeStep::Done(Err(BiliError::Api { ref message })) if message == "\"啥都木有\""));

    let (_p, step) = PlayUrlProbe::start(answer(vec![], vec![Some("a")]));
    assert!(matches!(step, ProbeStep::Done(Err(BiliError::NoVideoStream))));

    let (mut p, _step) = PlayUrlProbe::start(answer(vec![Some("v")], vec![]));
    assert!(matches!(p.on_validated(true), ProbeStep::Done(Err(BiliError::NoVideoStream))));

    let (mut p, _step) = PlayUrlProbe::start(answer(vec![Some("v")], vec![None]));
    assert!(matches!(p.on_validated(true), ProbeStep::Done(Err(BiliError::NoAudioStream))));

    let mut no_quality = answer(vec![Some("v")], vec![Some("a")]);
    no_quality.quality = None;
    let (mut p, _step) = PlayUrlProbe::start(no_quality);
    let _ = p.on_validated(true);
    assert!(matches!(p.on_validated(true), ProbeStep::Done(Err(BiliError::MissingQuality))));
}

#[test]
fn quality_fallback_ladder() {
    assert_eq!(fallback_qualities(120), vec![116, 112, 80, 64, 32]);
    assert_eq!(fallback_qualities(80), vec![64, 32]);
    assert_eq!(fallback_qualities(100), vec![80, 64, 32]);
    assert_eq!(fallback_qualities(32), Vec::<i32>::new());
    let f = fallback_qualities(127);
    assert!(f.windows(2).all(|w| w[0] > w[1]));
    assert!(should_degrade("HTTP 403 Forbidden"));
    assert!(should_degrade("未找到视频流"));
    assert!(!should_degrade("timeout"));
    assert!(stream_status_ok(200) && stream_status_ok(206));
    assert!(!stream_status_ok(403));
}

#[test]
fn quality_fallback_walk() {
    assert!(QualityFallback::after_failure(80, "connection reset").is_none());
    let mut walk = QualityFallback::after_failure(80, "HTTP status 403").unwrap();
    assert_eq!(walk.remaining, vec![64, 32]);
    assert_eq!(walk.next_step(false), FallbackStep::Try(64));
    assert_eq!(walk.next_step(false), FallbackStep::Try(32));
    assert_eq!(walk.next_step(false), FallbackStep::GiveUp);
    assert_eq!(walk.next_step(false), FallbackStep::GiveUp);
    // The walk stops at the first success.
    let mut found = QualityFallback::after_failure(116, "403 Forbidden").unwrap();
    assert_eq!(found.next_step(false), FallbackStep::Try(112));
    assert_eq!(found.next_step(true), FallbackStep::Use);
    assert_eq!(found.next, 1);
    let mut lowest = QualityFallback::after_failure(32, "未找到视频流").unwrap();
    assert_eq!(lowest.next_step(false), FallbackStep::GiveUp);
    assert_eq!(all_qualities_failed_message("HTTP 403"), "所有质量等级都无法下载: HTTP 403");
}
