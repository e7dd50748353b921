//! Bilibili seen as a platform: the Bilibili client's answers turned into
//! the platform-neutral video facts and stream URLs.

use std::sync::Arc;
use vstd::prelude::*;
use super::{Platform, PlatformError, VideoInfo, StreamUrls, CookiesStatus};
use crate::bilibili::{BilibiliClient, VideoPage, PlaylistResult, PlayUrlResult};
use crate::text::{trim, trim_seq, to_owned_string};
use crate::fmt::{int_decimal, i32_to_string};

verus! {

/// Sum of the part durations.
pub open spec fn pages_duration(pages: Seq<VideoPage>) -> int
    decreases pages.len(),
{
    if pages.len() == 0 {
        0
    } else {
        pages_duration(pages.drop_last()) + pages.last().duration
    }
}

/// Every running total of the part durations fits in an `i32`.
pub open spec fn running_durations_fit(pages: Seq<VideoPage>) -> bool {
    forall|k: int|
        0 <= k <= pages.len() ==> i32::MIN <= #[trigger] pages_duration(pages.take(k)) <= i32::MAX
}

/// Whether every running total of the part durations fits in an `i32`
/// (what `platform_video_info` needs).
pub fn durations_fit(pages: &Vec<VideoPage>) -> (b: bool)
    ensures
        b == running_durations_fit(pages@),
{
    let mut total: i64 = 0;
    let mut i: usize = 0;
    assert(pages@.take(0) =~= Seq::<VideoPage>::empty());
    while i < pages.len()
        invariant
            i <= pages.len(),
            total == pages_duration(pages@.take(i as int)),
            forall|k: int| 0 <= k <= i ==> i32::MIN <= #[trigger] pages_duration(pages@.take(k)) <= i32::MAX,
        decreases pages.len() - i,
    {
        assert(pages@.take(i as int + 1).drop_last() =~= pages@.take(i as int));
        total = total + pages[i].duration as i64;
        i = i + 1;
        if total < i32::MIN as i64 || total > i32::MAX as i64 {
            assert(!(i32::MIN <= pages_duration(pages@.take(i as int)) <= i32::MAX));
            return false;
        }
    }
    assert(pages@.take(pages@.len() as int) =~= pages@);
    true
}

/// The Bilibili client behind the platform interface.
pub struct BilibiliClientAdapter {
    pub client: Arc<BilibiliClient>,
}

impl BilibiliClientAdapter {
    /// An adapter around a client without login.
    pub fn new() -> (r: Result<Self, PlatformError>)
        ensures
            r matches Ok(a) && a.client.sessdata is None,
    {
        Ok(BilibiliClientAdapter { client: Arc::new(BilibiliClient::new()) })
    }

    /// The platform facts of video `bvid` from the Bilibili video answer: the
    /// duration is the sum of the part durations, the description the intro.
    pub fn platform_video_info(bvid: String, data: crate::bilibili::VideoInfo) -> (r: VideoInfo)
        requires
            running_durations_fit(data.pages@),
        ensures
            r.platform == Platform::Bilibili,
            r.video_id == bvid,
            r.title == data.title,
            r.author == data.owner,
            r.duration == Some((pages_duration(data.pages@) as i32) as u64),
            r.description == Some(data.intro),
            r.thumbnail is None,
    {
        let mut total: i32 = 0;
        let mut i: usize = 0;
        assert(data.pages@.take(0) =~= Seq::<VideoPage>::empty());
        while i < data.pages.len()
            invariant
                i <= data.pages.len(),
                running_durations_fit(data.pages@),
                total == pages_duration(data.pages@.take(i as int)),
            decreases data.pages.len() - i,
        {
            assert(data.pages@.take(i as int + 1).drop_last() =~= data.pages@.take(i as int));
            assert(i32::MIN <= pages_duration(data.pages@.take(i as int + 1)) <= i32::MAX);
            total = total + data.pages[i].duration;
            i = i + 1;
        }
        assert(data.pages@.take(data.pages@.len() as int) =~= data.pages@);
        VideoInfo {
            platform: Platform::Bilibili,
            video_id: bvid,
            title: data.title,
            author: data.owner,
            duration: Some(total as u64),
            description: Some(data.intro),
            thumbnail: None,
        }
    }

    /// The part whose streams are fetched: the first entry of the playlist.
    pub fn first_cid(playlist: &PlaylistResult) -> (r: Result<i64, PlatformError>)
        ensures
            playlist.videos@.len() == 0 ==> r matches Err(PlatformError::EmptyPlaylist),
            playlist.videos@.len() > 0 ==> r == Ok::<i64, PlatformError>(playlist.videos@[0].cid),
    {
        if playlist.videos.len() == 0 {
            return Err(PlatformError::EmptyPlaylist);
        }
        Ok(playlist.videos[0].cid)
    }

    /// The stream URLs of a play answer, labelled with the requested quality.
    pub fn stream_urls(play: PlayUrlResult, quality: i32) -> (r: StreamUrls)
        ensures
            r.video_url == play.video_url,
            r.audio_url == play.audio_url,
            r.video_quality@ == int_decimal(quality as int),
            r.audio_quality@ == "audio"@,
    {
        StreamUrls {
            video_url: play.video_url,
            audio_url: play.audio_url,
            video_quality: i32_to_string(quality),
            audio_quality: to_owned_string("audio"),
        }
    }

    /// The state of the stored login from the content of the `SESSDATA`
    /// file; `None` where there is no file.
    pub fn sessdata_file_status(content: Option<&str>) -> (s: CookiesStatus)
        ensures
            s == (match content {
                None => CookiesStatus::NotFound,
                Some(c) => if trim_seq(c@).len() == 0 {
                    CookiesStatus::Invalid
                } else {
                    CookiesStatus::Valid
                },
            }),
    {
        match content {
            None => CookiesStatus::NotFound,
            Some(c) => {
                let t = trim(c);
                if t.as_str().is_empty() {
                    CookiesStatus::Invalid
                } else {
                    CookiesStatus::Valid
                }
            },
        }
    }
}

} // verus!
