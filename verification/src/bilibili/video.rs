//! The `view` API answer of a video, and deciding which playlist it belongs to.

use vstd::prelude::*;
use super::{
    VideoInfo, VideoPage, PlaylistVideo, PlaylistVideoView, PlaylistResult, PlaylistResultView,
    CollectionMode, BiliError,
};
use super::collection::{UgcSeason, CidLookup, collection_spec, collection_lookups, current_episodes,
    lookups_needed, build_collection_from_ugc_season};
use crate::text::{to_owned_string, strings_view};

verus! {

/// What the logic reads of one entry of `pages`: `page`, `cid`, `part` and
/// `duration`, each when present with the right JSON type.
#[derive(Debug, Clone, Default)]
pub struct PageData {
    pub page: Option<i64>,
    pub cid: Option<i64>,
    pub part: Option<String>,
    pub duration: Option<i64>,
}

/// What the logic reads of the `data` object of the `view` API answer:
/// `bvid`, `title`, `owner.name`, `cid`, `desc`, `pages` when an array, and
/// `ugc_season` when an object.
#[derive(Debug, Clone, Default)]
pub struct ViewData {
    pub bvid: Option<String>,
    pub title: Option<String>,
    pub owner_name: Option<String>,
    pub cid: Option<i64>,
    pub desc: Option<String>,
    pub pages: Option<Vec<PageData>>,
    pub ugc_season: Option<UgcSeason>,
}

/// A field the video data must carry.
#[derive(Debug, Clone, Copy, PartialEq, Eq, Structural)]
pub enum VideoField {
    Bvid,
    Title,
    Cid,
    Pages,
}

pub struct VideoPageView {
    pub page: i32,
    pub cid: i64,
    pub part: Seq<char>,
    pub duration: i32,
}

impl View for VideoPage {
    type V = VideoPageView;

    open spec fn view(&self) -> VideoPageView {
        VideoPageView { page: self.page, cid: self.cid, part: self.part@, duration: self.duration }
    }
}

pub struct VideoInfoView {
    pub bvid: Seq<char>,
    pub title: Seq<char>,
    pub owner: Seq<char>,
    pub cid: i64,
    pub pages: Seq<VideoPageView>,
    pub intro: Seq<char>,
}

pub open spec fn pages_view(p: Seq<VideoPage>) -> Seq<VideoPageView> {
    p.map_values(|x: VideoPage| x@)
}

impl View for VideoInfo {
    type V = VideoInfoView;

    open spec fn view(&self) -> VideoInfoView {
        VideoInfoView {
            bvid: self.bvid@,
            title: self.title@,
            owner: self.owner@,
            cid: self.cid,
            pages: pages_view(self.pages@),
            intro: self.intro@,
        }
    }
}

pub open spec fn str_or_empty(o: Option<String>) -> Seq<char> {
    match o {
        Some(s) => s@,
        None => seq![],
    }
}

/// The parts of a video: entries with both `page` and `cid`, in order;
/// `page` and `duration` (0 when absent) cut to `i32`, `part` empty when absent.
pub open spec fn pages_spec(ps: Seq<PageData>) -> Seq<VideoPageView>
    decreases ps.len(),
{
    if ps.len() == 0 {
        seq![]
    } else {
        let rest = pages_spec(ps.drop_last());
        let p = ps.last();
        match (p.page, p.cid) {
            (Some(pg), Some(c)) => rest.push(
                VideoPageView {
                    page: pg as i32,
                    cid: c,
                    part: str_or_empty(p.part),
                    duration: match p.duration {
                        Some(d) => d as i32,
                        None => 0i32,
                    },
                },
            ),
            _ => rest,
        }
    }
}

/// The video a `view` answer describes, or the first missing field, or
/// `NoPages` when no part is usable.
pub open spec fn video_info_spec(d: ViewData) -> Result<VideoInfoView, BiliError> {
    match (d.bvid, d.title, d.cid, d.pages) {
        (None, _, _, _) => Err(BiliError::MissingField { field: VideoField::Bvid }),
        (Some(_), None, _, _) => Err(BiliError::MissingField { field: VideoField::Title }),
        (Some(_), Some(_), None, _) => Err(BiliError::MissingField { field: VideoField::Cid }),
        (Some(_), Some(_), Some(_), None) => Err(BiliError::MissingField { field: VideoField::Pages }),
        (Some(b), Some(t), Some(c), Some(ps)) => if pages_spec(ps@).len() == 0 {
            Err(BiliError::NoPages)
        } else {
            Ok(
                VideoInfoView {
                    bvid: b@,
                    title: t@,
                    owner: str_or_empty(d.owner_name),
                    cid: c,
                    pages: pages_spec(ps@),
                    intro: str_or_empty(d.desc),
                },
            )
        },
    }
}

fn string_or_empty(o: &Option<String>) -> (s: String)
    ensures
        s@ == str_or_empty(*o),
{
    match o {
        Some(s) => s.clone(),
        None => String::new(),
    }
}

/// Reads the video out of the `view` answer.
pub fn parse_video_info_from_data(data: &ViewData) -> (r: Result<VideoInfo, BiliError>)
    ensures
        match video_info_spec(*data) {
            Ok(v) => r is Ok && r->Ok_0@ == v,
            Err(e) => r == Err::<VideoInfo, BiliError>(e),
        },
{
    let bvid = match &data.bvid {
        Some(b) => b.clone(),
        None => return Err(BiliError::MissingField { field: VideoField::Bvid }),
    };
    let title = match &data.title {
        Some(t) => t.clone(),
        None => return Err(BiliError::MissingField { field: VideoField::Title }),
    };
    let owner = string_or_empty(&data.owner_name);
    let cid = match data.cid {
        Some(c) => c,
        None => return Err(BiliError::MissingField { field: VideoField::Cid }),
    };
    let intro = string_or_empty(&data.desc);
    let ps = match &data.pages {
        Some(p) => p,
        None => return Err(BiliError::MissingField { field: VideoField::Pages }),
    };
    let mut pages: Vec<VideoPage> = Vec::new();
    let mut i: usize = 0;
    while i < ps.len()
        invariant
            i <= ps.len(),
            pages_view(pages@) == pages_spec(ps@.take(i as int)),
        decreases ps.len() - i,
    {
        assert(ps@.take(i + 1).drop_last() =~= ps@.take(i as int));
        assert(ps@.take(i + 1).last() == ps@[i as int]);
        let p = &ps[i];
        match (p.page, p.cid) {
            (Some(pg), Some(c)) => {
                let d = match p.duration {
                    Some(d) => d as i32,
                    None => 0,
                };
                let ghost old_pages = pages@;
                pages.push(
                    VideoPage { page: pg as i32, cid: c, part: string_or_empty(&p.part), duration: d },
                );
                assert(pages_view(pages@) =~= pages_view(old_pages).push(pages@[pages@.len() - 1]@));
            },
            _ => {},
        }
        i = i + 1;
    }
    assert(ps@.take(ps@.len() as int) =~= ps@);
    if pages.len() == 0 {
        return Err(BiliError::NoPages);
    }
    Ok(VideoInfo { bvid, title, owner, cid, pages, intro })
}

/// The playlist of a multi-part video: its parts, each under the requested BV id.
pub open spec fn multi_part_spec(info: VideoInfoView, bvid: Seq<char>) -> PlaylistResultView {
    PlaylistResultView {
        kind: "multi_part"@,
        title: info.title,
        videos: info.pages.map_values(
            |p: VideoPageView| PlaylistVideoView { bvid, cid: p.cid, title: p.part, index: p.page },
        ),
    }
}

/// The playlist of a lone video.
pub open spec fn single_spec(info: VideoInfoView) -> PlaylistResultView {
    PlaylistResultView {
        kind: "single"@,
        title: info.title,
        videos: seq![PlaylistVideoView { bvid: info.bvid, cid: info.cid, title: info.title, index: 1 }],
    }
}

pub fn multi_part_playlist(info: &VideoInfo, bvid: &str) -> (r: PlaylistResult)
    ensures
        r@ == multi_part_spec(info@, bvid@),
{
    let mut videos: Vec<PlaylistVideo> = Vec::new();
    let mut i: usize = 0;
    while i < info.pages.len()
        invariant
            i <= info.pages.len(),
            videos@.len() == i,
            forall|k: int|
                0 <= k < i ==> (#[trigger] videos@[k])@ == (PlaylistVideoView {
                    bvid: bvid@,
                    cid: info.pages@[k].cid,
                    title: info.pages@[k].part@,
                    index: info.pages@[k].page,
                }),
        decreases info.pages.len() - i,
    {
        let p = &info.pages[i];
        videos.push(
            PlaylistVideo { bvid: to_owned_string(bvid), cid: p.cid, title: p.part.clone(), index: p.page },
        );
        i = i + 1;
    }
    let r = PlaylistResult { kind: to_owned_string("multi_part"), title: info.title.clone(), videos };
    assert(r@.videos =~= multi_part_spec(info@, bvid@).videos);
    r
}

pub fn single_playlist(info: &VideoInfo) -> (r: PlaylistResult)
    ensures
        r@ == single_spec(info@),
{
    let mut videos: Vec<PlaylistVideo> = Vec::new();
    videos.push(
        PlaylistVideo { bvid: info.bvid.clone(), cid: info.cid, title: info.title.clone(), index: 1 },
    );
    let r = PlaylistResult { kind: to_owned_string("single"), title: info.title.clone(), videos };
    assert(r@.videos =~= single_spec(info@).videos);
    r
}

/// What the logic reads of the page's initial state: `ugc_season` and
/// `videoData.ugc_season`, each when present.
#[derive(Debug, Clone, Default)]
pub struct InitialState {
    pub ugc_season: Option<UgcSeason>,
    pub video_data_ugc_season: Option<UgcSeason>,
}

/// The collection of the initial state: `ugc_season`, else `videoData.ugc_season`.
pub open spec fn initial_state_season(s: InitialState) -> Option<UgcSeason> {
    match s.ugc_season {
        Some(u) => Some(u),
        None => s.video_data_ugc_season,
    }
}

/// The next thing to do to find a video's playlist.
#[derive(Debug, Clone)]
pub enum PlaylistStep {
    /// Look up the cid of these videos (`get_video_info`), then call `after_lookups`.
    LookupCids(Vec<String>),
    /// Fetch the video page and read its initial state, then call `after_html`.
    FetchHtml,
    /// The playlist is decided.
    Done(PlaylistResult),
}

/// Progress of the search for a video's playlist: the multi-part check,
/// then the collection in the `view` data, then (in compat mode) the
/// collection in the video page's initial state, then the lone video. The
/// collection whose cids are looked up is handed back to `after_lookups`.
#[derive(Debug, Clone)]
pub struct PlaylistFlow {
    pub bvid: String,
    pub mode: CollectionMode,
    pub info: VideoInfo,
    /// Whether the video page was already read.
    pub from_html: bool,
}

pub open spec fn step_lookups(step: PlaylistStep) -> Option<Seq<Seq<char>>> {
    match step {
        PlaylistStep::LookupCids(v) => Some(strings_view(v@)),
        _ => None,
    }
}

pub open spec fn step_done(step: PlaylistStep) -> Option<PlaylistResultView> {
    match step {
        PlaylistStep::Done(p) => Some(p@),
        _ => None,
    }
}

/// The lookups a collection needs, as `collection_lookups` computes them.
pub open spec fn season_lookups(season: UgcSeason, bvid: Seq<char>) -> Seq<Seq<char>> {
    match current_episodes(season, bvid) {
        Some(eps) => lookups_needed(eps),
        None => seq![],
    }
}

/// What follows when no collection was found: the page in compat mode
/// (unless it was already read), else the lone video.
pub open spec fn after_no_collection(flow: PlaylistFlow, step: PlaylistStep) -> bool {
    if !flow.from_html && flow.mode == CollectionMode::Compat {
        step is FetchHtml
    } else {
        step_done(step) == Some(single_spec(flow.info@))
    }
}

/// Picks the collection of the page's initial state, as `initial_state_season` describes.
pub fn initial_state_season_of(state: &InitialState) -> (r: Option<&UgcSeason>)
    ensures
        match initial_state_season(*state) {
            Some(u) => r == Some(&u),
            None => r is None,
        },
{
    match &state.ugc_season {
        Some(u) => Some(u),
        None => match &state.video_data_ugc_season {
            Some(u) => Some(u),
            None => None,
        },
    }
}

impl PlaylistFlow {
    fn no_collection(&self) -> (step: PlaylistStep)
        ensures
            after_no_collection(*self, step),
    {
        if !self.from_html && self.mode == CollectionMode::Compat {
            PlaylistStep::FetchHtml
        } else {
            PlaylistStep::Done(single_playlist(&self.info))
        }
    }

    /// Starts from the `view` answer of video `bvid`. Where the step asks for
    /// lookups, the collection to hand to `after_lookups` is `view.ugc_season`.
    pub fn start(bvid: &str, mode: CollectionMode, view: &ViewData) -> (r: Result<(PlaylistFlow, PlaylistStep), BiliError>)
        ensures
            match video_info_spec(*view) {
                Err(e) => r == Err::<(PlaylistFlow, PlaylistStep), BiliError>(e),
                Ok(info) => r is Ok && {
                    let (flow, step) = r->Ok_0;
                    &&& flow.info@ == info
                    &&& flow.bvid@ == bvid@
                    &&& flow.mode == mode
                    &&& !flow.from_html
                    &&& if info.pages.len() > 1 {
                        step_done(step) == Some(multi_part_spec(info, bvid@))
                    } else {
                        match view.ugc_season {
                            Some(s) => step_lookups(step) == Some(season_lookups(s, bvid@)),
                            None => after_no_collection(flow, step),
                        }
                    }
                },
            },
    {
        let info = parse_video_info_from_data(view)?;
        let flow = PlaylistFlow { bvid: to_owned_string(bvid), mode, info, from_html: false };
        if flow.info.pages.len() > 1 {
            let p = multi_part_playlist(&flow.info, bvid);
            return Ok((flow, PlaylistStep::Done(p)));
        }
        match &view.ugc_season {
            Some(s) => {
                let needed = collection_lookups(s, bvid);
                Ok((flow, PlaylistStep::LookupCids(needed)))
            },
            None => {
                let step = flow.no_collection();
                Ok((flow, step))
            },
        }
    }

    /// Given the collection whose lookups were asked for and their results:
    /// the collection's playlist when it has at least two entries; otherwise
    /// what follows when no collection was found.
    pub fn after_lookups(&self, season: &UgcSeason, lookups: &Vec<CidLookup>) -> (step: PlaylistStep)
        ensures
            match collection_spec(*season, self.bvid@, self.info@.title, lookups@) {
                Some(p) => step_done(step) == Some(p),
                None => after_no_collection(*self, step),
            },
    {
        match build_collection_from_ugc_season(season, self.bvid.as_str(), self.info.title.as_str(), lookups) {
            Some(p) => PlaylistStep::Done(p),
            None => self.no_collection(),
        }
    }

    /// Given the initial state read from the video page (`None` where the
    /// page holds none that parses): the lookups of its collection, or the
    /// lone video. Where the step asks for lookups, the collection to hand to
    /// `after_lookups` is `initial_state_season(state)`.
    pub fn after_html(&mut self, state: Option<&InitialState>) -> (step: PlaylistStep)
        ensures
            final(self).from_html,
            final(self).bvid == old(self).bvid,
            final(self).mode == old(self).mode,
            final(self).info == old(self).info,
            match state {
                Some(st) => match initial_state_season(*st) {
                    Some(s) => step_lookups(step) == Some(season_lookups(s, old(self).bvid@)),
                    None => step_done(step) == Some(single_spec(old(self).info@)),
                },
                None => step_done(step) == Some(single_spec(old(self).info@)),
            },
    {
        self.from_html = true;
        match state {
            Some(st) => match initial_state_season_of(st) {
                Some(s) => PlaylistStep::LookupCids(collection_lookups(s, self.bvid.as_str())),
                None => PlaylistStep::Done(single_playlist(&self.info)),
            },
            None => PlaylistStep::Done(single_playlist(&self.info)),
        }
    }
}

/// The `view` API answer is usable when its `code` is 0; otherwise the
/// failure carries the answer's `message` as JSON text.
pub fn check_view_answer(code: Option<i64>, message: String) -> (r: Result<(), BiliError>)
    ensures
        code == Some(0i64) ==> r is Ok,
        code != Some(0i64) ==> (r matches Err(BiliError::Api { message: m }) && m == message),
{
    if code == Some(0i64) {
        Ok(())
    } else {
        Err(BiliError::Api { message })
    }
}

} // verus!
