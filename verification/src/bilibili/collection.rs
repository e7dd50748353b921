//! Playlists: multi-part videos and collections ("ugc seasons").

use vstd::prelude::*;
use super::{PlaylistVideo, PlaylistVideoView, PlaylistResult, PlaylistResultView, videos_view};
use crate::text::{trim, trim_seq, to_owned_string, opt_view, strings_view};
use crate::fmt::{decimal, push_decimal};

verus! {

/// What the logic reads of one episode object of a collection section:
/// `bvid`, `arc.bvid`, `title`, `arc.title`, `page.cid` and `cid`, each when
/// present with the right JSON type.
#[derive(Debug, Clone, Default)]
pub struct EpisodeData {
    pub bvid: Option<String>,
    pub arc_bvid: Option<String>,
    pub title: Option<String>,
    pub arc_title: Option<String>,
    pub page_cid: Option<i64>,
    pub cid: Option<i64>,
}

/// A section of a collection: its `episodes` when that is an array.
#[derive(Debug, Clone, Default)]
pub struct SectionData {
    pub episodes: Option<Vec<EpisodeData>>,
}

/// A collection ("ugc season"): its `title` when a string, its `sections`
/// when an array.
#[derive(Debug, Clone, Default)]
pub struct UgcSeason {
    pub title: Option<String>,
    pub sections: Option<Vec<SectionData>>,
}

/// The result of looking up the cid of a video that an episode lacks:
/// `None` where the lookup failed.
#[derive(Debug, Clone)]
pub struct CidLookup {
    pub bvid: String,
    pub cid: Option<i64>,
}

/// The episode's BV id: `bvid`, else `arc.bvid`.
pub open spec fn episode_bvid(e: EpisodeData) -> Option<Seq<char>> {
    match e.bvid {
        Some(b) => Some(b@),
        None => opt_view(e.arc_bvid),
    }
}

/// The episode's title: `title`, else `arc.title`.
pub open spec fn episode_title(e: EpisodeData) -> Option<Seq<char>> {
    match e.title {
        Some(t) => Some(t@),
        None => opt_view(e.arc_title),
    }
}

/// The episode's cid: `page.cid`, else `cid`.
pub open spec fn episode_cid(e: EpisodeData) -> Option<i64> {
    match e.page_cid {
        Some(c) => Some(c),
        None => e.cid,
    }
}

pub fn extract_episode_bvid(episode: &EpisodeData) -> (r: Option<String>)
    ensures
        opt_view(r) == episode_bvid(*episode),
{
    match &episode.bvid {
        Some(b) => Some(b.clone()),
        None => match &episode.arc_bvid {
            Some(b) => Some(b.clone()),
            None => None,
        },
    }
}

pub fn extract_episode_title(episode: &EpisodeData) -> (r: Option<String>)
    ensures
        opt_view(r) == episode_title(*episode),
{
    match &episode.title {
        Some(t) => Some(t.clone()),
        None => match &episode.arc_title {
            Some(t) => Some(t.clone()),
            None => None,
        },
    }
}

pub fn extract_episode_cid(episode: &EpisodeData) -> (r: Option<i64>)
    ensures
        r == episode_cid(*episode),
{
    match episode.page_cid {
        Some(c) => Some(c),
        None => episode.cid,
    }
}

/// Some episode of the section has BV id `bvid`.
pub open spec fn section_has(section: SectionData, bvid: Seq<char>) -> bool {
    match section.episodes {
        Some(eps) => exists|i: int| 0 <= i < eps@.len() && episode_bvid(#[trigger] eps@[i]) == Some(bvid),
        None => false,
    }
}

fn opt_string_eq(a: &Option<String>, b: &str) -> (r: bool)
    ensures
        r == (opt_view(*a) == Some(b@)),
{
    match a {
        Some(s) => crate::text::str_eq(s.as_str(), b),
        None => false,
    }
}

pub fn section_contains_bvid(section: &SectionData, bvid: &str) -> (r: bool)
    ensures
        r == section_has(*section, bvid@),
{
    match &section.episodes {
        Some(eps) => {
            let mut i: usize = 0;
            while i < eps.len()
                invariant
                    i <= eps.len(),
                    section.episodes == Some(*eps),
                    forall|k: int| 0 <= k < i ==> episode_bvid(#[trigger] eps@[k]) != Some(bvid@),
                decreases eps.len() - i,
            {
                let b = extract_episode_bvid(&eps[i]);
                if opt_string_eq(&b, bvid) {
                    assert(episode_bvid(eps@[i as int]) == Some(bvid@));
                    return true;
                }
                i = i + 1;
            }
            false
        },
        None => false,
    }
}

/// Default title of the `n`-th entry of a collection: `选集 n`.
pub open spec fn default_episode_title(n: nat) -> Seq<char> {
    "选集 "@ + decimal(n)
}

/// Result of the cid lookup for `bvid`: the first lookup of that video;
/// `None` where it failed or there is none.
pub open spec fn lookup_cid(lookups: Seq<CidLookup>, bvid: Seq<char>) -> Option<i64>
    decreases lookups.len(),
{
    if lookups.len() == 0 {
        None
    } else if lookups[0].bvid@ == bvid {
        lookups[0].cid
    } else {
        lookup_cid(lookups.drop_first(), bvid)
    }
}

/// One episode folded into (BV ids seen, entries so far): episodes without
/// a BV id, or with one already seen, are skipped; a new BV id is marked
/// seen, and its entry kept when a cid is known, from the episode or else
/// from the lookup.
pub open spec fn collect_episode(
    acc: (Seq<Seq<char>>, Seq<PlaylistVideoView>),
    e: EpisodeData,
    lookups: Seq<CidLookup>,
) -> (Seq<Seq<char>>, Seq<PlaylistVideoView>) {
    match episode_bvid(e) {
        None => acc,
        Some(b) => if acc.0.contains(b) {
            acc
        } else {
            let seen = acc.0.push(b);
            let cid = match episode_cid(e) {
                Some(c) => Some(c),
                None => lookup_cid(lookups, b),
            };
            match cid {
                None => (seen, acc.1),
                Some(c) => {
                    let n = acc.1.len() + 1;
                    let title = match episode_title(e) {
                        Some(t) => t,
                        None => default_episode_title(n),
                    };
                    (seen, acc.1.push(PlaylistVideoView { bvid: b, cid: c, title, index: n as i32 }))
                },
            }
        },
    }
}

pub open spec fn collect_episodes(eps: Seq<EpisodeData>, lookups: Seq<CidLookup>) -> (
    Seq<Seq<char>>,
    Seq<PlaylistVideoView>,
)
    decreases eps.len(),
{
    if eps.len() == 0 {
        (seq![], seq![])
    } else {
        collect_episode(collect_episodes(eps.drop_last(), lookups), eps.last(), lookups)
    }
}

/// The BV ids whose cid must be looked up: the first episode of each BV id,
/// in order, when it carries no cid.
pub open spec fn lookups_needed(eps: Seq<EpisodeData>) -> Seq<Seq<char>>
    decreases eps.len(),
{
    if eps.len() == 0 {
        seq![]
    } else {
        let rest = lookups_needed(eps.drop_last());
        let e = eps.last();
        match episode_bvid(e) {
            Some(b) => if !seen_before(eps.drop_last(), b) && episode_cid(e) is None {
                rest.push(b)
            } else {
                rest
            },
            None => rest,
        }
    }
}

/// Some episode of `eps` has BV id `b`.
pub open spec fn seen_before(eps: Seq<EpisodeData>, b: Seq<char>) -> bool {
    exists|i: int| 0 <= i < eps.len() && episode_bvid(#[trigger] eps[i]) == Some(b)
}

/// The first section holding `bvid`.
pub open spec fn first_section_with(sections: Seq<SectionData>, bvid: Seq<char>) -> Option<SectionData>
    decreases sections.len(),
{
    if sections.len() == 0 {
        None
    } else if section_has(sections[0], bvid) {
        Some(sections[0])
    } else {
        first_section_with(sections.drop_first(), bvid)
    }
}

/// The episodes of the section holding `bvid`: none where the collection has
/// no sections, no section holds the video, or its episode list is empty.
pub open spec fn current_episodes(season: UgcSeason, bvid: Seq<char>) -> Option<Seq<EpisodeData>> {
    match season.sections {
        Some(secs) => if secs@.len() == 0 {
            None
        } else {
            match first_section_with(secs@, bvid) {
                Some(sec) => match sec.episodes {
                    Some(eps) => if eps@.len() == 0 {
                        None
                    } else {
                        Some(eps@)
                    },
                    None => None,
                },
                None => None,
            }
        },
        None => None,
    }
}

/// The collection's title: its own when not blank, else `default_title`.
pub open spec fn collection_title(season: UgcSeason, default_title: Seq<char>) -> Seq<char> {
    match season.title {
        Some(t) => if trim_seq(t@).len() > 0 {
            t@
        } else {
            default_title
        },
        None => default_title,
    }
}

/// The playlist a collection yields for the video `bvid`: the entries of
/// its section, when there are at least two.
pub open spec fn collection_spec(
    season: UgcSeason,
    bvid: Seq<char>,
    default_title: Seq<char>,
    lookups: Seq<CidLookup>,
) -> Option<PlaylistResultView> {
    match current_episodes(season, bvid) {
        None => None,
        Some(eps) => {
            let videos = collect_episodes(eps, lookups).1;
            if videos.len() <= 1 {
                None
            } else {
                Some(
                    PlaylistResultView {
                        kind: "collection"@,
                        title: collection_title(season, default_title),
                        videos,
                    },
                )
            }
        },
    }
}

fn seq_of_strings_contains(v: &Vec<String>, b: &str) -> (r: bool)
    ensures
        r == strings_view(v@).contains(b@),
{
    let mut i: usize = 0;
    while i < v.len()
        invariant
            i <= v.len(),
            forall|k: int| 0 <= k < i ==> (#[trigger] v@[k])@ != b@,
        decreases v.len() - i,
    {
        if crate::text::str_eq(v[i].as_str(), b) {
            assert(strings_view(v@)[i as int] == b@);
            return true;
        }
        i = i + 1;
    }
    proof {
        if strings_view(v@).contains(b@) {
            let k = choose|k: int| 0 <= k < v@.len() && #[trigger] strings_view(v@)[k] == b@;
            assert((v@[k])@ != b@);
        }
    }
    false
}

fn find_lookup(lookups: &Vec<CidLookup>, b: &str) -> (r: Option<i64>)
    ensures
        r == lookup_cid(lookups@, b@),
{
    let mut i: usize = 0;
    assert(lookups@.subrange(0, lookups@.len() as int) =~= lookups@);
    while i < lookups.len()
        invariant
            i <= lookups.len(),
            lookup_cid(lookups@, b@) == lookup_cid(lookups@.subrange(i as int, lookups@.len() as int), b@),
        decreases lookups.len() - i,
    {
        let ghost rest = lookups@.subrange(i as int, lookups@.len() as int);
        assert(rest[0] == lookups@[i as int]);
        assert(rest.drop_first() =~= lookups@.subrange(i + 1, lookups@.len() as int));
        if crate::text::str_eq(lookups[i].bvid.as_str(), b) {
            return lookups[i].cid;
        }
        i = i + 1;
    }
    None
}

/// `选集 n`.
fn default_title_exec(n: usize) -> (s: String)
    ensures
        s@ == default_episode_title(n as nat),
{
    let mut s = to_owned_string("选集 ");
    push_decimal(&mut s, n as u128);
    s
}

/// Folds episodes into playlist entries, as `collect_episodes` describes.
pub fn collect_episode_videos(eps: &Vec<EpisodeData>, lookups: &Vec<CidLookup>) -> (r: Vec<PlaylistVideo>)
    ensures
        videos_view(r@) == collect_episodes(eps@, lookups@).1,
{
    let mut seen: Vec<String> = Vec::new();
    let mut videos: Vec<PlaylistVideo> = Vec::new();
    let mut i: usize = 0;
    while i < eps.len()
        invariant
            i <= eps.len(),
            strings_view(seen@) == collect_episodes(eps@.take(i as int), lookups@).0,
            videos_view(videos@) == collect_episodes(eps@.take(i as int), lookups@).1,
            videos@.len() <= i,
        decreases eps.len() - i,
    {
        let ghost prev = collect_episodes(eps@.take(i as int), lookups@);
        assert(eps@.take(i + 1).drop_last() =~= eps@.take(i as int));
        assert(eps@.take(i + 1).last() == eps@[i as int]);
        let e = &eps[i];
        i = i + 1;
        let b = match extract_episode_bvid(e) {
            Some(b) => b,
            None => {
                continue;
            },
        };
        if seq_of_strings_contains(&seen, b.as_str()) {
            continue;
        }
        let ghost old_seen = seen@;
        seen.push(b.clone());
        assert(strings_view(seen@) =~= strings_view(old_seen).push(b@));
        let cid = match extract_episode_cid(e) {
            Some(c) => c,
            None => match find_lookup(lookups, b.as_str()) {
                Some(c) => c,
                None => {
                    continue;
                },
            },
        };
        let n = videos.len() + 1;
        let title = match extract_episode_title(e) {
            Some(t) => t,
            None => default_title_exec(n),
        };
        let ghost old_videos = videos@;
        videos.push(PlaylistVideo { bvid: b, cid, title, index: n as i32 });
        assert(videos_view(videos@) =~= videos_view(old_videos).push(videos@[videos@.len() - 1]@));
    }
    assert(eps@.take(eps@.len() as int) =~= eps@);
    videos
}

/// The cids to look up before a collection can be built.
pub fn cid_lookups_needed(eps: &Vec<EpisodeData>) -> (r: Vec<String>)
    ensures
        strings_view(r@) == lookups_needed(eps@),
{
    let mut out: Vec<String> = Vec::new();
    let mut i: usize = 0;
    while i < eps.len()
        invariant
            i <= eps.len(),
            strings_view(out@) == lookups_needed(eps@.take(i as int)),
        decreases eps.len() - i,
    {
        assert(eps@.take(i + 1).drop_last() =~= eps@.take(i as int));
        assert(eps@.take(i + 1).last() == eps@[i as int]);
        let e = &eps[i];
        match extract_episode_bvid(e) {
            Some(b) => {
                let mut before = false;
                let mut j: usize = 0;
                while j < i
                    invariant
                        j <= i < eps.len(),
                        !before ==> forall|k: int| 0 <= k < j ==> episode_bvid(#[trigger] eps@[k]) != Some(b@),
                        before ==> seen_before(eps@.take(i as int), b@),
                    decreases i - j,
                {
                    let bj = extract_episode_bvid(&eps[j]);
                    if !before && opt_string_eq(&bj, b.as_str()) {
                        before = true;
                        assert(eps@.take(i as int)[j as int] == eps@[j as int]);
                    }
                    j = j + 1;
                }
                proof {
                    if !before && seen_before(eps@.take(i as int), b@) {
                        let k = choose|k: int| 0 <= k < i && episode_bvid(#[trigger] eps@.take(i as int)[k]) == Some(b@);
                        assert(eps@.take(i as int)[k] == eps@[k]);
                    }
                }
                if !before && extract_episode_cid(e).is_none() {
                    let ghost old_out = out@;
                    out.push(b);
                    assert(strings_view(out@) =~= strings_view(old_out).push(b@));
                }
            },
            None => {},
        }
        i = i + 1;
    }
    assert(eps@.take(eps@.len() as int) =~= eps@);
    out
}

/// The episodes of the section holding `bvid`, as `current_episodes` describes.
pub fn current_section_episodes<'a>(season: &'a UgcSeason, bvid: &str) -> (r: Option<&'a Vec<EpisodeData>>)
    ensures
        match current_episodes(*season, bvid@) {
            Some(eps) => r is Some && r->0@ == eps,
            None => r is None,
        },
{
    let sections = match &season.sections {
        Some(s) => s,
        None => return None,
    };
    if sections.len() == 0 {
        return None;
    }
    let mut i: usize = 0;
    assert(sections@.subrange(0, sections@.len() as int) =~= sections@);
    while i < sections.len()
        invariant
            i <= sections.len(),
            season.sections == Some(*sections),
            sections@.len() > 0,
            first_section_with(sections@, bvid@) == first_section_with(
                sections@.subrange(i as int, sections@.len() as int),
                bvid@,
            ),
        decreases sections.len() - i,
    {
        let ghost rest = sections@.subrange(i as int, sections@.len() as int);
        assert(rest[0] == sections@[i as int]);
        assert(rest.drop_first() =~= sections@.subrange(i + 1, sections@.len() as int));
        if section_contains_bvid(&sections[i], bvid) {
            assert(first_section_with(rest, bvid@) == Some(sections@[i as int]));
            return match &sections[i].episodes {
                Some(eps) => if eps.len() == 0 {
                    None
                } else {
                    Some(eps)
                },
                None => None,
            };
        }
        i = i + 1;
    }
    None
}

/// The cids to look up before `build_collection_from_ugc_season` runs.
pub fn collection_lookups(season: &UgcSeason, current_bvid: &str) -> (r: Vec<String>)
    ensures
        match current_episodes(*season, current_bvid@) {
            Some(eps) => strings_view(r@) == lookups_needed(eps),
            None => r@.len() == 0,
        },
{
    match current_section_episodes(season, current_bvid) {
        Some(eps) => cid_lookups_needed(eps),
        None => Vec::new(),
    }
}

fn season_title(season: &UgcSeason, default_title: &str) -> (t: String)
    ensures
        t@ == collection_title(*season, default_title@),
{
    match &season.title {
        Some(t) => {
            let tt = trim(t.as_str());
            if tt.as_str().unicode_len() > 0 {
                t.clone()
            } else {
                to_owned_string(default_title)
            }
        },
        None => to_owned_string(default_title),
    }
}

/// The playlist of the collection section holding `current_bvid`, given the
/// results of the cid lookups it needed.
pub fn build_collection_from_ugc_season(
    season: &UgcSeason,
    current_bvid: &str,
    default_title: &str,
    lookups: &Vec<CidLookup>,
) -> (r: Option<PlaylistResult>)
    ensures
        match collection_spec(*season, current_bvid@, default_title@, lookups@) {
            Some(p) => r is Some && r->0@ == p,
            None => r is None,
        },
{
    let eps = match current_section_episodes(season, current_bvid) {
        Some(eps) => eps,
        None => return None,
    };
    let videos = collect_episode_videos(eps, lookups);
    if videos.len() <= 1 {
        return None;
    }
    let title = season_title(season, default_title);
    Some(PlaylistResult { kind: to_owned_string("collection"), title, videos })
}

/// Entries numbered 1, 2, … in order, each with a BV id of its own.
pub open spec fn entries_well_numbered(v: Seq<PlaylistVideoView>) -> bool {
    &&& forall|i: int| 0 <= i < v.len() ==> (#[trigger] v[i]).index == i + 1
    &&& forall|i: int, j: int| 0 <= i < j < v.len() ==> (#[trigger] v[i]).bvid != (#[trigger] v[j]).bvid
}

/// What folding episodes keeps: the entries are well numbered, no more than
/// the episodes, and their BV ids are all marked seen.
proof fn lemma_collect_invariant(eps: Seq<EpisodeData>, lookups: Seq<CidLookup>)
    requires
        eps.len() <= i32::MAX,
    ensures
        entries_well_numbered(collect_episodes(eps, lookups).1),
        collect_episodes(eps, lookups).1.len() <= eps.len(),
        forall|i: int|
            0 <= i < collect_episodes(eps, lookups).1.len() ==> collect_episodes(eps, lookups).0.contains(
                (#[trigger] collect_episodes(eps, lookups).1[i]).bvid,
            ),
    decreases eps.len(),
{
    if eps.len() > 0 {
        lemma_collect_invariant(eps.drop_last(), lookups);
        let acc = collect_episodes(eps.drop_last(), lookups);
        let e = eps.last();
        let next = collect_episode(acc, e, lookups);
        assert(next == collect_episodes(eps, lookups));
        match episode_bvid(e) {
            None => {},
            Some(b) => {
                if !acc.0.contains(b) {
                    let seen = acc.0.push(b);
                    assert forall|i: int| 0 <= i < acc.1.len() implies seen.contains(
                        (#[trigger] acc.1[i]).bvid,
                    ) by {
                        let k = choose|k: int| 0 <= k < acc.0.len() && acc.0[k] == acc.1[i].bvid;
                        assert(seen[k] == acc.1[i].bvid);
                    }
                    assert forall|i: int| 0 <= i < acc.1.len() implies (#[trigger] acc.1[i]).bvid != b by {
                        assert(acc.0.contains(acc.1[i].bvid));
                    }
                    assert(seen[acc.0.len() as int] == b);
                }
            },
        }
    }
}

/// Law: the entries of a collection playlist are numbered 1, 2, … in order,
/// no BV id occurs twice, and there are at least two of them.
pub proof fn lemma_collection_entries(
    season: UgcSeason,
    bvid: Seq<char>,
    default_title: Seq<char>,
    lookups: Seq<CidLookup>,
)
    requires
        current_episodes(season, bvid) matches Some(eps) ==> eps.len() <= i32::MAX,
    ensures
        collection_spec(season, bvid, default_title, lookups) matches Some(p) ==> {
            &&& p.videos.len() >= 2
            &&& entries_well_numbered(p.videos)
        },
{
    if let Some(eps) = current_episodes(season, bvid) {
        lemma_collect_invariant(eps, lookups);
    }
}

} // verus!
