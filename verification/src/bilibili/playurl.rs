//! Choosing the video and audio streams of a `playurl` API answer, probing
//! candidate URLs one at a time, and falling back to lower qualities.

use vstd::prelude::*;
use super::{PlayUrlResult, BiliError};
use crate::text::{contains_seq, str_contains, concat};

verus! {

/// What the logic reads of a `playurl` API answer: `code`, `message` (as
/// rendered JSON), `data.quality`, and the `baseUrl` of each entry of
/// `data.dash.video` and `data.dash.audio` when those are arrays.
#[derive(Debug, Clone, Default)]
pub struct PlayUrlResponse {
    pub code: Option<i64>,
    pub message: String,
    pub quality: Option<i64>,
    pub video_urls: Option<Vec<Option<String>>>,
    pub audio_urls: Option<Vec<Option<String>>>,
}

pub struct PlayUrlView {
    pub video_url: Seq<char>,
    pub audio_url: Seq<char>,
    pub video_quality: i32,
    pub video_size: u64,
    pub audio_size: u64,
}

impl View for PlayUrlResult {
    type V = PlayUrlView;

    open spec fn view(&self) -> PlayUrlView {
        PlayUrlView {
            video_url: self.video_url@,
            audio_url: self.audio_url@,
            video_quality: self.video_quality,
            video_size: self.video_size,
            audio_size: self.audio_size,
        }
    }
}

/// Where the probing stands.
#[derive(Debug, Clone)]
pub enum ProbePhase {
    /// Awaiting the check of video candidate `next`.
    Video { next: usize },
    /// A video URL is chosen; awaiting the check of audio candidate `next`.
    Audio { video_url: String, next: usize },
    /// The result is decided.
    Finished,
}

/// The next thing to do.
#[derive(Debug)]
pub enum ProbeStep {
    /// Check whether this URL answers (a HEAD request with status 200 or 206),
    /// then call `on_validated`.
    Validate(String),
    /// The streams are decided, or no usable one exists.
    Done(Result<PlayUrlResult, BiliError>),
}

/// Probing of the candidate streams of one `playurl` answer.
#[derive(Debug, Clone)]
pub struct PlayUrlProbe {
    pub resp: PlayUrlResponse,
    pub phase: ProbePhase,
}

pub enum PhaseView {
    Video { next: int },
    Audio { video_url: Seq<char>, next: int },
    Finished,
}

pub enum StepView {
    Validate(Seq<char>),
    Done(Result<PlayUrlView, BiliError>),
}

pub open spec fn phase_view(p: ProbePhase) -> PhaseView {
    match p {
        ProbePhase::Video { next } => PhaseView::Video { next: next as int },
        ProbePhase::Audio { video_url, next } => PhaseView::Audio { video_url: video_url@, next: next as int },
        ProbePhase::Finished => PhaseView::Finished,
    }
}

pub open spec fn step_view(s: ProbeStep) -> StepView {
    match s {
        ProbeStep::Validate(u) => StepView::Validate(u@),
        ProbeStep::Done(r) => StepView::Done(
            match r {
                Ok(p) => Ok(p@),
                Err(e) => Err(e),
            },
        ),
    }
}

/// The candidate URLs of a stream list.
pub open spec fn candidates(o: Option<Vec<Option<String>>>) -> Seq<Option<Seq<char>>> {
    match o {
        Some(v) => v@.map_values(|u: Option<String>| match u {
            Some(s) => Some(s@),
            None => None,
        }),
        None => seq![],
    }
}

/// First candidate at or after `k` that has a URL.
pub open spec fn next_url(c: Seq<Option<Seq<char>>>, k: int) -> Option<int>
    decreases c.len() - k,
{
    if k < 0 || k >= c.len() {
        None
    } else if c[k] is Some {
        Some(k)
    } else {
        next_url(c, k + 1)
    }
}

proof fn lemma_next_url(c: Seq<Option<Seq<char>>>, k: int)
    ensures
        next_url(c, k) matches Some(i) ==> 0 <= k <= i < c.len() && c[i] is Some,
    decreases c.len() - k,
{
    if 0 <= k < c.len() && c[k] is None {
        lemma_next_url(c, k + 1);
    }
}

/// The result once both URLs are chosen: the answer's quality is required.
pub open spec fn finish_spec(r: PlayUrlResponse, video: Seq<char>, audio: Seq<char>) -> Result<PlayUrlView, BiliError> {
    match r.quality {
        Some(q) => Ok(PlayUrlView { video_url: video, audio_url: audio, video_quality: q as i32, video_size: 0, audio_size: 0 }),
        None => Err(BiliError::MissingQuality),
    }
}

/// Next audio candidate to check from `k` on; when none is left, the first
/// audio entry's URL is taken as it is. No audio list at all, or an empty
/// one, counts as no video stream.
pub open spec fn audio_advance(r: PlayUrlResponse, video: Seq<char>, k: int) -> (PhaseView, StepView) {
    let ac = candidates(r.audio_urls);
    if ac.len() == 0 {
        (PhaseView::Finished, StepView::Done(Err(BiliError::NoVideoStream)))
    } else {
        match next_url(ac, k) {
            Some(i) => (PhaseView::Audio { video_url: video, next: i }, StepView::Validate(ac[i]->0)),
            None => match ac[0] {
                Some(a) => (PhaseView::Finished, StepView::Done(finish_spec(r, video, a))),
                None => (PhaseView::Finished, StepView::Done(Err(BiliError::NoAudioStream))),
            },
        }
    }
}

/// Next video candidate to check from `k` on; when none is left, the first
/// video entry's URL is taken as it is, and the audio probing starts.
pub open spec fn video_advance(r: PlayUrlResponse, k: int) -> (PhaseView, StepView) {
    let vc = candidates(r.video_urls);
    match next_url(vc, k) {
        Some(i) => (PhaseView::Video { next: i }, StepView::Validate(vc[i]->0)),
        None => if vc.len() > 0 && vc[0] is Some {
            audio_advance(r, vc[0]->0, 0)
        } else {
            (PhaseView::Finished, StepView::Done(Err(BiliError::NoVideoStream)))
        },
    }
}

/// The first candidate at or after `k` with a URL is the next one.
proof fn lemma_next_url_first(c: Seq<Option<Seq<char>>>, k: int, i: int)
    requires
        0 <= k <= i < c.len(),
        c[i] is Some,
        forall|j: int| k <= j < i ==> #[trigger] c[j] is None,
    ensures
        next_url(c, k) == Some(i),
    decreases i - k,
{
    if k < i {
        lemma_next_url_first(c, k + 1, i);
    }
}

/// No candidate at or after `k` has a URL: there is no next one.
proof fn lemma_next_url_none(c: Seq<Option<Seq<char>>>, k: int)
    requires
        0 <= k,
        forall|j: int| k <= j < c.len() ==> #[trigger] c[j] is None,
    ensures
        next_url(c, k) is None,
    decreases c.len() - k,
{
    if k < c.len() {
        lemma_next_url_none(c, k + 1);
    }
}

/// Law: audio candidates are probed in order. From candidate `k` on, the
/// first one that has a URL is checked next. When none is left, the first
/// audio entry of the answer is used as it is, as the last attempt (no audio
/// stream when it has no URL), together with the chosen video URL and the
/// answer's quality. An empty or absent audio list means no stream.
pub proof fn lemma_audio_probing(r: PlayUrlResponse, video: Seq<char>, k: int)
    requires
        0 <= k,
    ensures
        candidates(r.audio_urls).len() == 0 ==> audio_advance(r, video, k) == (
            PhaseView::Finished,
            StepView::Done(Err(BiliError::NoVideoStream)),
        ),
        forall|i: int|
            k <= i < candidates(r.audio_urls).len() && (#[trigger] candidates(r.audio_urls)[i]) is Some
                && (forall|j: int| k <= j < i ==> candidates(r.audio_urls)[j] is None) ==> audio_advance(
                r,
                video,
                k,
            ) == (
                PhaseView::Audio { video_url: video, next: i },
                StepView::Validate(candidates(r.audio_urls)[i]->0),
            ),
        candidates(r.audio_urls).len() > 0 && (forall|j: int|
            k <= j < candidates(r.audio_urls).len() ==> candidates(r.audio_urls)[j] is None) ==> audio_advance(
            r,
            video,
            k,
        ) == (
            PhaseView::Finished,
            StepView::Done(
                match candidates(r.audio_urls)[0] {
                    Some(a) => match r.quality {
                        Some(q) => Ok(
                            PlayUrlView {
                                video_url: video,
                                audio_url: a,
                                video_quality: q as i32,
                                video_size: 0,
                                audio_size: 0,
                            },
                        ),
                        None => Err(BiliError::MissingQuality),
                    },
                    None => Err(BiliError::NoAudioStream),
                },
            ),
        ),
{
    let ac = candidates(r.audio_urls);
    assert forall|i: int|
        k <= i < ac.len() && (#[trigger] ac[i]) is Some && (forall|j: int| k <= j < i ==> ac[j] is None) implies audio_advance(
        r,
        video,
        k,
    ) == (PhaseView::Audio { video_url: video, next: i }, StepView::Validate(ac[i]->0)) by {
        lemma_next_url_first(ac, k, i);
    }
    if forall|j: int| k <= j < ac.len() ==> ac[j] is None {
        lemma_next_url_none(ac, k);
    }
}

/// Law: once both URLs are chosen, the result carries the video URL, the
/// audio URL and the answer's quality, with sizes not yet known; an answer
/// without a quality gives no result.
pub proof fn lemma_finish_result(r: PlayUrlResponse, video: Seq<char>, audio: Seq<char>)
    ensures
        r.quality is None ==> finish_spec(r, video, audio) == Err::<PlayUrlView, BiliError>(BiliError::MissingQuality),
        r.quality matches Some(q) ==> finish_spec(r, video, audio) is Ok && finish_spec(r, video, audio)->Ok_0
            .video_url == video && finish_spec(r, video, audio)->Ok_0.audio_url == audio && finish_spec(
            r,
            video,
            audio,
        )->Ok_0.video_quality == q as i32 && finish_spec(r, video, audio)->Ok_0.video_size == 0
            && finish_spec(r, video, audio)->Ok_0.audio_size == 0,
{
}

/// Law: video candidates are probed in order. From candidate `k` on, the
/// first one that has a URL is checked next. When none is left, the first
/// video entry of the answer is used as it is and the audio probing starts
/// from the first audio candidate; without a first video URL there is no
/// video stream.
pub proof fn lemma_video_probing(r: PlayUrlResponse, k: int)
    requires
        0 <= k,
    ensures
        forall|i: int|
            k <= i < candidates(r.video_urls).len() && (#[trigger] candidates(r.video_urls)[i]) is Some
                && (forall|j: int| k <= j < i ==> candidates(r.video_urls)[j] is None) ==> video_advance(r, k)
                == (PhaseView::Video { next: i }, StepView::Validate(candidates(r.video_urls)[i]->0)),
        (forall|j: int| k <= j < candidates(r.video_urls).len() ==> candidates(r.video_urls)[j] is None)
            ==> video_advance(r, k) == (if candidates(r.video_urls).len() > 0 && candidates(
            r.video_urls,
        )[0] is Some {
            audio_advance(r, candidates(r.video_urls)[0]->0, 0)
        } else {
            (PhaseView::Finished, StepView::Done(Err(BiliError::NoVideoStream)))
        }),
{
    let vc = candidates(r.video_urls);
    assert forall|i: int|
        k <= i < vc.len() && (#[trigger] vc[i]) is Some && (forall|j: int| k <= j < i ==> vc[j] is None) implies video_advance(
        r,
        k,
    ) == (PhaseView::Video { next: i }, StepView::Validate(vc[i]->0)) by {
        lemma_next_url_first(vc, k, i);
    }
    if forall|j: int| k <= j < vc.len() ==> vc[j] is None {
        lemma_next_url_none(vc, k);
    }
}

/// The probe's phase points at a candidate that has a URL.
pub open spec fn probe_wf(p: PlayUrlProbe) -> bool {
    match p.phase {
        ProbePhase::Video { next } => next < candidates(p.resp.video_urls).len()
            && candidates(p.resp.video_urls)[next as int] is Some,
        ProbePhase::Audio { video_url, next } => next < candidates(p.resp.audio_urls).len()
            && candidates(p.resp.audio_urls)[next as int] is Some,
        ProbePhase::Finished => true,
    }
}

fn url_at(v: &Vec<Option<String>>, i: usize) -> (r: Option<String>)
    requires
        i < v.len(),
    ensures
        r matches Some(s) ==> Some(s@) == candidates(Some(*v))[i as int],
        r is None ==> candidates(Some(*v))[i as int] is None,
{
    match &v[i] {
        Some(s) => Some(s.clone()),
        None => None,
    }
}

fn next_url_exec(v: &Vec<Option<String>>, k: usize) -> (r: Option<usize>)
    ensures
        match next_url(candidates(Some(*v)), k as int) {
            Some(i) => r == Some(i as usize),
            None => r is None,
        },
{
    let ghost c = candidates(Some(*v));
    let mut i = k;
    while i < v.len()
        invariant
            k <= i,
            c == candidates(Some(*v)),
            c.len() == v.len(),
            next_url(c, k as int) == next_url(c, i as int),
        decreases v.len() - i,
    {
        if v[i].is_some() {
            assert(c[i as int] is Some);
            return Some(i);
        }
        assert(c[i as int] is None);
        i = i + 1;
    }
    None
}

fn finish(resp: &PlayUrlResponse, video: String, audio: String) -> (r: Result<PlayUrlResult, BiliError>)
    ensures
        match finish_spec(*resp, video@, audio@) {
            Ok(p) => r is Ok && r->Ok_0@ == p,
            Err(e) => r == Err::<PlayUrlResult, BiliError>(e),
        },
{
    match resp.quality {
        Some(q) => Ok(PlayUrlResult { video_url: video, audio_url: audio, video_quality: q as i32, video_size: 0, audio_size: 0 }),
        None => Err(BiliError::MissingQuality),
    }
}

fn audio_advance_exec(resp: &PlayUrlResponse, video: String, k: usize) -> (r: (ProbePhase, ProbeStep))
    ensures
        (phase_view(r.0), step_view(r.1)) == audio_advance(*resp, video@, k as int),
        probe_wf(PlayUrlProbe { resp: *resp, phase: r.0 }),
{
    let ac = match &resp.audio_urls {
        Some(a) => a,
        None => return (ProbePhase::Finished, ProbeStep::Done(Err(BiliError::NoVideoStream))),
    };
    if ac.len() == 0 {
        return (ProbePhase::Finished, ProbeStep::Done(Err(BiliError::NoVideoStream)));
    }
    proof {
        lemma_next_url(candidates(Some(*ac)), k as int);
    }
    match next_url_exec(ac, k) {
        Some(i) => {
            let u = url_at(ac, i);
            match u {
                Some(u) => (ProbePhase::Audio { video_url: video, next: i }, ProbeStep::Validate(u)),
                None => (ProbePhase::Finished, ProbeStep::Done(Err(BiliError::NoAudioStream))),
            }
        },
        None => match url_at(ac, 0) {
            Some(a) => {
                let r = finish(resp, video, a);
                (ProbePhase::Finished, ProbeStep::Done(r))
            },
            None => (ProbePhase::Finished, ProbeStep::Done(Err(BiliError::NoAudioStream))),
        },
    }
}

fn video_advance_exec(resp: &PlayUrlResponse, k: usize) -> (r: (ProbePhase, ProbeStep))
    ensures
        (phase_view(r.0), step_view(r.1)) == video_advance(*resp, k as int),
        probe_wf(PlayUrlProbe { resp: *resp, phase: r.0 }),
{
    let vc = match &resp.video_urls {
        Some(v) => v,
        None => return (ProbePhase::Finished, ProbeStep::Done(Err(BiliError::NoVideoStream))),
    };
    proof {
        lemma_next_url(candidates(Some(*vc)), k as int);
    }
    match next_url_exec(vc, k) {
        Some(i) => match url_at(vc, i) {
            Some(u) => (ProbePhase::Video { next: i }, ProbeStep::Validate(u)),
            None => (ProbePhase::Finished, ProbeStep::Done(Err(BiliError::NoVideoStream))),
        },
        None => {
            if vc.len() > 0 {
                match url_at(vc, 0) {
                    Some(u) => audio_advance_exec(resp, u, 0),
                    None => (ProbePhase::Finished, ProbeStep::Done(Err(BiliError::NoVideoStream))),
                }
            } else {
                (ProbePhase::Finished, ProbeStep::Done(Err(BiliError::NoVideoStream)))
            }
        },
    }
}

impl PlayUrlProbe {
    /// Starts on an answer: a non-zero code is an API error; otherwise the
    /// first video candidate is to be checked.
    pub fn start(resp: PlayUrlResponse) -> (r: (PlayUrlProbe, ProbeStep))
        ensures
            r.0.resp == resp,
            probe_wf(r.0),
            resp.code != Some(0i64) ==> phase_view(r.0.phase) == PhaseView::Finished && step_view(r.1)
                == StepView::Done(Err(BiliError::Api { message: resp.message })),
            resp.code == Some(0i64) ==> (phase_view(r.0.phase), step_view(r.1)) == video_advance(resp, 0),
    {
        let ok = match resp.code {
            Some(c) => c == 0,
            None => false,
        };
        if !ok {
            let message = resp.message.clone();
            return (PlayUrlProbe { resp, phase: ProbePhase::Finished }, ProbeStep::Done(Err(BiliError::Api { message })));
        }
        let (phase, step) = video_advance_exec(&resp, 0);
        (PlayUrlProbe { resp, phase }, step)
    }

    /// Takes the answer of the last check: a video URL that answers is chosen
    /// and the audio probing starts; an audio URL that answers ends the
    /// probing; otherwise the next candidate is tried.
    pub fn on_validated(&mut self, valid: bool) -> (step: ProbeStep)
        requires
            probe_wf(*old(self)),
            !(old(self).phase is Finished),
        ensures
            final(self).resp == old(self).resp,
            probe_wf(*final(self)),
            match old(self).phase {
                ProbePhase::Video { next } => (phase_view(final(self).phase), step_view(step)) == if valid {
                    audio_advance(old(self).resp, candidates(old(self).resp.video_urls)[next as int]->0, 0)
                } else {
                    video_advance(old(self).resp, next + 1)
                },
                ProbePhase::Audio { video_url, next } => (phase_view(final(self).phase), step_view(step)) == if valid {
                    (PhaseView::Finished, StepView::Done(finish_spec(old(self).resp, video_url@, candidates(old(self).resp.audio_urls)[next as int]->0)))
                } else {
                    audio_advance(old(self).resp, video_url@, next + 1)
                },
                ProbePhase::Finished => false,
            },
    {
        let mut phase = ProbePhase::Finished;
        std::mem::swap(&mut phase, &mut self.phase);
        match phase {
            ProbePhase::Video { next } => {
                let vc = self.resp.video_urls.as_ref().unwrap();
                let n = vc.len();
                let (p, s) = if valid {
                    let u = url_at(vc, next).unwrap();
                    audio_advance_exec(&self.resp, u, 0)
                } else {
                    video_advance_exec(&self.resp, next + 1)
                };
                self.phase = p;
                s
            },
            ProbePhase::Audio { video_url, next } => {
                let ac = self.resp.audio_urls.as_ref().unwrap();
                let n = ac.len();
                if valid {
                    let a = url_at(ac, next).unwrap();
                    let r = finish(&self.resp, video_url, a);
                    ProbeStep::Done(r)
                } else {
                    let (p, s) = audio_advance_exec(&self.resp, video_url, next + 1);
                    self.phase = p;
                    s
                }
            },
            ProbePhase::Finished => ProbeStep::Done(Err(BiliError::NoVideoStream)),
        }
    }
}

/// The qualities tried, from highest to lowest, when the requested one fails.
pub open spec fn quality_ladder() -> Seq<i32> {
    seq![120i32, 116, 112, 80, 64, 32]
}

/// Qualities below `quality`.
pub open spec fn below(quality: i32) -> spec_fn(i32) -> bool {
    |q: i32| q < quality
}

/// The qualities of the ladder below `quality`, highest first.
pub open spec fn fallback_qualities_spec(quality: i32) -> Seq<i32> {
    quality_ladder().filter(below(quality))
}

/// The qualities to fall back to after `quality` failed.
pub fn fallback_qualities(quality: i32) -> (r: Vec<i32>)
    ensures
        r@ == fallback_qualities_spec(quality),
{
    let ladder: Vec<i32> = vec![120, 116, 112, 80, 64, 32];
    let mut r: Vec<i32> = Vec::new();
    let mut i: usize = 0;
    while i < ladder.len()
        invariant
            i <= ladder.len(),
            ladder@ == quality_ladder(),
            r@ == ladder@.take(i as int).filter(below(quality)),
        decreases ladder.len() - i,
    {
        proof {
            reveal_with_fuel(Seq::filter, 1);
            assert(ladder@.take(i + 1).drop_last() =~= ladder@.take(i as int));
        }
        if ladder[i] < quality {
            r.push(ladder[i]);
        }
        i = i + 1;
    }
    assert(ladder@.take(ladder@.len() as int) =~= ladder@);
    r
}

/// A failure worth retrying at a lower quality: its message mentions `403`
/// or that no video stream was found.
pub open spec fn degrades_spec(message: Seq<char>) -> bool {
    contains_seq(message, "403"@) || contains_seq(message, "未找到视频流"@)
}

pub fn should_degrade(message: &str) -> (b: bool)
    ensures
        b == degrades_spec(message@),
{
    str_contains(message, "403") || str_contains(message, "未找到视频流")
}

/// What to do after an attempt at some quality.
#[derive(Debug, Clone, Copy, PartialEq, Eq, Structural)]
pub enum FallbackStep {
    /// Ask again at this quality.
    Try(i32),
    /// The last attempt succeeded: its answer is the result.
    Use,
    /// Every quality was tried: report the first failure.
    GiveUp,
}

/// The walk down the quality ladder after the first attempt failed: the
/// qualities still to try and how many of them were handed out.
#[derive(Debug, Clone)]
pub struct QualityFallback {
    pub remaining: Vec<i32>,
    pub next: usize,
}

impl QualityFallback {
    /// After the first attempt at `quality` failed with `message`: a walk
    /// over the lower qualities of the ladder when the failure is worth
    /// retrying lower, else `None` and the failure stands.
    pub fn after_failure(quality: i32, message: &str) -> (r: Option<Self>)
        ensures
            r is Some <==> degrades_spec(message@),
            r matches Some(f) ==> f.remaining@ == fallback_qualities_spec(quality) && f.next == 0,
    {
        if should_degrade(message) {
            Some(QualityFallback { remaining: fallback_qualities(quality), next: 0 })
        } else {
            None
        }
    }

    /// The next move, given whether the last attempt succeeded: stop at the
    /// first success; else the next lower quality, in order, each once; else
    /// give up.
    pub fn next_step(&mut self, last_succeeded: bool) -> (s: FallbackStep)
        ensures
            final(self).remaining@ == old(self).remaining@,
            last_succeeded ==> s == FallbackStep::Use && final(self).next == old(self).next,
            !last_succeeded && old(self).next < old(self).remaining.len() ==> s == FallbackStep::Try(
                old(self).remaining@[old(self).next as int],
            ) && final(self).next == old(self).next + 1,
            !last_succeeded && old(self).next >= old(self).remaining.len() ==> s == FallbackStep::GiveUp
                && final(self).next == old(self).next,
    {
        if last_succeeded {
            FallbackStep::Use
        } else if self.next < self.remaining.len() {
            let q = self.remaining[self.next];
            self.next = self.next + 1;
            FallbackStep::Try(q)
        } else {
            FallbackStep::GiveUp
        }
    }
}

/// The failure reported when no quality of the ladder could be had.
pub fn all_qualities_failed_message(first_error: &str) -> (m: String)
    ensures
        m@ == "所有质量等级都无法下载: "@ + first_error@,
{
    concat("所有质量等级都无法下载: ", first_error)
}

/// A stream address answers a `HEAD` request with 200 or 206 when usable.
pub fn stream_status_ok(status: u16) -> (b: bool)
    ensures
        b == (status == 200 || status == 206),
{
    status == 200 || status == 206
}

/// A strictly descending sequence of qualities.
pub open spec fn strictly_descending(s: Seq<i32>) -> bool {
    forall|i: int, j: int| 0 <= i < j < s.len() ==> #[trigger] s[i] > #[trigger] s[j]
}

/// Filtering a strictly descending sequence keeps it strictly descending and
/// keeps only elements of it.
proof fn lemma_filter_descending(s: Seq<i32>, quality: i32)
    requires
        strictly_descending(s),
    ensures
        strictly_descending(s.filter(below(quality))),
        forall|i: int|
            0 <= i < s.filter(below(quality)).len() ==> s.contains(
                #[trigger] s.filter(below(quality))[i],
            ),
    decreases s.len(),
{
    reveal(Seq::filter);
    if s.len() > 0 {
        let rest = s.drop_last();
        lemma_filter_descending(rest, quality);
        let fr = rest.filter(below(quality));
        let f = s.filter(below(quality));
        assert forall|i: int| 0 <= i < fr.len() implies s.contains(#[trigger] fr[i]) && fr[i] > s.last() by {
            assert(rest.contains(fr[i]));
            let k = choose|k: int| 0 <= k < rest.len() && rest[k] == fr[i];
            assert(s[k] == fr[i]);
            assert(s[k] > s[s.len() - 1]);
        }
        if s.last() < quality {
            assert(f == fr.push(s.last()));
            assert forall|i: int| 0 <= i < f.len() implies s.contains(#[trigger] f[i]) by {
                if i < fr.len() {
                    assert(f[i] == fr[i]);
                } else {
                    assert(s[s.len() - 1] == f[i]);
                }
            }
            assert forall|i: int, j: int| 0 <= i < j < f.len() implies #[trigger] f[i] > #[trigger] f[j] by {
                assert(f[i] == fr[i]);
                if j < fr.len() {
                    assert(f[j] == fr[j]);
                }
            }
        } else {
            assert(f == fr);
        }
    }
}

/// Law: the fallback qualities are exactly the ladder's qualities below the
/// requested one, tried from the highest down, each once.
pub proof fn lemma_fallback_qualities(quality: i32)
    ensures
        forall|i: int|
            0 <= i < fallback_qualities_spec(quality).len() ==> {
                &&& #[trigger] fallback_qualities_spec(quality)[i] < quality
                &&& quality_ladder().contains(fallback_qualities_spec(quality)[i])
            },
        forall|k: int|
            0 <= k < quality_ladder().len() && quality_ladder()[k] < quality ==> fallback_qualities_spec(
                quality,
            ).contains(#[trigger] quality_ladder()[k]),
        strictly_descending(fallback_qualities_spec(quality)),
{
    let l = quality_ladder();
    assert(strictly_descending(l));
    lemma_filter_descending(l, quality);
    assert forall|i: int|
        0 <= i < fallback_qualities_spec(quality).len() implies #[trigger] fallback_qualities_spec(
        quality,
    )[i] < quality by {
        l.lemma_filter_pred(below(quality), i);
    }
    assert forall|k: int| 0 <= k < l.len() && l[k] < quality implies fallback_qualities_spec(
        quality,
    ).contains(#[trigger] l[k]) by {
        l.lemma_filter_contains(below(quality), k);
    }
}

/// Checks still possible from a phase: every remaining audio candidate, and
/// in the video phase also every remaining video candidate and one more.
pub open spec fn probe_remaining(r: PlayUrlResponse, p: PhaseView) -> int {
    let nv = candidates(r.video_urls).len() as int;
    let na = candidates(r.audio_urls).len() as int;
    match p {
        PhaseView::Video { next } => na + 1 + nv - next,
        PhaseView::Audio { video_url, next } => na - next,
        PhaseView::Finished => 0,
    }
}

proof fn lemma_audio_advance_bound(r: PlayUrlResponse, video: Seq<char>, k: int)
    requires
        0 <= k <= candidates(r.audio_urls).len(),
    ensures
        0 <= probe_remaining(r, audio_advance(r, video, k).0) <= candidates(r.audio_urls).len() - k,
        audio_advance(r, video, k).0 is Audio || audio_advance(r, video, k).0 is Finished,
{
    lemma_next_url(candidates(r.audio_urls), k);
}

/// Law: probing ends. Starting leaves at most one check per candidate and
/// one more, and every answer to a check (`on_validated`) leaves strictly
/// fewer checks possible, so a probe asks for at most that many checks.
pub proof fn lemma_probe_terminates(r: PlayUrlResponse, next: int, video_url: Seq<char>, valid: bool)
    requires
        0 <= next,
    ensures
        0 <= probe_remaining(r, video_advance(r, 0).0) <= candidates(r.audio_urls).len() + 1
            + candidates(r.video_urls).len(),
        next < candidates(r.video_urls).len() && candidates(r.video_urls)[next] is Some ==> {
            let after = if valid {
                audio_advance(r, candidates(r.video_urls)[next]->0, 0)
            } else {
                video_advance(r, next + 1)
            };
            0 <= probe_remaining(r, after.0) < probe_remaining(r, PhaseView::Video { next })
        },
        next < candidates(r.audio_urls).len() ==> {
            let after = if valid {
                PhaseView::Finished
            } else {
                audio_advance(r, video_url, next + 1).0
            };
            0 <= probe_remaining(r, after) < probe_remaining(r, PhaseView::Audio { video_url, next })
        },
{
    let vc = candidates(r.video_urls);
    lemma_next_url(vc, 0);
    lemma_next_url(vc, next + 1);
    if next < candidates(r.audio_urls).len() {
        lemma_audio_advance_bound(r, video_url, next + 1);
    }
    if vc.len() > 0 && vc[0] is Some {
        lemma_audio_advance_bound(r, vc[0]->0, 0);
    }
    if next < vc.len() && vc[next] is Some {
        lemma_audio_advance_bound(r, vc[next]->0, 0);
    }
}

} // verus!
