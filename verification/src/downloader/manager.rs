//! Decisions of the download manager: task ids, file and directory names,
//! where a task saves, and how a task's status moves.

use vstd::prelude::*;
use super::{DownloadConfig, TaskStatus};
use super::chunked::StreamDownloadResult;
use crate::history::HistoryEntry;
use crate::text::{
    chars_of, trim, trim_seq, string_from_chars, to_owned_string, concat, push_str, str_eq,
    str_contains, contains_seq, is_control, is_control_spec, trim_matches_seq, strip_char_start,
    strip_char_end,
};
use crate::fmt::{push_i64, int_decimal};
use crate::paths::{path_join, join_facts};

verus! {

/// A request to start downloading one video part.
#[derive(Debug, Clone)]
pub struct StartDownloadRequest {
    pub bvid: String,
    pub cid: i64,
    pub title: String,
    pub part_title: Option<String>,
    pub video_url: String,
    pub audio_url: String,
    pub config: DownloadConfig,
    /// `"single"`, `"multi_part"` or `"collection"`.
    pub collection_type: Option<String>,
    pub collection_title: Option<String>,
}

/// What a task records besides its progress ratios.
#[derive(Debug, Clone)]
pub struct TaskRecord {
    pub task_id: String,
    pub bvid: String,
    pub cid: i64,
    pub title: String,
    pub part_title: Option<String>,
    pub status: TaskStatus,
    pub video_size: u64,
    pub audio_size: u64,
    pub video_downloaded: u64,
    pub audio_downloaded: u64,
    pub speed: u64,
    pub save_path: String,
    pub filename: String,
    pub created_at: i64,
    pub updated_at: i64,
    /// When the speed was last measured.
    pub last_speed_update_time: Option<i64>,
    /// Bytes downloaded at that time.
    pub last_speed_downloaded: u64,
}

// ---------------------------------------------------------------------------
// Names
// ---------------------------------------------------------------------------

/// Characters that cannot stand in a file name on some platform.
pub open spec fn is_reserved_char(c: char) -> bool {
    c == '/' || c == '\\' || c == ':' || c == '*' || c == '?' || c == '"' || c == '<' || c == '>'
        || c == '|'
}

/// Reserved and control characters become `_`.
pub open spec fn sanitize_char(c: char) -> char {
    if is_reserved_char(c) || is_control_spec(c) {
        '_'
    } else {
        c
    }
}

pub open spec fn sanitize_chars(s: Seq<char>) -> Seq<char> {
    s.map_values(|c: char| sanitize_char(c))
}

/// A file name made of `raw`: reserved and control characters replaced,
/// white space trimmed; `未命名视频` when nothing is left.
pub open spec fn sanitize_filename_spec(raw: Seq<char>) -> Seq<char> {
    let t = trim_seq(sanitize_chars(raw));
    if t.len() == 0 {
        "未命名视频"@
    } else {
        t
    }
}

/// A directory name made of `raw`: reserved and control characters
/// replaced, white space trimmed, leading and trailing dots removed and
/// white space trimmed again; `未命名合集` when nothing is left.
pub open spec fn sanitize_dirname_spec(raw: Seq<char>) -> Seq<char> {
    let d = trim_seq(trim_matches_seq(trim_seq(sanitize_chars(raw)), '.'));
    if d.len() == 0 {
        "未命名合集"@
    } else {
        d
    }
}

fn sanitize_char_exec(c: char) -> (r: char)
    ensures
        r == sanitize_char(c),
{
    if c == '/' || c == '\\' || c == ':' || c == '*' || c == '?' || c == '"' || c == '<' || c
        == '>' || c == '|' || is_control(c) {
        '_'
    } else {
        c
    }
}

fn sanitized_chars(raw: &str) -> (s: String)
    ensures
        s@ == sanitize_chars(raw@),
{
    let v = chars_of(raw);
    let mut out: Vec<char> = Vec::new();
    let mut i: usize = 0;
    while i < v.len()
        invariant
            i <= v.len(),
            v@ == raw@,
            out@ == sanitize_chars(v@.take(i as int)),
        decreases v.len() - i,
    {
        out.push(sanitize_char_exec(v[i]));
        i = i + 1;
        assert(out@ =~= sanitize_chars(v@.take(i as int)));
    }
    assert(v@.take(v@.len() as int) =~= v@);
    string_from_chars(&out)
}

pub fn sanitize_filename(raw: &str) -> (s: String)
    ensures
        s@ == sanitize_filename_spec(raw@),
{
    let m = sanitized_chars(raw);
    let t = trim(m.as_str());
    if t.as_str().unicode_len() == 0 {
        to_owned_string("未命名视频")
    } else {
        t
    }
}

proof fn lemma_strip_start_step(s: Seq<char>, lo: int, hi: int, c: char)
    requires
        0 <= lo < hi <= s.len(),
        s[lo] == c,
    ensures
        strip_char_start(s.subrange(lo, hi), c) == strip_char_start(s.subrange(lo + 1, hi), c),
{
    assert(s.subrange(lo, hi).drop_first() =~= s.subrange(lo + 1, hi));
}

proof fn lemma_strip_end_step(s: Seq<char>, lo: int, hi: int, c: char)
    requires
        0 <= lo < hi <= s.len(),
        s[hi - 1] == c,
    ensures
        strip_char_end(s.subrange(lo, hi), c) == strip_char_end(s.subrange(lo, hi - 1), c),
{
    assert(s.subrange(lo, hi).drop_last() =~= s.subrange(lo, hi - 1));
}

/// `str::trim_matches` with a single character.
pub fn trim_matches_char(s: &str, c: char) -> (r: String)
    ensures
        r@ == trim_matches_seq(s@, c),
{
    let v = chars_of(s);
    let n = v.len();
    let mut lo: usize = 0;
    assert(v@.subrange(0, n as int) =~= v@);
    while lo < n && v[lo] == c
        invariant
            lo <= n == v.len(),
            strip_char_start(v@, c) == strip_char_start(v@.subrange(lo as int, n as int), c),
        decreases n - lo,
    {
        proof {
            lemma_strip_start_step(v@, lo as int, n as int, c);
        }
        lo = lo + 1;
    }
    assert(strip_char_start(v@.subrange(lo as int, n as int), c) == v@.subrange(lo as int, n as int));
    let mut hi: usize = n;
    while hi > lo && v[hi - 1] == c
        invariant
            lo <= hi <= n == v.len(),
            trim_matches_seq(v@, c) == strip_char_end(v@.subrange(lo as int, hi as int), c),
        decreases hi,
    {
        proof {
            lemma_strip_end_step(v@, lo as int, hi as int, c);
        }
        hi = hi - 1;
    }
    crate::text::string_from_range(&v, lo, hi)
}

pub fn sanitize_filename_for_dir(raw: &str) -> (s: String)
    ensures
        s@ == sanitize_dirname_spec(raw@),
{
    let m = sanitized_chars(raw);
    let t = trim(m.as_str());
    let d = trim_matches_char(t.as_str(), '.');
    let r = trim(d.as_str());
    if r.as_str().unicode_len() == 0 {
        to_owned_string("未命名合集")
    } else {
        r
    }
}

/// The file name of a task: its part title (else its title) as a file name,
/// then `.mp4`.
pub open spec fn build_filename_spec(title: Seq<char>, part_title: Option<Seq<char>>) -> Seq<char> {
    sanitize_filename_spec(
        match part_title {
            Some(p) => p,
            None => title,
        },
    ) + ".mp4"@
}

pub fn build_filename(title: &str, part_title: Option<&str>) -> (s: String)
    ensures
        s@ == build_filename_spec(
            title@,
            match part_title {
                Some(p) => Some(p@),
                None => None,
            },
        ),
{
    let base = match part_title {
        Some(p) => p,
        None => title,
    };
    let mut s = sanitize_filename(base);
    push_str(&mut s, ".mp4");
    s
}

/// Law: a sanitized file name is never empty, is trimmed, and holds no
/// reserved or control character.
pub proof fn lemma_sanitized_filename_is_safe(raw: Seq<char>)
    ensures
        sanitize_filename_spec(raw).len() > 0,
        forall|i: int|
            0 <= i < sanitize_filename_spec(raw).len() ==> !is_reserved_char(
                #[trigger] sanitize_filename_spec(raw)[i],
            ) && !is_control_spec(sanitize_filename_spec(raw)[i]),
{
    let m = sanitize_chars(raw);
    assert forall|i: int| 0 <= i < m.len() implies !is_reserved_char(#[trigger] m[i]) && !is_control_spec(m[i]) by {}
    lemma_trim_is_slice(m);
    reveal_strlit("未命名视频");
}

/// No reserved or control character occurs in `s`.
pub open spec fn safe_name_chars(s: Seq<char>) -> bool {
    forall|i: int| 0 <= i < s.len() ==> !is_reserved_char(#[trigger] s[i]) && !is_control_spec(s[i])
}

/// Stripping a character from the ends keeps a name safe.
proof fn lemma_strip_keeps_safe(s: Seq<char>, c: char)
    requires
        safe_name_chars(s),
    ensures
        safe_name_chars(strip_char_start(s, c)),
        safe_name_chars(strip_char_end(s, c)),
    decreases s.len(),
{
    if s.len() > 0 {
        let f = s.drop_first();
        let l = s.drop_last();
        assert forall|i: int| 0 <= i < f.len() implies !is_reserved_char(#[trigger] f[i]) && !is_control_spec(f[i]) by {
            assert(f[i] == s[i + 1]);
        }
        assert forall|i: int| 0 <= i < l.len() implies !is_reserved_char(#[trigger] l[i]) && !is_control_spec(l[i]) by {
            assert(l[i] == s[i]);
        }
        lemma_strip_keeps_safe(f, c);
        lemma_strip_keeps_safe(l, c);
    }
}

/// Trimming white space keeps a name safe.
proof fn lemma_trim_keeps_safe(s: Seq<char>)
    requires
        safe_name_chars(s),
    ensures
        safe_name_chars(trim_seq(s)),
{
    lemma_trim_is_slice(s);
    let (lo, hi) = choose|lo: int, hi: int| 0 <= lo <= hi <= s.len() && trim_seq(s) == s.subrange(lo, hi);
    let t = trim_seq(s);
    assert forall|i: int| 0 <= i < t.len() implies !is_reserved_char(#[trigger] t[i]) && !is_control_spec(t[i]) by {
        assert(t[i] == s[lo + i]);
    }
}

/// Law: a sanitized directory name is never empty and holds no reserved or
/// control character.
pub proof fn lemma_sanitized_dirname_is_safe(raw: Seq<char>)
    ensures
        sanitize_dirname_spec(raw).len() > 0,
        safe_name_chars(sanitize_dirname_spec(raw)),
{
    let m = sanitize_chars(raw);
    assert(safe_name_chars(m));
    lemma_trim_keeps_safe(m);
    let t = trim_seq(m);
    lemma_strip_keeps_safe(t, '.');
    lemma_strip_keeps_safe(strip_char_start(t, '.'), '.');
    lemma_trim_keeps_safe(trim_matches_seq(t, '.'));
    reveal_strlit("未命名合集");
    let fallback = "未命名合集"@;
    assert forall|i: int| 0 <= i < fallback.len() implies !is_reserved_char(#[trigger] fallback[i])
        && !is_control_spec(fallback[i]) by {}
}

/// The trimmed text is a contiguous piece of the untrimmed one.
pub proof fn lemma_trim_is_slice(s: Seq<char>)
    ensures
        exists|lo: int, hi: int| 0 <= lo <= hi <= s.len() && trim_seq(s) == s.subrange(lo, hi),
{
    lemma_trim_start_slice(s);
    let a = crate::text::trim_start_seq(s);
    let lo = choose|lo: int| 0 <= lo <= s.len() && a == s.subrange(lo, s.len() as int);
    lemma_trim_end_slice(a);
    let hi = choose|hi: int| 0 <= hi <= a.len() && trim_seq(s) == a.subrange(0, hi);
    assert(trim_seq(s) =~= s.subrange(lo, lo + hi));
}

proof fn lemma_trim_start_slice(s: Seq<char>)
    ensures
        exists|lo: int| 0 <= lo <= s.len() && crate::text::trim_start_seq(s) == s.subrange(lo, s.len() as int),
    decreases s.len(),
{
    if s.len() > 0 && crate::text::is_whitespace_spec(s[0]) {
        lemma_trim_start_slice(s.drop_first());
        let lo = choose|lo: int| 0 <= lo <= s.drop_first().len() && crate::text::trim_start_seq(s.drop_first()) == s.drop_first().subrange(lo, s.drop_first().len() as int);
        assert(s.drop_first().subrange(lo, s.drop_first().len() as int) =~= s.subrange(lo + 1, s.len() as int));
    } else {
        assert(s.subrange(0, s.len() as int) =~= s);
    }
}

proof fn lemma_trim_end_slice(s: Seq<char>)
    ensures
        exists|hi: int| 0 <= hi <= s.len() && crate::text::trim_end_seq(s) == s.subrange(0, hi),
    decreases s.len(),
{
    if s.len() > 0 && crate::text::is_whitespace_spec(s.last()) {
        lemma_trim_end_slice(s.drop_last());
        let hi = choose|hi: int| 0 <= hi <= s.drop_last().len() && crate::text::trim_end_seq(s.drop_last()) == s.drop_last().subrange(0, hi);
        assert(s.drop_last().subrange(0, hi) =~= s.subrange(0, hi));
    } else {
        assert(s.subrange(0, s.len() as int) =~= s);
    }
}

// ---------------------------------------------------------------------------
// Save paths and ids
// ---------------------------------------------------------------------------

/// Multi-part videos and collections get a directory of their own.
pub open spec fn is_collection_type(t: Option<String>) -> bool {
    match t {
        Some(s) => s@ == "multi_part"@ || s@ == "collection"@,
        None => false,
    }
}

/// The directory name a collection of this type and title gets, if any:
/// only multi-part videos and collections whose title is not blank.
pub open spec fn collection_dir_name(t: Option<String>, title: Option<String>) -> Option<Seq<char>> {
    if is_collection_type(t) {
        match title {
            Some(s) => if trim_seq(s@).len() > 0 {
                Some(sanitize_dirname_spec(s@))
            } else {
                None
            },
            None => None,
        }
    } else {
        None
    }
}

/// The directory under `base_path` where a collection's files go, when the
/// task belongs to one (see `collection_dir_name`). The caller creates it,
/// and saves under `base_path` itself when that fails.
pub fn collection_save_path(
    base_path: &str,
    collection_type: &Option<String>,
    collection_title: &Option<String>,
) -> (r: Option<String>)
    ensures
        match collection_dir_name(*collection_type, *collection_title) {
            Some(d) => r is Some && join_facts(base_path@, d, r->0@),
            None => r is None,
        },
{
    let is_collection = match collection_type {
        Some(t) => str_eq(t.as_str(), "multi_part") || str_eq(t.as_str(), "collection"),
        None => false,
    };
    if !is_collection {
        return None;
    }
    match collection_title {
        Some(title) => {
            let t = trim(title.as_str());
            if t.as_str().unicode_len() == 0 {
                return None;
            }
            let dir = sanitize_filename_for_dir(title.as_str());
            Some(path_join(base_path, dir.as_str()))
        },
        None => None,
    }
}

/// A lowercase hexadecimal digit.
pub open spec fn is_lower_hex(c: char) -> bool {
    (0x30 <= (c as u32) <= 0x39) || (0x61 <= (c as u32) <= 0x66)
}

/// The hyphenated text form of a version-4 UUID: 36 characters, `-` at 8,
/// 13, 18 and 23, lowercase hexadecimal digits elsewhere, the version digit
/// `4` at 14.
pub open spec fn uuid_v4_text(s: Seq<char>) -> bool {
    &&& s.len() == 36
    &&& forall|i: int|
        0 <= i < 36 ==> if i == 8 || i == 13 || i == 18 || i == 23 {
            s[i] == '-'
        } else {
            is_lower_hex(#[trigger] s[i])
        }
    &&& s[14] == '4'
}

/// `uuid::Uuid::new_v4().to_string()`: a random UUID in its hyphenated
/// lowercase form. Which UUID comes out is chance; the contract states only
/// the form every one of them has.
#[verifier::external_body]
fn new_uuid() -> (u: String)
    ensures
        uuid_v4_text(u@),
{
    uuid::Uuid::new_v4().to_string()
}

/// `<bvid>_<cid>_<unique>`.
pub open spec fn task_id_spec(bvid: Seq<char>, cid: i64, unique: Seq<char>) -> Seq<char> {
    bvid + "_"@ + int_decimal(cid as int) + "_"@ + unique
}

pub fn task_id_with(bvid: &str, cid: i64, unique: &str) -> (s: String)
    ensures
        s@ == task_id_spec(bvid@, cid, unique@),
{
    let mut s = concat(bvid, "_");
    push_i64(&mut s, cid);
    push_str(&mut s, "_");
    push_str(&mut s, unique);
    s
}

/// A new task id: the video's BV id and cid, then a random UUID.
pub fn new_task_id(bvid: &str, cid: i64) -> (s: String)
    ensures
        exists|u: Seq<char>| uuid_v4_text(u) && s@ == task_id_spec(bvid@, cid, u),
{
    let u = new_uuid();
    task_id_with(bvid, cid, u.as_str())
}

// ---------------------------------------------------------------------------
// Status
// ---------------------------------------------------------------------------

/// Progress reports set a task downloading, unless it is paused.
pub open spec fn status_on_progress(s: TaskStatus) -> TaskStatus {
    match s {
        TaskStatus::Paused => TaskStatus::Paused,
        _ => TaskStatus::Downloading,
    }
}

/// Resuming sets a task downloading, unless it is completed.
pub open spec fn status_on_resume(s: TaskStatus) -> TaskStatus {
    match s {
        TaskStatus::Completed => TaskStatus::Completed,
        _ => TaskStatus::Downloading,
    }
}

pub open spec fn is_finished(s: TaskStatus) -> bool {
    s is Completed || s is Failed
}

pub fn status_after_progress(s: &TaskStatus) -> (r: TaskStatus)
    ensures
        r == status_on_progress(*s),
{
    match s {
        TaskStatus::Paused => TaskStatus::Paused,
        _ => TaskStatus::Downloading,
    }
}

pub fn status_after_resume(s: &TaskStatus) -> (r: TaskStatus)
    ensures
        r == status_on_resume(*s),
{
    match s {
        TaskStatus::Completed => TaskStatus::Completed,
        _ => TaskStatus::Downloading,
    }
}

pub fn is_finished_status(s: &TaskStatus) -> (b: bool)
    ensures
        b == is_finished(*s),
{
    match s {
        TaskStatus::Completed => true,
        TaskStatus::Failed(_) => true,
        _ => false,
    }
}

/// A task enters the history when an update takes it from unfinished to
/// finished (completed or failed).
pub fn should_record_history(old_status: &TaskStatus, new_status: &TaskStatus) -> (b: bool)
    ensures
        b == (!is_finished(*old_status) && is_finished(*new_status)),
{
    !is_finished_status(old_status) && is_finished_status(new_status)
}

/// The status a task takes when its pipeline fails with `message`: failed
/// with that message, unless the failure is the cancellation itself.
pub fn status_on_failure(message: &str) -> (r: Option<TaskStatus>)
    ensures
        contains_seq(message@, "任务已取消"@) ==> r is None,
        !contains_seq(message@, "任务已取消"@) ==> (r matches Some(TaskStatus::Failed(m)) && m@ == message@),
{
    if str_contains(message, "任务已取消") {
        None
    } else {
        Some(TaskStatus::Failed(to_owned_string(message)))
    }
}

/// Law: progress reports never resume a paused task, resuming never reopens
/// a completed one, and both leave every other task downloading.
pub proof fn lemma_status_transitions(s: TaskStatus)
    ensures
        s is Paused ==> status_on_progress(s) is Paused,
        !(s is Paused) ==> status_on_progress(s) is Downloading,
        s is Completed ==> status_on_resume(s) is Completed,
        !(s is Completed) ==> status_on_resume(s) is Downloading,
        !is_finished(status_on_progress(s)),
{
}

// ---------------------------------------------------------------------------
// History entries
// ---------------------------------------------------------------------------

/// The history status of a task: `Completed`, `Failed:<message>`, or
/// `Pending` for anything unfinished.
pub open spec fn history_status(s: TaskStatus) -> Seq<char> {
    match s {
        TaskStatus::Completed => "Completed"@,
        TaskStatus::Failed(m) => "Failed:"@ + m@,
        _ => "Pending"@,
    }
}

/// The history entry of a task.
pub fn create_history_entry(task: &TaskRecord) -> (e: HistoryEntry)
    requires
        task.video_size + task.audio_size <= u64::MAX,
    ensures
        e.task_id == task.task_id,
        e.bvid == task.bvid,
        e.cid == task.cid,
        e.title == task.title,
        e.part_title == task.part_title,
        e.status@ == history_status(task.status),
        e.video_size == task.video_size,
        e.audio_size == task.audio_size,
        e.total_size == task.video_size + task.audio_size,
        e.save_path == task.save_path,
        e.filename == task.filename,
        e.created_at == task.created_at,
        e.completed_at == (if is_finished(task.status) { Some(task.updated_at) } else { None }),
        e.error_message == (match task.status {
            TaskStatus::Failed(m) => Some(m),
            _ => None::<String>,
        }),
{
    let (status, completed_at, error_message) = match &task.status {
        TaskStatus::Completed => (to_owned_string("Completed"), Some(task.updated_at), None),
        TaskStatus::Failed(msg) => (concat("Failed:", msg.as_str()), Some(task.updated_at), Some(msg.clone())),
        _ => (to_owned_string("Pending"), None, None),
    };
    HistoryEntry {
        task_id: task.task_id.clone(),
        bvid: task.bvid.clone(),
        cid: task.cid,
        title: task.title.clone(),
        part_title: task.part_title.clone(),
        status,
        video_size: task.video_size,
        audio_size: task.audio_size,
        total_size: task.video_size + task.audio_size,
        save_path: task.save_path.clone(),
        filename: task.filename.clone(),
        created_at: task.created_at,
        completed_at,
        error_message,
    }
}

// ---------------------------------------------------------------------------
// Task records
// ---------------------------------------------------------------------------

/// The record of a new task for `request`, created at `now`, saving under
/// `save_path`: pending, with nothing downloaded yet.
pub fn new_task_record(task_id: String, request: &StartDownloadRequest, save_path: String, now: i64) -> (t:
    TaskRecord)
    ensures
        t.task_id == task_id,
        t.bvid == request.bvid,
        t.cid == request.cid,
        t.title == request.title,
        t.part_title == request.part_title,
        t.status == TaskStatus::Pending,
        t.video_size == 0 && t.audio_size == 0,
        t.video_downloaded == 0 && t.audio_downloaded == 0,
        t.speed == 0,
        t.save_path == save_path,
        t.filename@ == build_filename_spec(request.title@, opt_chars(request.part_title)),
        t.created_at == now && t.updated_at == now,
        t.last_speed_update_time is None,
        t.last_speed_downloaded == 0,
{
    let filename = match &request.part_title {
        Some(p) => build_filename(request.title.as_str(), Some(p.as_str())),
        None => build_filename(request.title.as_str(), None),
    };
    TaskRecord {
        task_id,
        bvid: request.bvid.clone(),
        cid: request.cid,
        title: request.title.clone(),
        part_title: request.part_title.clone(),
        status: TaskStatus::Pending,
        video_size: 0,
        audio_size: 0,
        video_downloaded: 0,
        audio_downloaded: 0,
        speed: 0,
        save_path,
        filename,
        created_at: now,
        updated_at: now,
        last_speed_update_time: None,
        last_speed_downloaded: 0,
    }
}

/// The characters of an optional string.
pub open spec fn opt_chars(o: Option<String>) -> Option<Seq<char>> {
    match o {
        Some(s) => Some(s@),
        None => None,
    }
}

/// Which stream of a task a report is about.
#[derive(Debug, Clone, Copy, PartialEq, Eq, Structural)]
pub enum StreamKind {
    Video,
    Audio,
}

/// `t` and `u` agree on everything but the progress counters and status.
pub open spec fn same_task_identity(t: TaskRecord, u: TaskRecord) -> bool {
    &&& t.task_id == u.task_id
    &&& t.bvid == u.bvid
    &&& t.cid == u.cid
    &&& t.title == u.title
    &&& t.part_title == u.part_title
    &&& t.speed == u.speed
    &&& t.save_path == u.save_path
    &&& t.filename == u.filename
    &&& t.created_at == u.created_at
    &&& t.updated_at == u.updated_at
    &&& t.last_speed_update_time == u.last_speed_update_time
    &&& t.last_speed_downloaded == u.last_speed_downloaded
}

/// Records that `downloaded` of `total` bytes of one stream are done; a
/// paused task stays paused, any other becomes downloading.
pub fn apply_stream_progress(task: &mut TaskRecord, kind: StreamKind, downloaded: u64, total: u64)
    ensures
        same_task_identity(*final(task), *old(task)),
        final(task).status == status_on_progress(old(task).status),
        kind == StreamKind::Video ==> final(task).video_downloaded == downloaded && final(task).video_size
            == total && final(task).audio_downloaded == old(task).audio_downloaded && final(task).audio_size
            == old(task).audio_size,
        kind == StreamKind::Audio ==> final(task).audio_downloaded == downloaded && final(task).audio_size
            == total && final(task).video_downloaded == old(task).video_downloaded && final(task).video_size
            == old(task).video_size,
{
    match kind {
        StreamKind::Video => {
            task.video_downloaded = downloaded;
            task.video_size = total;
        },
        StreamKind::Audio => {
            task.audio_downloaded = downloaded;
            task.audio_size = total;
        },
    }
    let next = status_after_progress(&task.status);
    task.status = next;
}

/// Records that both streams are downloaded and merged: the task completes
/// with the streams' final counts.
pub fn apply_completion(task: &mut TaskRecord, video: &StreamDownloadResult, audio: &StreamDownloadResult)
    ensures
        same_task_identity(*final(task), *old(task)),
        final(task).status == TaskStatus::Completed,
        final(task).video_downloaded == video.downloaded,
        final(task).audio_downloaded == audio.downloaded,
        final(task).video_size == video.total,
        final(task).audio_size == audio.total,
{
    task.video_downloaded = video.downloaded;
    task.audio_downloaded = audio.downloaded;
    task.video_size = video.total;
    task.audio_size = audio.total;
    task.status = TaskStatus::Completed;
}

/// `a - b`, held to the range of `i64`.
pub open spec fn sat_sub_i64(a: i64, b: i64) -> i64 {
    if a - b > i64::MAX {
        i64::MAX
    } else if a - b < i64::MIN {
        i64::MIN
    } else {
        (a - b) as i64
    }
}

/// Bytes of both streams downloaded so far.
pub open spec fn downloaded_total(t: TaskRecord) -> int {
    t.video_downloaded + t.audio_downloaded
}

/// The shortest time between two speed samples, in milliseconds; a shorter
/// gap would make the speed jump about.
pub const SPEED_SAMPLE_MIN_MILLIS: i64 = 500;

/// Stamps a task updated at `now` (whole seconds) and keeps its speed
/// sample. The first update only records the sample. Later ones take a new
/// sample when more bytes arrived and more than `SPEED_SAMPLE_MIN_MILLIS`
/// passed since the last one, and then return the bytes and seconds between
/// the two samples, from which the caller sets the speed.
pub fn touch_task(task: &mut TaskRecord, now: i64) -> (r: Option<(u64, i64)>)
    requires
        downloaded_total(*old(task)) <= u64::MAX,
    ensures
        final(task).updated_at == now,
        final(task).task_id == old(task).task_id,
        final(task).bvid == old(task).bvid,
        final(task).cid == old(task).cid,
        final(task).title == old(task).title,
        final(task).part_title == old(task).part_title,
        final(task).status == old(task).status,
        final(task).video_size == old(task).video_size,
        final(task).audio_size == old(task).audio_size,
        final(task).video_downloaded == old(task).video_downloaded,
        final(task).audio_downloaded == old(task).audio_downloaded,
        final(task).speed == old(task).speed,
        final(task).save_path == old(task).save_path,
        final(task).filename == old(task).filename,
        final(task).created_at == old(task).created_at,
        match old(task).last_speed_update_time {
            None => {
                &&& r is None
                &&& final(task).last_speed_update_time == Some(now)
                &&& final(task).last_speed_downloaded == downloaded_total(*old(task))
            },
            Some(last) => {
                let td = sat_sub_i64(now, last);
                let dd = if downloaded_total(*old(task)) > old(task).last_speed_downloaded {
                    downloaded_total(*old(task)) - old(task).last_speed_downloaded
                } else {
                    0
                };
                if dd > 0 && td * 1000 > SPEED_SAMPLE_MIN_MILLIS {
                    &&& r == Some((dd as u64, td))
                    &&& final(task).last_speed_update_time == Some(now)
                    &&& final(task).last_speed_downloaded == downloaded_total(*old(task))
                } else {
                    &&& r is None
                    &&& final(task).last_speed_update_time == old(task).last_speed_update_time
                    &&& final(task).last_speed_downloaded == old(task).last_speed_downloaded
                }
            },
        },
{
    task.updated_at = now;
    let current = task.video_downloaded + task.audio_downloaded;
    match task.last_speed_update_time {
        None => {
            task.last_speed_update_time = Some(now);
            task.last_speed_downloaded = current;
            None
        },
        Some(last) => {
            let wide: i128 = now as i128 - last as i128;
            let td: i64 = if wide > i64::MAX as i128 {
                i64::MAX
            } else if wide < i64::MIN as i128 {
                i64::MIN
            } else {
                wide as i64
            };
            let dd = current.saturating_sub(task.last_speed_downloaded);
            if dd > 0 && (td as i128) * 1000 > SPEED_SAMPLE_MIN_MILLIS as i128 {
                task.last_speed_update_time = Some(now);
                task.last_speed_downloaded = current;
                Some((dd, td))
            } else {
                None
            }
        },
    }
}

/// Where a task's part files live: `<cache_dir>/bilibili-downloader/tasks/<task_id>`.
pub fn task_temp_dir(cache_dir: &str, task_id: &str) -> (r: String)
    ensures
        exists|app: Seq<char>, tasks: Seq<char>|
            #![trigger join_facts(app, "tasks"@, tasks), join_facts(tasks, task_id@, r@)]
            join_facts(cache_dir@, "bilibili-downloader"@, app) && join_facts(app, "tasks"@, tasks)
                && join_facts(tasks, task_id@, r@),
{
    let app = path_join(cache_dir, "bilibili-downloader");
    let tasks = path_join(app.as_str(), "tasks");
    let r = path_join(tasks.as_str(), task_id);
    assert(join_facts(cache_dir@, "bilibili-downloader"@, app@) && join_facts(app@, "tasks"@, tasks@)
        && join_facts(tasks@, task_id@, r@));
    r
}

/// Where a task's finished file is: its file name under its save path.
pub fn task_output_path(task: &TaskRecord) -> (r: String)
    ensures
        join_facts(task.save_path@, task.filename@, r@),
{
    path_join(task.save_path.as_str(), task.filename.as_str())
}

} // verus!
