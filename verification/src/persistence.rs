//! How task states are written to and read back from the task file, and
//! which tasks are kept there.

use vstd::prelude::*;
use crate::downloader::TaskStatus;
use crate::downloader::manager::TaskRecord;
use crate::text::{
    concat, to_owned_string, str_eq, starts_with, starts_with_seq, chars_of, string_from_range, opt_view,
};

verus! {

/// The text a status is saved as: its name, or `Failed:<message>`.
pub open spec fn persisted_status_spec(s: TaskStatus) -> Seq<char> {
    match s {
        TaskStatus::Pending => "Pending"@,
        TaskStatus::Downloading => "Downloading"@,
        TaskStatus::Paused => "Paused"@,
        TaskStatus::Merging => "Merging"@,
        TaskStatus::Completed => "Completed"@,
        TaskStatus::Failed(m) => "Failed:"@ + m@,
    }
}

/// `t` is the status the saved text `s` restores: `Failed:<message>` fails
/// with the message, `Completed` and `Paused` restore as such, anything
/// else (a download or merge in flight) restarts as pending.
pub open spec fn restores(s: Seq<char>, t: TaskStatus) -> bool {
    if starts_with_seq(s, "Failed:"@) {
        t matches TaskStatus::Failed(m) && m@ == s.skip(7)
    } else if s == "Completed"@ {
        t is Completed
    } else if s == "Paused"@ {
        t is Paused
    } else {
        t is Pending
    }
}

pub fn persisted_status(status: &TaskStatus) -> (s: String)
    ensures
        s@ == persisted_status_spec(*status),
{
    match status {
        TaskStatus::Pending => to_owned_string("Pending"),
        TaskStatus::Downloading => to_owned_string("Downloading"),
        TaskStatus::Paused => to_owned_string("Paused"),
        TaskStatus::Merging => to_owned_string("Merging"),
        TaskStatus::Completed => to_owned_string("Completed"),
        TaskStatus::Failed(m) => concat("Failed:", m.as_str()),
    }
}

/// Restores a saved status, as a task read back from the task file takes it.
pub fn status_from_persisted(s: &str) -> (t: TaskStatus)
    ensures
        restores(s@, t),
{
    if starts_with(s, "Failed:") {
        let v = chars_of(s);
        assert("Failed:"@.len() == 7) by {
            reveal_strlit("Failed:");
        }
        let rest = string_from_range(&v, 7, v.len());
        assert(rest@ =~= s@.skip(7));
        TaskStatus::Failed(rest)
    } else if str_eq(s, "Completed") {
        TaskStatus::Completed
    } else if str_eq(s, "Paused") {
        TaskStatus::Paused
    } else {
        TaskStatus::Pending
    }
}

/// Law: saving a status and restoring it gives back a failure with the same
/// message, a completed or paused task as such, and a pending task for
/// anything that was in flight.
pub proof fn lemma_status_round_trip(st: TaskStatus, t: TaskStatus)
    requires
        restores(persisted_status_spec(st), t),
    ensures
        match st {
            TaskStatus::Failed(m) => t matches TaskStatus::Failed(m2) && m2@ == m@,
            TaskStatus::Completed => t is Completed,
            TaskStatus::Paused => t is Paused,
            _ => t is Pending,
        },
{
    reveal_strlit("Failed:");
    reveal_strlit("Completed");
    reveal_strlit("Paused");
    reveal_strlit("Pending");
    reveal_strlit("Downloading");
    reveal_strlit("Merging");
    let p = persisted_status_spec(st);
    match st {
        TaskStatus::Failed(m) => {
            assert(p.subrange(0, 7) =~= "Failed:"@);
            assert(p.skip(7) =~= m@);
        },
        TaskStatus::Completed => {
            assert(p[0] != "Failed:"@[0]);
        },
        TaskStatus::Paused => {
            assert(p[0] != "Failed:"@[0]);
        },
        TaskStatus::Pending => {
            assert(p[0] != "Failed:"@[0]);
        },
        TaskStatus::Downloading => {
            assert(p[0] != "Failed:"@[0]);
            assert(p[0] != "Completed"@[0]);
        },
        TaskStatus::Merging => {
            assert(p[0] != "Failed:"@[0]);
            assert(p[0] != "Completed"@[0]);
            assert(p.len() != "Paused"@.len());
        },
    }
}

/// What the task file keeps of a task record: its fields, with the status
/// as text and without the speed sample.
#[derive(Debug, Clone)]
pub struct PersistedRecord {
    pub task_id: String,
    pub bvid: String,
    pub cid: i64,
    pub title: String,
    pub part_title: Option<String>,
    pub status: String,
    pub video_size: u64,
    pub audio_size: u64,
    pub video_downloaded: u64,
    pub audio_downloaded: u64,
    pub speed: u64,
    pub save_path: String,
    pub filename: String,
    pub created_at: i64,
    pub updated_at: i64,
}

/// `p` is what the task file keeps of `t`.
pub open spec fn persists_as(t: TaskRecord, p: PersistedRecord) -> bool {
    &&& p.task_id@ == t.task_id@
    &&& p.bvid@ == t.bvid@
    &&& p.cid == t.cid
    &&& p.title@ == t.title@
    &&& opt_view(p.part_title) == opt_view(t.part_title)
    &&& p.status@ == persisted_status_spec(t.status)
    &&& p.video_size == t.video_size
    &&& p.audio_size == t.audio_size
    &&& p.video_downloaded == t.video_downloaded
    &&& p.audio_downloaded == t.audio_downloaded
    &&& p.speed == t.speed
    &&& p.save_path@ == t.save_path@
    &&& p.filename@ == t.filename@
    &&& p.created_at == t.created_at
    &&& p.updated_at == t.updated_at
}

/// `r` is the task restored from `p`: the same fields, the status read back
/// from its text, and the speed and its sample reset.
pub open spec fn restored_from(p: PersistedRecord, r: TaskRecord) -> bool {
    &&& r.task_id@ == p.task_id@
    &&& r.bvid@ == p.bvid@
    &&& r.cid == p.cid
    &&& r.title@ == p.title@
    &&& opt_view(r.part_title) == opt_view(p.part_title)
    &&& restores(p.status@, r.status)
    &&& r.video_size == p.video_size
    &&& r.audio_size == p.audio_size
    &&& r.video_downloaded == p.video_downloaded
    &&& r.audio_downloaded == p.audio_downloaded
    &&& r.speed == 0
    &&& r.save_path@ == p.save_path@
    &&& r.filename@ == p.filename@
    &&& r.created_at == p.created_at
    &&& r.updated_at == p.updated_at
    &&& r.last_speed_update_time is None
    &&& r.last_speed_downloaded == 0
}

fn copy_opt(o: &Option<String>) -> (r: Option<String>)
    ensures
        opt_view(r) == opt_view(*o),
{
    match o {
        Some(s) => Some(to_owned_string(s.as_str())),
        None => None,
    }
}

/// What the task file keeps of `t`.
pub fn persisted_record(t: &TaskRecord) -> (p: PersistedRecord)
    ensures
        persists_as(*t, p),
{
    PersistedRecord {
        task_id: to_owned_string(t.task_id.as_str()),
        bvid: to_owned_string(t.bvid.as_str()),
        cid: t.cid,
        title: to_owned_string(t.title.as_str()),
        part_title: copy_opt(&t.part_title),
        status: persisted_status(&t.status),
        video_size: t.video_size,
        audio_size: t.audio_size,
        video_downloaded: t.video_downloaded,
        audio_downloaded: t.audio_downloaded,
        speed: t.speed,
        save_path: to_owned_string(t.save_path.as_str()),
        filename: to_owned_string(t.filename.as_str()),
        created_at: t.created_at,
        updated_at: t.updated_at,
    }
}

impl PersistedRecord {
    /// The task restored from the task file; downloads in flight restart as
    /// pending, and the speed starts again from zero.
    pub fn to_pending_task(&self) -> (r: TaskRecord)
        ensures
            restored_from(*self, r),
    {
        TaskRecord {
            task_id: to_owned_string(self.task_id.as_str()),
            bvid: to_owned_string(self.bvid.as_str()),
            cid: self.cid,
            title: to_owned_string(self.title.as_str()),
            part_title: copy_opt(&self.part_title),
            status: status_from_persisted(self.status.as_str()),
            video_size: self.video_size,
            audio_size: self.audio_size,
            video_downloaded: self.video_downloaded,
            audio_downloaded: self.audio_downloaded,
            speed: 0,
            save_path: to_owned_string(self.save_path.as_str()),
            filename: to_owned_string(self.filename.as_str()),
            created_at: self.created_at,
            updated_at: self.updated_at,
            last_speed_update_time: None,
            last_speed_downloaded: 0,
        }
    }
}

/// Law: a task saved to the task file and restored comes back with the same
/// identity, titles, sizes, byte counts, paths and times; its speed and speed
/// sample reset; a failure with the same message, a completed or paused task
/// as such, and a pending task for anything that was in flight.
pub proof fn lemma_task_round_trip(t: TaskRecord, p: PersistedRecord, r: TaskRecord)
    requires
        persists_as(t, p),
        restored_from(p, r),
    ensures
        r.task_id@ == t.task_id@,
        r.bvid@ == t.bvid@,
        r.cid == t.cid,
        r.title@ == t.title@,
        opt_view(r.part_title) == opt_view(t.part_title),
        r.video_size == t.video_size,
        r.audio_size == t.audio_size,
        r.video_downloaded == t.video_downloaded,
        r.audio_downloaded == t.audio_downloaded,
        r.save_path@ == t.save_path@,
        r.filename@ == t.filename@,
        r.created_at == t.created_at,
        r.updated_at == t.updated_at,
        r.speed == 0,
        r.last_speed_update_time is None,
        r.last_speed_downloaded == 0,
        match t.status {
            TaskStatus::Failed(m) => r.status matches TaskStatus::Failed(m2) && m2@ == m@,
            TaskStatus::Completed => r.status is Completed,
            TaskStatus::Paused => r.status is Paused,
            _ => r.status is Pending,
        },
{
    lemma_status_round_trip(t.status, r.status);
}

/// Completed tasks are saved only while they were updated within the last
/// day (`updated_at > now - 86400`); every other task is saved.
pub fn should_persist(status: &TaskStatus, updated_at: i64, now: i64) -> (b: bool)
    requires
        now - 86400 >= i64::MIN,
    ensures
        b == (!(*status is Completed) || updated_at > now - 86400),
{
    let is_recent = updated_at > now - 86400;
    let completed = match status {
        TaskStatus::Completed => true,
        _ => false,
    };
    !completed || is_recent
}

/// Saved tasks older than this many seconds are dropped once completed.
pub const TASK_RETENTION_SECS: i64 = 86400 * 7;

/// A saved task survives cleanup unless it is completed and was last
/// updated before `cutoff`.
pub fn keep_persisted_task(status: &str, updated_at: i64, cutoff: i64) -> (b: bool)
    ensures
        b == !(status@ == "Completed"@ && updated_at < cutoff),
{
    !(str_eq(status, "Completed") && updated_at < cutoff)
}

} // verus!
