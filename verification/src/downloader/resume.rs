//! Where the metadata and temporary files of resumable tasks live.

use vstd::prelude::*;
use super::DownloadConfig;
use crate::text::concat;
use crate::fmt::{push_i64, int_decimal};
use crate::paths::{path_join, join_facts};

verus! {

/// One chunk of a resumable transfer.
#[derive(Debug, Clone)]
pub struct ChunkInfo {
    pub index: usize,
    pub start: u64,
    pub end: u64,
    pub downloaded: bool,
    pub path: String,
}

/// What is saved to resume a task.
#[derive(Debug, Clone)]
pub struct ResumeMetadata {
    pub task_id: String,
    pub bvid: String,
    pub cid: i64,
    pub title: String,
    pub part_title: Option<String>,
    pub video_url: String,
    pub audio_url: String,
    pub video_size: u64,
    pub audio_size: u64,
    pub video_chunks: Vec<ChunkInfo>,
    pub audio_chunks: Vec<ChunkInfo>,
    pub config: DownloadConfig,
    pub created_at: i64,
}

/// The directories of resumable tasks: metadata under `resume`, temporary
/// files under `temp`, both in one base directory.
#[derive(Debug, Clone)]
pub struct ResumeManager {
    pub metadata_dir: String,
    pub temp_dir: String,
}

impl ResumeManager {
    /// The manager of `base_dir`; the caller creates the two directories.
    pub fn new(base_dir: &str) -> (m: Self)
        ensures
            join_facts(base_dir@, "resume"@, m.metadata_dir@),
            join_facts(base_dir@, "temp"@, m.temp_dir@),
    {
        ResumeManager { metadata_dir: path_join(base_dir, "resume"), temp_dir: path_join(base_dir, "temp") }
    }

    /// The metadata file of a task: `<task_id>.json` in the metadata directory.
    pub fn metadata_path(&self, task_id: &str) -> (p: String)
        ensures
            exists|name: Seq<char>| name == task_id@ + ".json"@ && join_facts(self.metadata_dir@, name, p@),
    {
        let name = concat(task_id, ".json");
        path_join(self.metadata_dir.as_str(), name.as_str())
    }

    /// The temporary directory of a task.
    pub fn get_temp_dir(&self, task_id: &str) -> (p: String)
        ensures
            join_facts(self.temp_dir@, task_id@, p@),
    {
        path_join(self.temp_dir.as_str(), task_id)
    }

    /// The resume id of a video part: `<bvid>_<cid>`.
    pub fn generate_task_id(&self, bvid: &str, cid: i64) -> (id: String)
        ensures
            id@ == bvid@ + "_"@ + int_decimal(cid as int),
    {
        let mut s = concat(bvid, "_");
        push_i64(&mut s, cid);
        s
    }
}

} // verus!
