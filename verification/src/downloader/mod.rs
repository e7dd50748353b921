//! Download tasks: their status, configuration and control flags, and the
//! planning of chunked, resumable transfers.

pub mod chunked;
pub mod manager;
pub mod merger;
pub mod resume;

use vstd::prelude::*;
use std::sync::Arc;
use std::sync::atomic::AtomicBool;
use crate::paths::{path_join, join_facts};

verus! {

/// State of a download task.
#[derive(Debug, Clone, PartialEq)]
pub enum TaskStatus {
    Pending,
    Downloading,
    Paused,
    Merging,
    Completed,
    Failed(String),
}

/// Download settings.
#[derive(Debug, Clone)]
pub struct DownloadConfig {
    pub save_path: String,
    pub concurrent_connections: usize,
    pub chunk_size: usize,
    pub quality: i32,
    pub max_retry: usize,
    pub timeout: u64,
}

/// Name of the file in the configuration directory that holds the settings.
pub const CONFIG_FILE: &'static str = "config.json";

impl DownloadConfig {
    /// The default settings: saving under `<home>/Movies/DiliDown`, four
    /// connections, 1 MiB chunks, quality 80 (1080P), three retries, 30 s
    /// timeout.
    pub fn default_in(home: &str) -> (c: Self)
        ensures
            exists|movies: Seq<char>|
                join_facts(home@, "Movies"@, movies) && join_facts(movies, "DiliDown"@, c.save_path@),
            c.concurrent_connections == 4,
            c.chunk_size == 1024 * 1024,
            c.quality == 80,
            c.max_retry == 3,
            c.timeout == 30,
    {
        let movies = path_join(home, "Movies");
        let save_path = path_join(movies.as_str(), "DiliDown");
        DownloadConfig {
            save_path,
            concurrent_connections: 4,
            chunk_size: 1024 * 1024,
            quality: 80,
            max_retry: 3,
            timeout: 30,
        }
    }
}

/// Pause and cancel flags shared between a task and whoever controls it.
#[derive(Debug, Clone)]
pub struct TaskControl {
    pub paused: Arc<AtomicBool>,
    pub cancelled: Arc<AtomicBool>,
}

impl TaskControl {
    /// Fresh flags, neither paused nor cancelled. The flags are atomics shared
    /// with other threads, of whose values vstd keeps no model, so the
    /// contract states nothing of them.
    pub fn new() -> (c: Self) {
        TaskControl { paused: Arc::new(AtomicBool::new(false)), cancelled: Arc::new(AtomicBool::new(false)) }
    }
}

} // verus!
