//! Locating FFmpeg.

pub mod detector;

use vstd::prelude::*;

verus! {

/// The FFmpeg executable in use.
#[derive(Debug, Clone)]
pub struct FFmpegManager {
    pub path: String,
}

impl FFmpegManager {
    pub fn new(path: String) -> (m: Self)
        ensures
            m.path == path,
    {
        FFmpegManager { path }
    }

    pub fn path(&self) -> (p: &str)
        ensures
            p@ == self.path@,
    {
        self.path.as_str()
    }
}

} // verus!
