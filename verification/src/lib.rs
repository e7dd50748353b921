//! Core logic of a Bilibili/YouTube video downloader: recognising URLs,
//! reading what the web APIs and `yt-dlp` answer, playlists and collections,
//! choosing streams, planning and resuming chunked transfers, retry policy,
//! task states, the download history, QR-code login, and the text rules that
//! name files and directories.

pub mod text;
pub mod fmt;
pub mod paths;
pub mod pattern;
pub mod bilibili;
pub mod downloader;
pub mod error_classification;
pub mod ffmpeg;
pub mod history;
pub mod persistence;
pub mod platform;
pub mod url_encoding;
pub mod login;
pub mod commands;
pub mod logger;
