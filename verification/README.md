# bilibili_downloader

The logic of a Bilibili and YouTube video downloader, written in Verus and
proved against its contracts.

- `src/` is the verified library. Every function carries a `requires` /
  `ensures` contract over mathematical models (`Seq`, `Map`, spec functions);
  the public `lemma_*` proof functions state laws that hold across calls, such
  as "chunk plans cover every byte of a stream exactly once" or "the history
  stays ordered newest first and never exceeds 1000 entries".
  - `bilibili/`: URL recognition, the `view` and `playurl` API answers,
    multi-part videos and collections, the page's initial state, and the
    probing of stream candidates (as a state machine the caller drives).
  - `platform/`: platform detection, the `yt-dlp` command lines and the
    reading of their output, cookie checks.
  - `downloader/`: chunk planning and resumption, the checks on every chunk,
    task records and their status changes, merging decisions, resume paths.
  - `history.rs`, `persistence.rs`: the download history and the task list.
  - `error_classification.rs`: error categories and retry policy.
  - `login.rs`, `commands.rs`: QR-code login and the `SESSDATA` token.
  - `text.rs`, `fmt.rs`, `paths.rs`, `pattern.rs`, `url_encoding.rs`: string
    work, number formatting and parsing, and the few calls into `std`,
    `regex`, `urlencoding` and `serde_json`, each behind a small trusted
    wrapper whose contract is stated in its doc comment.
- `app/` is ordinary Rust around the library: HTTP with `reqwest`, files,
  `ffmpeg` and `yt-dlp` processes, async tasks with `tokio`, and the JSON
  formats of the stored files. It drives the library's state machines and
  keeps no rules of its own.
- `tests/` runs the library on concrete inputs.
