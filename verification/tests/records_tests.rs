use bilibili_downloader::error_classification::{
    calculate_retry_delay, calculate_retry_delay_secs, classify_error, get_retry_strategy, should_fast_fail,
    ErrorCategory, RetryStrategy,
};
use bilibili_downloader::history::{
    add_history_entry, cleanup_old_history, count_statistics, search_history, sort_entries_newest_first,
    HistoryData, HistoryEntry, MAX_HISTORY_ENTRIES,
};
use bilibili_downloader::persistence::{
    keep_persisted_task, persisted_status, should_persist, status_from_persisted, TASK_RETENTION_SECS,
};
use bilibili_downloader::downloader::TaskStatus;
use std::time::Duration;

fn entry(id: &str, title: &str, status: &str, created_at: i64, size: u64) -> HistoryEntry {
    HistoryEntry {
        task_id: id.to_string(),
        bvid: "BV1".to_string(),
        cid: 1,
        title: title.to_string(),
        part_title: None,
        status: status.to_string(),
        video_size: size,
        audio_size: 0,
        total_size: size,
        save_path: "/v".to_string(),
        filename: "f.mp4".to_string(),
        created_at,
        completed_at: None,
        error_message: None,
    }
}

#[test]
fn errors_are_classified_by_key_words() {
    assert_eq!(classify_error("Connection refused"), ErrorCategory::Connection);
    assert_eq!(classify_error("CONNECTION TIMEOUT"), ErrorCategory::Timeout);
    assert_eq!(classify_error("下载状态码异常: status=403"), ErrorCategory::Server);
    assert_eq!(classify_error("Range请求不可满足 416"), ErrorCategory::Client);
    assert_eq!(classify_error("无法创建分块文件"), ErrorCategory::FileSystem);
    assert_eq!(classify_error("something odd"), ErrorCategory::Unknown);
}

#[test]
fn retry_strategies() {
    assert_eq!(
        get_retry_strategy(ErrorCategory::Connection, 5),
        RetryStrategy { should_retry: true, retry_delay: 2, max_retries: 5, use_exponential_backoff: true }
    );
    assert_eq!(
        get_retry_strategy(ErrorCategory::Timeout, 1),
        RetryStrategy { should_retry: true, retry_delay: 5, max_retries: 3, use_exponential_backoff: false }
    );
    assert_eq!(get_retry_strategy(ErrorCategory::Server, 0).max_retries, 2);
    assert!(!get_retry_strategy(ErrorCategory::Client, 9).should_retry);
    assert_eq!(get_retry_strategy(ErrorCategory::FileSystem, 9).max_retries, 0);
    assert_eq!(get_retry_strategy(ErrorCategory::Unknown, 7).retry_delay, 3);
}

#[test]
fn retry_delays() {
    let s = get_retry_strategy(ErrorCategory::Connection, 3);
    assert_eq!(calculate_retry_delay_secs(0, &s), 2);
    assert_eq!(calculate_retry_delay_secs(2, &s), 8);
    assert_eq!(calculate_retry_delay_secs(5, &s), 60);
    assert_eq!(calculate_retry_delay(2, &s), Duration::from_secs(8));
    let t = get_retry_strategy(ErrorCategory::Timeout, 3);
    assert_eq!(calculate_retry_delay_secs(4, &t), 5);
    let mut delays = Vec::new();
    for a in 0..8 {
        delays.push(calculate_retry_delay_secs(a, &s));
    }
    assert!(delays.windows(2).all(|w| w[0] <= w[1]));
    assert!(delays.iter().all(|d| *d <= 60));
    // Every attempt has a wait, capped at 60 seconds.
    assert_eq!(calculate_retry_delay_secs(64, &s), 60);
    assert_eq!(calculate_retry_delay_secs(usize::MAX, &s), 60);
    assert_eq!(calculate_retry_delay(1000, &s), Duration::from_secs(60));
    let huge = RetryStrategy { should_retry: true, retry_delay: u64::MAX, max_retries: 3, use_exponential_backoff: true };
    assert_eq!(calculate_retry_delay_secs(3, &huge), 60);
    let zero = RetryStrategy { should_retry: true, retry_delay: 0, max_retries: 3, use_exponential_backoff: true };
    assert_eq!(calculate_retry_delay_secs(100, &zero), 0);
}

#[test]
fn fast_failure() {
    assert!(should_fast_fail(ErrorCategory::Client, 0));
    assert!(should_fast_fail(ErrorCategory::FileSystem, 0));
    assert!(!should_fast_fail(ErrorCategory::Server, 1));
    assert!(should_fast_fail(ErrorCategory::Server, 2));
    assert!(!should_fast_fail(ErrorCategory::Timeout, 10));
    for c in [
        ErrorCategory::Connection,
        ErrorCategory::Timeout,
        ErrorCategory::Server,
        ErrorCategory::Client,
        ErrorCategory::FileSystem,
        ErrorCategory::Unknown,
    ] {
        for a in 0..2 {
            assert_eq!(should_fast_fail(c, a), !get_retry_strategy(c, 3).should_retry);
        }
    }
}

#[test]
fn history_keeps_newest_first_and_replaces_by_task() {
    let mut data = HistoryData::empty(0);
    add_history_entry(&mut data, entry("a", "A", "Completed", 10, 1), 100);
    add_history_entry(&mut data, entry("b", "B", "Completed", 30, 1), 101);
    add_history_entry(&mut data, entry("c", "C", "Completed", 20, 1), 102);
    let ids: Vec<&str> = data.entries.iter().map(|e| e.task_id.as_str()).collect();
    assert_eq!(ids, vec!["b", "c", "a"]);
    assert_eq!(data.last_updated, 102);
    add_history_entry(&mut data, entry("a", "A2", "Failed:x", 40, 1), 103);
    assert_eq!(data.entries.len(), 3);
    assert_eq!(data.entries[0].title, "A2");
    assert_eq!(data.version, 1);
}

#[test]
fn history_is_capped() {
    let mut data = HistoryData::empty(0);
    for i in 0..MAX_HISTORY_ENTRIES {
        data.entries.push(entry(&format!("t{}", i), "x", "Completed", i as i64, 1));
    }
    add_history_entry(&mut data, entry("new", "x", "Completed", -1, 1), 5);
    assert_eq!(data.entries.len(), MAX_HISTORY_ENTRIES);
    assert!(data.entries.iter().all(|e| e.task_id != "new"));
    assert_eq!(data.entries[0].created_at, (MAX_HISTORY_ENTRIES - 1) as i64);
}

#[test]
fn sorting_is_stable() {
    let sorted = sort_entries_newest_first(vec![
        entry("1", "x", "Completed", 5, 1),
        entry("2", "x", "Completed", 9, 1),
        entry("3", "x", "Completed", 5, 1),
    ]);
    let ids: Vec<&str> = sorted.iter().map(|e| e.task_id.as_str()).collect();
    assert_eq!(ids, vec!["2", "1", "3"]);
}

#[test]
fn history_search_filters() {
    let mut with_part = entry("p", "Other", "Completed", 50, 1);
    with_part.part_title = Some("Rust Talk".to_string());
    let entries = vec![
        entry("a", "Learning RUST", "Completed", 10, 1),
        entry("b", "Cooking", "Failed:x", 20, 1),
        with_part,
        entry("c", "rust again", "Completed", 30, 1),
    ];
    let r = search_history(entries.clone(), Some("rust".to_string()), None, None, None, 10);
    let ids: Vec<&str> = r.iter().map(|e| e.task_id.as_str()).collect();
    assert_eq!(ids, vec!["a", "p", "c"]);
    let r = search_history(entries.clone(), Some("Rust".to_string()), Some("Completed".to_string()), Some(20), Some(40), 10);
    assert_eq!(r.len(), 1);
    assert_eq!(r[0].task_id, "c");
    let r = search_history(entries.clone(), None, None, None, None, 2);
    assert_eq!(r.len(), 2);
    let r = search_history(entries, None, Some("Failed:x".to_string()), None, None, 10);
    assert_eq!(r[0].task_id, "b");
}

#[test]
fn history_cleanup_drops_old_completed_only() {
    let mut data = HistoryData::empty(7);
    data.entries = vec![
        entry("old", "x", "Completed", 0, 1),
        entry("oldfail", "x", "Failed:y", 0, 1),
        entry("new", "x", "Completed", 10 * 86400, 1),
    ];
    let removed = cleanup_old_history(&mut data, 5, 12 * 86400);
    assert_eq!(removed, 1);
    assert_eq!(data.entries.len(), 2);
    assert_eq!(data.last_updated, 12 * 86400);
    let removed = cleanup_old_history(&mut data, 5, 12 * 86400 + 1);
    assert_eq!(removed, 0);
    assert_eq!(data.last_updated, 12 * 86400);
}

#[test]
fn history_counts() {
    let now = 100 * 86400;
    let entries = vec![
        entry("a", "x", "Completed", now - 86400, 3000),
        entry("b", "x", "Completed", now - 10 * 86400, 600),
        entry("c", "x", "Failed:z", now - 40 * 86400, 999),
        entry("d", "x", "Pending", now, 5),
    ];
    let c = count_statistics(&entries, now);
    assert_eq!(c.total_downloads, 4);
    assert_eq!(c.completed_downloads, 2);
    assert_eq!(c.failed_downloads, 1);
    assert_eq!(c.total_bytes, 3600);
    assert_eq!(c.average_speed, (3000 / 300 + 600 / 300) / 2);
    assert_eq!(c.last_7_days, 2);
    assert_eq!(c.last_30_days, 3);
    let empty = count_statistics(&Vec::new(), now);
    assert_eq!(empty.average_speed, 0);
}

#[test]
fn persisted_status_round_trip() {
    for st in [
        TaskStatus::Pending,
        TaskStatus::Downloading,
        TaskStatus::Paused,
        TaskStatus::Merging,
        TaskStatus::Completed,
        TaskStatus::Failed("网络错误: x".to_string()),
    ] {
        let text = persisted_status(&st);
        let back = status_from_persisted(&text);
        let expected = match &st {
            TaskStatus::Downloading | TaskStatus::Merging => TaskStatus::Pending,
            other => other.clone(),
        };
        assert_eq!(back, expected);
    }
    assert_eq!(persisted_status(&TaskStatus::Failed("e".to_string())), "Failed:e");
    assert_eq!(status_from_persisted("whatever"), TaskStatus::Pending);
}

#[test]
fn which_tasks_are_kept() {
    assert!(!should_persist(&TaskStatus::Completed, 100, 100_000));
    assert!(should_persist(&TaskStatus::Completed, 99_000, 100_000));
    assert!(should_persist(&TaskStatus::Paused, 0, 100_000));
    assert_eq!(TASK_RETENTION_SECS, 604_800);
    assert!(!keep_persisted_task("Completed", 5, 10));
    assert!(keep_persisted_task("Completed", 10, 10));
    assert!(keep_persisted_task("Paused", 5, 10));
}

#[test]
fn classification_ignores_letter_case() {
    for m in ["Connection reset", "Request Timeout", "HTTP Status 503", "Bad Range", "Disk full", "odd"] {
        assert_eq!(classify_error(m), classify_error(&m.to_ascii_uppercase()));
        assert_eq!(classify_error(m), classify_error(&m.to_ascii_lowercase()));
    }
}

#[test]
fn recording_an_entry_has_an_exact_shape() {
    let mut data = HistoryData::empty(0);
    add_history_entry(&mut data, entry("a", "A", "Completed", 10, 1), 1);
    add_history_entry(&mut data, entry("b", "B", "Completed", 20, 1), 2);
    assert_eq!(data.entries.len(), 2);
    // A new task adds one entry.
    add_history_entry(&mut data, entry("c", "C", "Completed", 15, 1), 3);
    assert_eq!(data.entries.len(), 3);
    // A known task replaces its entry.
    add_history_entry(&mut data, entry("a", "A2", "Completed", 5, 1), 4);
    assert_eq!(data.entries.len(), 3);
    let ids: Vec<&str> = data.entries.iter().map(|e| e.task_id.as_str()).collect();
    assert_eq!(ids, vec!["b", "c", "a"]);
    assert_eq!(data.entries[2].title, "A2");
}
