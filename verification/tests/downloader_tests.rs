use bilibili_downloader::downloader::chunked::{
    build_chunk_plans, cancellation_check, check_chunk_status, check_fetched_chunk, check_written_chunk,
    chunk_dir_from_output, chunk_file_name, chunk_request, chunk_retry_delay,
    dynamic_concurrency, effective_concurrency, ensure_not_cancelled, existing_chunk_size,
    parse_total_from_content_range, plan_jobs, plan_stream, stream_result, progress_after, total_size_from_response,
    validate_chunk_size, verify_chunk_sizes, ChunkError, ChunkJob, StreamDownloadResult, MIB,
};
use bilibili_downloader::downloader::manager::{
    apply_completion, apply_stream_progress, build_filename, collection_save_path, create_history_entry,
    is_finished_status, new_task_id, new_task_record, sanitize_filename, sanitize_filename_for_dir,
    should_record_history, status_after_progress, status_after_resume, status_on_failure, task_id_with,
    task_output_path, task_temp_dir, touch_task, StartDownloadRequest, StreamKind, TaskRecord,
};
use bilibili_downloader::downloader::merger::{
    build_temp_stream_paths, check_merged_size, chunk_merge_kind, merge_stream_args, needs_hevc_fix,
    report_mentions_hevc, ChunkMerge, MergeError, VideoMerger,
};
use bilibili_downloader::downloader::resume::ResumeManager;
use bilibili_downloader::downloader::{DownloadConfig, TaskControl, TaskStatus};
use bilibili_downloader::persistence::persisted_record;
use std::sync::atomic::Ordering;

fn config() -> DownloadConfig {
    DownloadConfig {
        save_path: "/videos".to_string(),
        concurrent_connections: 4,
        chunk_size: 1024,
        quality: 80,
        max_retry: 3,
        timeout: 30,
    }
}

#[test]
fn chunk_plans_cover_the_stream() {
    let plans = build_chunk_plans(10, 4, "/tmp/c");
    assert_eq!(plans.len(), 3);
    assert_eq!((plans[0].start, plans[0].end, plans[0].len), (0, 3, 4));
    assert_eq!((plans[1].start, plans[1].end, plans[1].len), (4, 7, 4));
    assert_eq!((plans[2].start, plans[2].end, plans[2].len), (8, 9, 2));
    assert_eq!(plans[2].index, 2);
    assert_eq!(plans[2].path, "/tmp/c/000002.part");
    assert_eq!(plans.iter().map(|p| p.len).sum::<u64>(), 10);
    assert!(build_chunk_plans(0, 4, "/tmp/c").is_empty());
    let exact = build_chunk_plans(8, 4, "d");
    assert_eq!(exact.len(), 2);
    assert_eq!(exact[1].end, 7);
}

#[test]
fn chunk_file_names_are_padded() {
    assert_eq!(chunk_file_name(0), "000000.part");
    assert_eq!(chunk_file_name(42), "000042.part");
    assert_eq!(chunk_file_name(1234567), "1234567.part");
}

#[test]
fn sizes_follow_the_stream_length() {
    assert_eq!(dynamic_concurrency(49 * MIB), 2);
    assert_eq!(dynamic_concurrency(199 * MIB), 4);
    assert_eq!(dynamic_concurrency(500 * MIB), 8);
    assert_eq!(effective_concurrency(4, 10 * MIB), 4);
    assert_eq!(effective_concurrency(1, 300 * MIB), 8);
    assert_eq!(effective_concurrency(64, 10), 16);
    assert_eq!(validate_chunk_size(0), Err(ChunkError::ZeroChunkSize));
    assert_eq!(validate_chunk_size(1), Ok(()));
}

#[test]
fn plan_stream_refuses_empty_streams() {
    assert_eq!(plan_stream(0, 1024 * 1024, "d").unwrap_err(), ChunkError::EmptyPlan);
    assert_eq!(plan_stream(10, 0, "d").unwrap_err(), ChunkError::ZeroChunkSize);
    assert_eq!(plan_stream(0, 0, "d").unwrap_err(), ChunkError::ZeroChunkSize);
    // The configured chunk size is the chunk size, whatever the stream length.
    let plans = plan_stream(3 * MIB + 1, 1024 * 1024, "d").unwrap();
    assert_eq!(plans.len(), 4);
    assert_eq!(plans[0].len, MIB);
    assert_eq!(plans[3].len, 1);
    let big = plan_stream(300 * MIB, 1024 * 1024, "d").unwrap();
    assert_eq!(big.len(), 300);
    assert_eq!(big[0].len, MIB);
    let small = plan_stream(10, 4, "d").unwrap();
    assert_eq!(small.len(), 3);
}

#[test]
fn resuming_keeps_what_is_on_disk() {
    let plans = build_chunk_plans(10, 4, "d");
    assert_eq!(existing_chunk_size(3, 4), (3, false));
    assert_eq!(existing_chunk_size(5, 4), (0, true));
    let (done, jobs) = plan_jobs(&plans, &vec![4, 1, 0]);
    assert_eq!(done, 5);
    assert_eq!(jobs.len(), 2);
    assert_eq!((jobs[0].plan.index, jobs[0].existing), (1, 1));
    assert_eq!((jobs[1].plan.index, jobs[1].existing), (2, 0));
    let missing: u64 = jobs.iter().map(|j| j.plan.len - j.existing).sum();
    assert_eq!(done + missing, 10);
    assert_eq!(chunk_request(&jobs[0]), Some((5, 7, 3)));
    let complete = ChunkJob { plan: plans[0].clone(), existing: 4 };
    assert_eq!(chunk_request(&complete), None);
    assert_eq!(progress_after(8, 5, 10), 10);
    assert_eq!(progress_after(3, 4, 10), 7);
    assert_eq!(progress_after(u64::MAX, 1, u64::MAX), u64::MAX);
}

#[test]
fn chunk_checks() {
    let plans = build_chunk_plans(10, 4, "d");
    assert_eq!(verify_chunk_sizes(&plans, &vec![4, 4, 2]), Ok(()));
    assert_eq!(
        verify_chunk_sizes(&plans, &vec![4, 3, 1]),
        Err(ChunkError::ChunkSizeMismatch { index: 1, got: 3, expected: 4 })
    );
    assert_eq!(check_fetched_chunk(1, 4, 7, 0, 4), Err(ChunkError::EmptyChunk { index: 1, start: 4, end: 7 }));
    assert_eq!(
        check_fetched_chunk(1, 4, 7, 3, 4),
        Err(ChunkError::LengthMismatch { index: 1, got: 3, expected: 4 })
    );
    assert_eq!(check_fetched_chunk(1, 4, 7, 4, 4), Ok(()));
    assert_eq!(check_written_chunk(2, 2, 2), Ok(()));
    assert_eq!(
        check_written_chunk(2, 1, 2),
        Err(ChunkError::WriteMismatch { index: 2, got: 1, expected: 2 })
    );
    assert_eq!(check_chunk_status(416, 1, 2), Err(ChunkError::RangeNotSatisfiable { start: 1, end: 2 }));
    assert_eq!(check_chunk_status(200, 1, 2), Err(ChunkError::BadStatus { status: 200 }));
    assert_eq!(check_chunk_status(206, 1, 2), Ok(()));
    assert_eq!(chunk_retry_delay(0, 3), Some(1));
    assert_eq!(chunk_retry_delay(2, 3), Some(4));
    assert_eq!(chunk_retry_delay(3, 3), None);
    assert_eq!(cancellation_check(true), Err(ChunkError::Cancelled));
    assert_eq!(cancellation_check(false), Ok(()));
}

#[test]
fn cancellation_flag_is_read() {
    let control = TaskControl::new();
    assert_eq!(ensure_not_cancelled(&control), Ok(()));
    control.cancelled.store(true, Ordering::SeqCst);
    assert_eq!(ensure_not_cancelled(&control), Err(ChunkError::Cancelled));
    assert!(!control.paused.load(Ordering::SeqCst));
}

#[test]
fn remote_size_from_headers() {
    assert_eq!(parse_total_from_content_range("bytes 0-0/1234"), Some(1234));
    assert_eq!(parse_total_from_content_range("bytes 0-0/*"), None);
    assert_eq!(parse_total_from_content_range("1234"), None);
    assert_eq!(parse_total_from_content_range("a/7/9"), Some(7));
    assert_eq!(total_size_from_response(206, Some("bytes 0-0/5000"), Some("1")), Ok(5000));
    assert_eq!(total_size_from_response(206, Some("bytes 0-0/*"), Some("77")), Ok(77));
    assert_eq!(total_size_from_response(200, None, Some("42")), Ok(42));
    assert_eq!(total_size_from_response(200, Some("bytes 0-0/5000"), Some("0")), Err(ChunkError::UnknownTotalSize));
    assert_eq!(total_size_from_response(404, None, Some("42")), Err(ChunkError::UnknownTotalSize));
    assert_eq!(total_size_from_response(200, None, None), Err(ChunkError::UnknownTotalSize));
}

#[test]
fn chunk_directory_sits_beside_the_output() {
    assert_eq!(chunk_dir_from_output("/tmp/task/video.part"), "/tmp/task/video.part.chunks");
    assert_eq!(chunk_dir_from_output("video.part"), "video.part.chunks");
    assert_eq!(chunk_dir_from_output("/"), "./stream.chunks");
    // Two outputs in one folder get different chunk directories.
    assert_eq!(chunk_dir_from_output("/tmp/t/video.part"), "/tmp/t/video.part.chunks");
    assert_eq!(chunk_dir_from_output("/tmp/t/audio.part"), "/tmp/t/audio.part.chunks");
    assert_eq!(chunk_dir_from_output("/a.part"), "/a.part.chunks");
    assert_eq!(chunk_dir_from_output("d/e/f.part"), "d/e/f.part.chunks");
}

#[test]
fn file_names_are_sanitized() {
    assert_eq!(sanitize_filename("a/b:c*d?\"e<f>g|h\\i"), "a_b_c_d__e_f_g_h_i");
    assert_eq!(sanitize_filename("   "), "未命名视频");
    assert_eq!(sanitize_filename("  \t "), "_");
    assert_eq!(sanitize_filename("x\u{7}y"), "x_y");
    assert_eq!(sanitize_filename_for_dir("  ..合集..  "), "合集");
    assert_eq!(sanitize_filename_for_dir("   "), "未命名合集");
    // Nothing usable left after the dots go: the fallback name.
    assert_eq!(sanitize_filename_for_dir("..."), "未命名合集");
    assert_eq!(sanitize_filename_for_dir(" . . "), "未命名合集");
    assert_eq!(sanitize_filename_for_dir("a/b"), "a_b");
    assert_eq!(build_filename("Title", Some("P1: intro")), "P1_ intro.mp4");
    assert_eq!(build_filename("T/itle", None), "T_itle.mp4");
}

#[test]
fn collections_get_a_directory() {
    let c = Some("collection".to_string());
    assert_eq!(collection_save_path("/base", &c, &Some("My/Show".to_string())).as_deref(), Some("/base/My_Show"));
    assert_eq!(collection_save_path("/base", &Some("multi_part".to_string()), &Some("X".to_string())).as_deref(), Some("/base/X"));
    assert_eq!(collection_save_path("/base", &Some("single".to_string()), &Some("X".to_string())), None);
    assert_eq!(collection_save_path("/base", &c, &Some("  ".to_string())), None);
    assert_eq!(collection_save_path("/base", &c, &None), None);
    assert_eq!(collection_save_path("/base", &None, &Some("X".to_string())), None);
}

#[test]
fn task_ids() {
    assert_eq!(task_id_with("BV1", 42, "u"), "BV1_42_u");
    let a = new_task_id("BV1", 42);
    assert!(a.starts_with("BV1_42_"));
    assert_eq!(a.len(), "BV1_42_".len() + 36);
    let u: Vec<char> = a["BV1_42_".len()..].chars().collect();
    for (i, c) in u.iter().enumerate() {
        if [8, 13, 18, 23].contains(&i) {
            assert_eq!(*c, '-');
        } else {
            assert!(c.is_ascii_digit() || ('a'..='f').contains(c));
        }
    }
    assert_eq!(u[14], '4');
    assert_ne!(new_task_id("BV1", 42), a);
}

#[test]
fn status_moves() {
    assert_eq!(status_after_progress(&TaskStatus::Paused), TaskStatus::Paused);
    assert_eq!(status_after_progress(&TaskStatus::Pending), TaskStatus::Downloading);
    assert_eq!(status_after_resume(&TaskStatus::Completed), TaskStatus::Completed);
    assert_eq!(status_after_resume(&TaskStatus::Paused), TaskStatus::Downloading);
    assert!(is_finished_status(&TaskStatus::Failed("x".to_string())));
    assert!(!is_finished_status(&TaskStatus::Merging));
    assert!(should_record_history(&TaskStatus::Merging, &TaskStatus::Completed));
    assert!(!should_record_history(&TaskStatus::Completed, &TaskStatus::Completed));
    assert!(!should_record_history(&TaskStatus::Failed("a".to_string()), &TaskStatus::Failed("b".to_string())));
    assert_eq!(status_on_failure("任务已取消"), None);
    assert_eq!(status_on_failure("boom"), Some(TaskStatus::Failed("boom".to_string())));
}

fn request() -> StartDownloadRequest {
    StartDownloadRequest {
        bvid: "BV1".to_string(),
        cid: 9,
        title: "Show".to_string(),
        part_title: Some("Ep/1".to_string()),
        video_url: "v".to_string(),
        audio_url: "a".to_string(),
        config: config(),
        collection_type: None,
        collection_title: None,
    }
}

fn record() -> TaskRecord {
    new_task_record("t1".to_string(), &request(), "/videos".to_string(), 1000)
}

#[test]
fn task_records_track_progress() {
    let mut t = record();
    assert_eq!(t.status, TaskStatus::Pending);
    assert_eq!(t.filename, "Ep_1.mp4");
    assert_eq!((t.created_at, t.updated_at), (1000, 1000));
    apply_stream_progress(&mut t, StreamKind::Video, 10, 100);
    assert_eq!((t.video_downloaded, t.video_size, t.audio_downloaded), (10, 100, 0));
    assert_eq!(t.status, TaskStatus::Downloading);
    t.status = TaskStatus::Paused;
    apply_stream_progress(&mut t, StreamKind::Audio, 5, 50);
    assert_eq!((t.audio_downloaded, t.audio_size, t.video_downloaded), (5, 50, 10));
    assert_eq!(t.status, TaskStatus::Paused);
    let v = StreamDownloadResult { downloaded: 100, total: 100, output_paths: vec![] };
    let a = StreamDownloadResult { downloaded: 50, total: 50, output_paths: vec![] };
    apply_completion(&mut t, &v, &a);
    assert_eq!(t.status, TaskStatus::Completed);
    assert_eq!((t.video_downloaded, t.audio_downloaded, t.video_size, t.audio_size), (100, 50, 100, 50));
    assert_eq!(task_output_path(&t), "/videos/Ep_1.mp4");
}

#[test]
fn speed_samples() {
    let mut t = record();
    assert_eq!(touch_task(&mut t, 2000), None);
    assert_eq!(t.last_speed_update_time, Some(2000));
    assert_eq!(t.updated_at, 2000);
    t.video_downloaded = 600;
    // Same second: less than half a second has passed.
    assert_eq!(touch_task(&mut t, 2000), None);
    assert_eq!(t.last_speed_update_time, Some(2000));
    // One second later the speed sample is taken.
    assert_eq!(touch_task(&mut t, 2001), Some((600, 1)));
    assert_eq!((t.last_speed_update_time, t.last_speed_downloaded), (Some(2001), 600));
    // No new bytes: no new sample.
    assert_eq!(touch_task(&mut t, 5000), None);
}

#[test]
fn history_entries_of_tasks() {
    let mut t = record();
    t.video_size = 7;
    t.audio_size = 3;
    t.status = TaskStatus::Failed("bad".to_string());
    t.updated_at = 1234;
    let e = create_history_entry(&t);
    assert_eq!(e.status, "Failed:bad");
    assert_eq!(e.total_size, 10);
    assert_eq!(e.completed_at, Some(1234));
    assert_eq!(e.error_message.as_deref(), Some("bad"));
    t.status = TaskStatus::Downloading;
    let e = create_history_entry(&t);
    assert_eq!(e.status, "Pending");
    assert_eq!(e.completed_at, None);
}

#[test]
fn temp_directories() {
    assert_eq!(task_temp_dir("/cache", "t1"), "/cache/bilibili-downloader/tasks/t1");
    let m = ResumeManager::new("/base");
    assert_eq!(m.metadata_dir, "/base/resume");
    assert_eq!(m.get_temp_dir("t1"), "/base/temp/t1");
    assert_eq!(m.metadata_path("t1"), "/base/resume/t1.json");
    assert_eq!(m.generate_task_id("BV1", -5), "BV1_-5");
    let d = DownloadConfig::default_in("/home/u");
    assert_eq!(d.save_path, "/home/u/Movies/DiliDown");
    assert_eq!((d.concurrent_connections, d.chunk_size, d.quality, d.max_retry, d.timeout), (4, 1024 * 1024, 80, 3, 30));
}

#[test]
fn merging() {
    assert_eq!(VideoMerger::new("ff".to_string()).ffmpeg_path, "ff");
    assert_eq!(chunk_merge_kind(0), Err(MergeError::NoChunks));
    assert_eq!(chunk_merge_kind(1), Ok(ChunkMerge::Copy));
    assert_eq!(chunk_merge_kind(5), Ok(ChunkMerge::Concatenate));
    assert_eq!(check_merged_size(3, 3), Ok(()));
    assert_eq!(check_merged_size(2, 3), Err(MergeError::SizeMismatch { got: 2, expected: 3 }));
    let (v, a) = build_temp_stream_paths("/out", Some("movie"), 12, 345);
    assert_eq!(v, "/out/video_combined_movie_12_345.mp4");
    assert_eq!(a, "/out/audio_combined_movie_12_345.m4a");
    let (v, _) = build_temp_stream_paths("/out", None, 1, 2);
    assert_eq!(v, "/out/video_combined_output_1_2.mp4");
    assert!(report_mentions_hevc("Stream #0:0: Video: HEVC (Main)"));
    assert!(!report_mentions_hevc("Video: h264"));
    assert!(needs_hevc_fix("macos", true));
    assert!(!needs_hevc_fix("linux", true));
    assert_eq!(
        merge_stream_args("v.mp4", "a.m4a", "o.mp4", true),
        vec!["-i", "v.mp4", "-i", "a.m4a", "-c:v", "copy", "-tag:v", "hvc1", "-c:a", "copy", "-y", "o.mp4"]
    );
    assert_eq!(merge_stream_args("v", "a", "o", false).len(), 10);
}

#[test]
fn chunk_error_messages() {
    let url = "https://cdn.example/v.m4s";
    assert_eq!(ChunkError::ZeroChunkSize.message(url), "分块大小不能为 0");
    assert_eq!(ChunkError::EmptyPlan.message(url), "分块规划失败，文件大小无效");
    assert_eq!(ChunkError::UnknownTotalSize.message(url), "无法获取远端文件大小");
    assert_eq!(ChunkError::Cancelled.message(url), "任务已取消");
    assert_eq!(
        ChunkError::ChunkSizeMismatch { index: 2, got: 3, expected: 4 }.message(url),
        "分块校验失败: index=2, got=3, expected=4"
    );
    assert_eq!(
        ChunkError::EmptyChunk { index: 1, start: 10, end: 19 }.message(url),
        "服务器返回空分块: index=1, range=10-19\nURL: https://cdn.example/v.m4s"
    );
    assert_eq!(
        ChunkError::LengthMismatch { index: 0, got: 5, expected: 1048576 }.message(url),
        "分块长度不匹配: index=0, got=5, expected=1048576\nURL: https://cdn.example/v.m4s"
    );
    assert_eq!(
        ChunkError::WriteMismatch { index: 7, got: 0, expected: 9 }.message(url),
        "分块写入校验失败: index=7, got=0, expected=9"
    );
    assert_eq!(
        ChunkError::RangeNotSatisfiable { start: 0, end: 99 }.message(url),
        "Range请求不可满足: bytes=0-99, 请尝试删除缓存重新下载\nURL: https://cdn.example/v.m4s"
    );
    assert_eq!(
        ChunkError::BadStatus { status: 403 }.message(url),
        "下载状态码异常: status=403\nURL: https://cdn.example/v.m4s"
    );
    // Only the first 100 characters of a long URL are quoted.
    let long = format!("https://x/{}", "a".repeat(200));
    let m = ChunkError::BadStatus { status: 500 }.message(&long);
    let quoted: String = long.chars().take(100).collect();
    assert_eq!(m, format!("下载状态码异常: status=500\nURL: {}", quoted));
}

#[test]
fn finished_streams_report_every_chunk() {
    let plans = plan_stream(10, 4, "/c").unwrap();
    let r = stream_result(&plans, 10);
    assert_eq!((r.downloaded, r.total), (10, 10));
    assert_eq!(r.output_paths, vec!["/c/000000.part", "/c/000001.part", "/c/000002.part"]);
}

#[test]
fn saved_tasks_come_back() {
    let mut t = record();
    t.video_downloaded = 40;
    t.speed = 123;
    t.last_speed_update_time = Some(5);
    t.last_speed_downloaded = 40;
    t.status = TaskStatus::Downloading;
    let p = persisted_record(&t);
    assert_eq!(p.status, "Downloading");
    assert_eq!(p.speed, 123);
    let r = p.to_pending_task();
    assert_eq!(r.task_id, t.task_id);
    assert_eq!(r.title, t.title);
    assert_eq!(r.part_title, t.part_title);
    assert_eq!((r.video_downloaded, r.video_size, r.created_at, r.updated_at), (40, t.video_size, t.created_at, t.updated_at));
    assert_eq!(r.status, TaskStatus::Pending);
    assert_eq!((r.speed, r.last_speed_update_time, r.last_speed_downloaded), (0, None, 0));
    t.status = TaskStatus::Failed("boom".to_string());
    assert_eq!(persisted_record(&t).to_pending_task().status, TaskStatus::Failed("boom".to_string()));
}
