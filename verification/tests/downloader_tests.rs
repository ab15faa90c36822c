use m3u8_downloader_core::config::{AppConfig, TempNameStrategy};
use m3u8_downloader_core::crypto::CryptoError;
use m3u8_downloader_core::downloader::{
    compute_task_id, count_present, estimate_total_size, extract_host_header, host_header_text,
    retry_delay_ms, segment_needs_download, segment_paths, DownloadError, DownloadProgress,
    DownloadRun, RunAction, RunEvent, RunPhase, TaskStatus,
};
use m3u8_downloader_core::merger::MergeError;
use m3u8_downloader_core::parser::ParseError;

#[test]
fn a_new_progress_is_pending() {
    let p = DownloadProgress::new_pending();
    assert_eq!(p.status, TaskStatus::Pending);
    assert_eq!(p.task_id, "pending");
    assert!(p.output_path.is_none());
    assert!(p.estimated_total_size.is_none());
    assert!(p.eta_seconds.is_none());
}

#[test]
fn a_final_status_is_kept() {
    let mut p = DownloadProgress::new_pending();
    p.set_status(TaskStatus::Parsing, "abc");
    assert_eq!(p.status, TaskStatus::Parsing);
    assert_eq!(p.task_id, "abc");
    p.set_status(TaskStatus::Completed, "abc");
    p.set_status(TaskStatus::Failed("late".into()), "other");
    assert_eq!(p.status, TaskStatus::Completed);
    assert_eq!(p.task_id, "abc");
    p.record_segment_done(5, 9, "other", Some(3));
    assert_eq!(p.status, TaskStatus::Completed);
    assert!(p.eta_seconds.is_none());
}

#[test]
fn segment_reports_update_the_count_and_keep_the_last_eta() {
    let mut p = DownloadProgress::new_pending();
    p.record_segment_done(3, 10, "id", Some(5));
    assert_eq!(p.status, TaskStatus::Downloading { completed: 3, total: 10 });
    assert_eq!(p.eta_seconds, Some(5));
    p.record_segment_done(4, 10, "id", None);
    assert_eq!(p.status, TaskStatus::Downloading { completed: 4, total: 10 });
    assert_eq!(p.eta_seconds, Some(5));
}

#[test]
fn failures_are_recorded_with_their_message() {
    let mut p = DownloadProgress::new_pending();
    p.record_failure(&DownloadError::MaxRetriesExceeded("部分分片下载失败".into()), "id");
    assert_eq!(p.status, TaskStatus::Failed("下载失败 (重试已用尽): 部分分片下载失败".into()));

    let mut p = DownloadProgress::new_pending();
    p.set_status(TaskStatus::Parsing, "id");
    p.record_failure(&DownloadError::Cancelled, "id");
    assert_eq!(p.status, TaskStatus::Parsing);

    let mut p = DownloadProgress::new_pending();
    p.record_failure(&DownloadError::Crypto(CryptoError::InvalidKeyLength), "id");
    assert_eq!(p.status, TaskStatus::Failed("解密失败: 无效的密钥长度".into()));

    let mut p = DownloadProgress::new_pending();
    p.set_status(TaskStatus::Cancelled, "id");
    p.record_failure(&DownloadError::Merge(MergeError::NoSegments), "id");
    assert_eq!(p.status, TaskStatus::Cancelled);
}

#[test]
fn download_error_messages() {
    assert_eq!(
        DownloadError::Parse(ParseError::Parse("bad".into())).message(),
        "解析失败: M3U8 解析失败: bad"
    );
    assert_eq!(
        DownloadError::Parse(ParseError::InvalidUrl("x".into())).message(),
        "解析失败: 无效的 URL: x"
    );
    assert_eq!(DownloadError::Merge(MergeError::NoSegments).message(), "合并失败: 无分片文件可合并");
    assert_eq!(
        DownloadError::Crypto(CryptoError::DecryptError("Unpad Error".into())).message(),
        "解密失败: 解密失败: Unpad Error"
    );
    assert_eq!(DownloadError::Cancelled.message(), "任务已取消");
    let io = std::io::Error::new(std::io::ErrorKind::Other, "no space");
    assert_eq!(DownloadError::Io(io).message(), "IO 错误: no space");
}

#[test]
fn task_ids() {
    // the first 12 hex digits of SHA-256("abc")
    assert_eq!(compute_task_id(TempNameStrategy::ContentHash, "https://e.com/a.m3u8", "abc"), "ba7816bf8f01");
    assert_eq!(compute_task_id(TempNameStrategy::ContentHash, "https://other.org/b.m3u8", "abc"), "ba7816bf8f01");
    assert_eq!(
        compute_task_id(TempNameStrategy::Filename, "https://x.com/a/b/video.m3u8?token=1#frag", ""),
        "video"
    );
    assert_eq!(compute_task_id(TempNameStrategy::Filename, "https://x.com/a/archive.tar.gz", ""), "archive.tar");
    assert_eq!(compute_task_id(TempNameStrategy::Filename, "https://x.com/", ""), "x");
    assert_eq!(compute_task_id(TempNameStrategy::Filename, "https://x.com/..", ""), "m3u8_task");
}

#[test]
fn resuming_and_retrying() {
    assert_eq!(count_present(&vec![true, false, true]), 2);
    assert_eq!(count_present(&Vec::new()), 0);
    assert_eq!(segment_paths("/t", 2), vec!["/t/seg_000000.ts".to_string(), "/t/seg_000001.ts".to_string()]);
    assert!(segment_needs_download(false, false, false));
    assert!(!segment_needs_download(true, false, false));
    assert!(!segment_needs_download(false, true, false));
    assert!(!segment_needs_download(false, false, true));
    assert_eq!(retry_delay_ms(0, 3), Some(500));
    assert_eq!(retry_delay_ms(2, 3), Some(1500));
    assert_eq!(retry_delay_ms(3, 3), None);
    assert_eq!(retry_delay_ms(0, 0), None);
    assert_eq!(estimate_total_size(1000, 12), 12000);
    assert_eq!(estimate_total_size(u64::MAX, 2), u64::MAX - 1);
}

#[test]
fn host_headers() {
    assert_eq!(host_header_text("https://example.com:8080/a.m3u8"), Some("example.com:8080".to_string()));
    assert_eq!(host_header_text("https://example.com/a.m3u8"), Some("example.com".to_string()));
    assert_eq!(host_header_text("http://example.com:80/a.m3u8"), Some("example.com".to_string()));
    assert_eq!(host_header_text("not a url"), None);
    let h = extract_host_header("https://example.com:8080/x").unwrap();
    assert_eq!(h.to_str().unwrap(), "example.com:8080");
    let h = extract_host_header("http://media.example.org/live/a.m3u8").unwrap();
    assert_eq!(h.to_str().unwrap(), "media.example.org");
    assert!(extract_host_header("::").is_none());
}

fn run_for(save: &str, url: &str) -> (DownloadRun, DownloadProgress) {
    let mut cfg = AppConfig::with_save_path(save.to_string());
    cfg.temp_name_strategy = TempNameStrategy::Filename;
    (DownloadRun::new(url.to_string(), cfg, "movie.mp4".to_string()), DownloadProgress::new_pending())
}

#[test]
fn a_run_from_start_to_completion() {
    let (mut run, mut p) = run_for("/save", "https://e.com/v/movie.m3u8");
    assert!(matches!(run.step(&mut p, RunEvent::Started), RunAction::FetchPlaylist));
    assert_eq!(p.status, TaskStatus::Parsing);
    let a = run.step(
        &mut p,
        RunEvent::PlaylistFetched {
            segment_count: 3,
            raw_content: "#EXTM3U".into(),
            total_duration_bits: 30.0f64.to_bits(),
        },
    );
    match a {
        RunAction::CreateTempDir(d) => assert_eq!(d, "/save/.m3u8_temp/movie"),
        other => panic!("unexpected {:?}", other),
    }
    assert_eq!(p.task_id, "movie");
    assert_eq!(p.estimated_total_duration_bits, Some(30.0f64.to_bits()));
    match run.step(&mut p, RunEvent::TempDirCreated { cancelled: false }) {
        RunAction::PrepareFirstSegment(f) => assert_eq!(f, "/save/.m3u8_temp/movie/seg_000000.ts"),
        other => panic!("unexpected {:?}", other),
    }
    assert_eq!(p.status, TaskStatus::Downloading { completed: 0, total: 3 });
    match run.step(&mut p, RunEvent::FirstSegmentReady { size: Some(1000) }) {
        RunAction::ScanExisting(ps) => assert_eq!(
            ps,
            vec![
                "/save/.m3u8_temp/movie/seg_000000.ts".to_string(),
                "/save/.m3u8_temp/movie/seg_000001.ts".to_string(),
                "/save/.m3u8_temp/movie/seg_000002.ts".to_string(),
            ]
        ),
        other => panic!("unexpected {:?}", other),
    }
    assert_eq!(p.estimated_total_size, Some(3000));
    match run.step(&mut p, RunEvent::ExistingScanned { present: vec![true, false, false] }) {
        RunAction::DownloadSegments { temp_dir, initial_completed } => {
            assert_eq!(temp_dir, "/save/.m3u8_temp/movie");
            assert_eq!(initial_completed, 1);
        },
        other => panic!("unexpected {:?}", other),
    }
    assert_eq!(p.status, TaskStatus::Downloading { completed: 1, total: 3 });
    p.record_segment_done(2, 3, "movie", Some(4));
    p.record_segment_done(3, 3, "movie", Some(0));
    match run.step(&mut p, RunEvent::SegmentsFinished { cancelled: false, has_error: false }) {
        RunAction::Merge { temp_dir, output_path, segment_count } => {
            assert_eq!(temp_dir, "/save/.m3u8_temp/movie");
            assert_eq!(output_path, "/save/movie.mp4");
            assert_eq!(segment_count, 3);
        },
        other => panic!("unexpected {:?}", other),
    }
    assert_eq!(p.status, TaskStatus::Merging);
    match run.step(&mut p, RunEvent::Merged) {
        RunAction::Complete { temp_dir, output_path } => {
            assert_eq!(temp_dir, "/save/.m3u8_temp/movie");
            assert_eq!(output_path, "/save/movie.mp4");
        },
        other => panic!("unexpected {:?}", other),
    }
    assert_eq!(p.status, TaskStatus::Completed);
    assert_eq!(p.output_path, Some("/save/movie.mp4".to_string()));
    assert_eq!(run.phase, RunPhase::Finished);
    // nothing more happens after the end
    assert!(matches!(run.step(&mut p, RunEvent::Started), RunAction::Ignore));
    assert_eq!(p.status, TaskStatus::Completed);
}

#[test]
fn a_run_cancelled_before_downloading() {
    let (mut run, mut p) = run_for("/save", "https://e.com/v/show.m3u8");
    run.step(&mut p, RunEvent::Started);
    run.step(&mut p, RunEvent::PlaylistFetched { segment_count: 2, raw_content: String::new(), total_duration_bits: 0 });
    match run.step(&mut p, RunEvent::TempDirCreated { cancelled: true }) {
        RunAction::StopCancelled { remove_temp_dir } => {
            assert_eq!(remove_temp_dir, Some("/save/.m3u8_temp/show".to_string()))
        },
        other => panic!("unexpected {:?}", other),
    }
    assert_eq!(p.status, TaskStatus::Cancelled);
}

#[test]
fn a_run_names_its_directory_by_content_hash_by_default() {
    let cfg = AppConfig::with_save_path("/save".to_string());
    let mut run = DownloadRun::new("https://e.com/v/a.m3u8".into(), cfg, "a.mp4".into());
    let mut p = DownloadProgress::new_pending();
    run.step(&mut p, RunEvent::Started);
    match run.step(&mut p, RunEvent::PlaylistFetched { segment_count: 1, raw_content: "abc".into(), total_duration_bits: 0 }) {
        RunAction::CreateTempDir(d) => assert_eq!(d, "/save/.m3u8_temp/ba7816bf8f01"),
        other => panic!("unexpected {:?}", other),
    }
    assert_eq!(p.task_id, "ba7816bf8f01");
}

#[test]
fn a_run_whose_segments_fail() {
    let (mut run, mut p) = run_for("/save", "https://e.com/v/show.m3u8");
    run.step(&mut p, RunEvent::Started);
    run.step(&mut p, RunEvent::PlaylistFetched { segment_count: 0, raw_content: String::new(), total_duration_bits: 0 });
    match run.step(&mut p, RunEvent::TempDirCreated { cancelled: false }) {
        RunAction::ScanExisting(ps) => assert!(ps.is_empty()),
        other => panic!("unexpected {:?}", other),
    }
    run.step(&mut p, RunEvent::ExistingScanned { present: Vec::new() });
    match run.step(&mut p, RunEvent::SegmentsFinished { cancelled: false, has_error: true }) {
        RunAction::StopRetriesExhausted(m) => assert_eq!(m, "部分分片下载失败"),
        other => panic!("unexpected {:?}", other),
    }
    // an event out of turn is ignored
    let (mut run, mut p) = run_for("/save", "https://e.com/v/show.m3u8");
    assert!(matches!(run.step(&mut p, RunEvent::Merged), RunAction::Ignore));
    assert_eq!(p.status, TaskStatus::Pending);
}

#[test]
fn network_error_messages_carry_the_error_text() {
    let err = reqwest::Client::new().get("not a url").build().unwrap_err();
    let text = err.to_string();
    let m = ParseError::Network(err).message();
    assert_eq!(m, format!("网络请求失败: {}", text));
    assert!(m.len() > "网络请求失败: ".len());
    let err = reqwest::Client::new().get("::").build().unwrap_err();
    let text = err.to_string();
    assert_eq!(DownloadError::Network(err).message(), format!("网络请求失败: {}", text));
}

#[test]
fn the_first_segment_is_retried() {
    let (mut run, mut p) = run_for("/save", "https://e.com/v/movie.m3u8");
    run.config.max_retries = 2;
    run.step(&mut p, RunEvent::Started);
    run.step(&mut p, RunEvent::PlaylistFetched { segment_count: 2, raw_content: String::new(), total_duration_bits: 0 });
    run.step(&mut p, RunEvent::TempDirCreated { cancelled: false });
    match run.step(&mut p, RunEvent::FirstSegmentFailed { attempt: 0, cancelled: false }) {
        RunAction::RetryFirstSegment { path, delay_ms } => {
            assert_eq!(path, "/save/.m3u8_temp/movie/seg_000000.ts");
            assert_eq!(delay_ms, 500);
        },
        other => panic!("unexpected {:?}", other),
    }
    match run.step(&mut p, RunEvent::FirstSegmentFailed { attempt: 1, cancelled: false }) {
        RunAction::RetryFirstSegment { delay_ms, .. } => assert_eq!(delay_ms, 1000),
        other => panic!("unexpected {:?}", other),
    }
    // a retry that succeeds goes on as usual
    assert!(matches!(run.step(&mut p, RunEvent::FirstSegmentReady { size: Some(10) }), RunAction::ScanExisting(_)));
    assert_eq!(p.estimated_total_size, Some(20));

    let (mut run, mut p) = run_for("/save", "https://e.com/v/movie.m3u8");
    run.config.max_retries = 1;
    run.step(&mut p, RunEvent::Started);
    run.step(&mut p, RunEvent::PlaylistFetched { segment_count: 2, raw_content: String::new(), total_duration_bits: 0 });
    run.step(&mut p, RunEvent::TempDirCreated { cancelled: false });
    assert!(matches!(run.step(&mut p, RunEvent::FirstSegmentFailed { attempt: 0, cancelled: false }), RunAction::RetryFirstSegment { .. }));
    assert!(matches!(run.step(&mut p, RunEvent::FirstSegmentFailed { attempt: 1, cancelled: false }), RunAction::StopFirstSegmentFailed));
    assert_eq!(run.phase, RunPhase::Finished);

    let (mut run, mut p) = run_for("/save", "https://e.com/v/movie.m3u8");
    run.step(&mut p, RunEvent::Started);
    run.step(&mut p, RunEvent::PlaylistFetched { segment_count: 2, raw_content: String::new(), total_duration_bits: 0 });
    run.step(&mut p, RunEvent::TempDirCreated { cancelled: false });
    // cancelled after a failed attempt: the run ends with that attempt's error
    let before = p.status.clone();
    assert!(matches!(
        run.step(&mut p, RunEvent::FirstSegmentFailed { attempt: 0, cancelled: true }),
        RunAction::StopFirstSegmentFailed
    ));
    assert_eq!(p.status, before);
    assert_eq!(run.phase, RunPhase::Finished);
}

#[test]
fn a_new_run_starts_empty() {
    let (run, _) = run_for("/save", "https://e.com/v/movie.m3u8");
    assert_eq!(run.phase, RunPhase::Start);
    assert_eq!(run.task_id, "pending");
    assert!(run.temp_dir.is_empty());
    assert_eq!(run.total_segments, 0);
    assert_eq!(run.initial_completed, 0);
    assert!(run.output_path.is_empty());
}
