use m3u8_downloader_core::display::{
    byte_unit, byte_unit_label, duration_text, small_bytes_text, summary_text, task_row_title,
    task_summary, TaskSummary,
};
use m3u8_downloader_core::queue::{BatchTaskItem, BatchTaskStatus};

fn item(name: &str, status: BatchTaskStatus) -> BatchTaskItem {
    BatchTaskItem {
        url: format!("https://example.com/{}.m3u8", name),
        output_filename: format!("{}.mp4", name),
        status,
        detail: String::new(),
    }
}

#[test]
fn summary_counts_each_kind_of_task() {
    let tasks = vec![
        item("a", BatchTaskStatus::Pending),
        item("b", BatchTaskStatus::Running),
        item("c", BatchTaskStatus::Completed),
        item("d", BatchTaskStatus::Completed),
        item("e", BatchTaskStatus::Skipped),
        item("f", BatchTaskStatus::Failed),
        item("g", BatchTaskStatus::Cancelled),
    ];
    let s = task_summary(&tasks);
    assert_eq!(s, TaskSummary { total: 7, remaining: 2, completed: 2, skipped: 1, failed: 1 });
    // every task is counted once, or else it was cancelled
    assert_eq!(s.remaining + s.completed + s.skipped + s.failed + 1, s.total);
    assert_eq!(summary_text(s), "任务总数: 7  剩余: 2  已完成: 2  已跳过: 1  失败: 1");
}

#[test]
fn summary_of_an_empty_batch() {
    let s = task_summary(&Vec::new());
    assert_eq!(s, TaskSummary { total: 0, remaining: 0, completed: 0, skipped: 0, failed: 0 });
    assert_eq!(summary_text(s), "任务总数: 0  剩余: 0  已完成: 0  已跳过: 0  失败: 0");
}

#[test]
fn task_rows_are_numbered_from_one() {
    assert_eq!(task_row_title(0, &item("clip", BatchTaskStatus::Running)), "#01 [下载中] clip.mp4");
    assert_eq!(task_row_title(8, &item("x", BatchTaskStatus::Pending)), "#09 [待执行] x.mp4");
    assert_eq!(task_row_title(99, &item("y", BatchTaskStatus::Skipped)), "#100 [已跳过] y.mp4");
}

#[test]
fn durations_as_clock_text() {
    assert_eq!(duration_text(0), "00:00");
    assert_eq!(duration_text(59), "00:59");
    assert_eq!(duration_text(61), "01:01");
    assert_eq!(duration_text(3599), "59:59");
    assert_eq!(duration_text(3600), "01:00:00");
    assert_eq!(duration_text(3661), "01:01:01");
    assert_eq!(duration_text(360_000), "100:00:00");
}

#[test]
fn byte_units() {
    assert_eq!(byte_unit(0), 0);
    assert_eq!(byte_unit(1023), 0);
    assert_eq!(byte_unit(1024), 1);
    assert_eq!(byte_unit(1024 * 1024 - 1), 1);
    assert_eq!(byte_unit(1024 * 1024), 2);
    assert_eq!(byte_unit((1u64 << 30) * 5), 3);
    assert_eq!(byte_unit((1u64 << 40) - 1), 3);
    assert_eq!(byte_unit(1u64 << 40), 4);
    assert_eq!(byte_unit(u64::MAX), 4);
    let labels: Vec<&str> = (0..5).map(byte_unit_label).collect();
    assert_eq!(labels, vec!["B", "KB", "MB", "GB", "TB"]);
    assert_eq!(small_bytes_text(512), "512 B");
    assert_eq!(small_bytes_text(0), "0 B");
}
