use m3u8_downloader_core::downloader::{DownloadProgress, TaskStatus};
use m3u8_downloader_core::queue::{
    clock_text, parse_batch_tasks, progress_detail, taskbar_state, update_output_filename_from_input,
    BatchQueue, BatchTaskItem, BatchTaskStatus, LogBook, TaskbarState,
};

fn progress(status: TaskStatus) -> DownloadProgress {
    let mut p = DownloadProgress::new_pending();
    p.status = status;
    p
}

#[test]
fn batch_input_becomes_tasks() {
    let tasks = parse_batch_tasks(
        "https://a.com/one.m3u8\n\n  https://b.com/two.m3u8|Second \nhttps://c.com/dir/\n",
        "ignored.mp4",
    );
    let names: Vec<&str> = tasks.iter().map(|t| t.output_filename.as_str()).collect();
    assert_eq!(names, vec!["one.mp4", "Second.mp4", "output.mp4"]);
    let urls: Vec<&str> = tasks.iter().map(|t| t.url.as_str()).collect();
    assert_eq!(urls, vec!["https://a.com/one.m3u8", "https://b.com/two.m3u8", "https://c.com/dir/"]);
    assert!(tasks.iter().all(|t| t.status == BatchTaskStatus::Pending && t.detail == "等待执行"));
}

#[test]
fn a_single_task_takes_the_output_field() {
    let tasks = parse_batch_tasks("https://a.com/one.m3u8", " custom ");
    assert_eq!(tasks.len(), 1);
    assert_eq!(tasks[0].output_filename, "custom.mp4");
    let tasks = parse_batch_tasks("https://a.com/one.m3u8|own", "custom");
    assert_eq!(tasks[0].output_filename, "own.mp4");
    let tasks = parse_batch_tasks("https://a.com/one.m3u8", "   ");
    assert_eq!(tasks[0].output_filename, "one.mp4");
    // a line without a URL is dropped, and then there are two lines
    let tasks = parse_batch_tasks("|name\nhttps://a.com/x.m3u8", "out");
    assert_eq!(tasks.len(), 1);
    assert_eq!(tasks[0].output_filename, "x.mp4");
    assert!(parse_batch_tasks("  \n\n", "out").is_empty());
}

#[test]
fn output_name_follows_a_single_url() {
    assert_eq!(update_output_filename_from_input("https://a.com/show.m3u8"), Some("show.mp4".to_string()));
    assert_eq!(update_output_filename_from_input("\n https://a.com/show.m3u8 \n\n"), Some("show.mp4".to_string()));
    assert_eq!(update_output_filename_from_input("https://a.com/a.m3u8\nhttps://a.com/b.m3u8"), None);
    assert_eq!(update_output_filename_from_input("https://a.com/a.m3u8|name"), None);
    assert_eq!(update_output_filename_from_input(""), None);
}

#[test]
fn progress_details_and_clock() {
    assert_eq!(progress_detail(&progress(TaskStatus::Downloading { completed: 3, total: 10 })), "下载中 3/10");
    assert_eq!(progress_detail(&progress(TaskStatus::Failed("boom".into()))), "失败: boom");
    assert_eq!(progress_detail(&progress(TaskStatus::Pending)), "等待开始");
    assert_eq!(progress_detail(&progress(TaskStatus::Merging)), "合并中");
    assert_eq!(clock_text(3661), "01:01:01");
    assert_eq!(clock_text(86_400 + 86_399), "23:59:59");
    assert_eq!(clock_text(0), "00:00:00");
}

#[test]
fn the_log_keeps_the_latest_500_lines() {
    let mut log = LogBook::new();
    for i in 0..501 {
        log.add("00:00:00".into(), format!("{}", i), i % 2 == 0);
    }
    assert_eq!(log.entries.len(), 500);
    assert_eq!(log.entries[0].message, "1");
    assert_eq!(log.entries[499].message, "500");
    assert!(log.entries[499].is_error);
    log.clear();
    assert!(log.entries.is_empty());
}

#[test]
fn taskbar_follows_the_last_progress() {
    assert_eq!(taskbar_state(&None), None);
    assert_eq!(
        taskbar_state(&Some(progress(TaskStatus::Downloading { completed: 2, total: 5 }))),
        Some(TaskbarState::Progress { completed: 2, total: 5 })
    );
    assert_eq!(taskbar_state(&Some(progress(TaskStatus::Parsing))), Some(TaskbarState::Indeterminate));
    assert_eq!(taskbar_state(&Some(progress(TaskStatus::Merging))), Some(TaskbarState::Indeterminate));
    assert_eq!(taskbar_state(&Some(progress(TaskStatus::Failed("x".into())))), Some(TaskbarState::Error));
    assert_eq!(taskbar_state(&Some(progress(TaskStatus::Completed))), Some(TaskbarState::Clear));
    assert_eq!(taskbar_state(&Some(progress(TaskStatus::Pending))), Some(TaskbarState::Clear));
}

fn task(name: &str) -> BatchTaskItem {
    BatchTaskItem {
        url: format!("https://e.com/{}.m3u8", name),
        output_filename: format!("{}.mp4", name),
        status: BatchTaskStatus::Pending,
        detail: "等待执行".into(),
    }
}

#[test]
fn an_empty_batch_is_refused() {
    let mut q = BatchQueue::new();
    let l = q.start(Vec::new());
    assert!(l.is_error);
    assert_eq!(l.message, "❌ 请输入至少一个下载任务");
    assert!(!q.running);
}

#[test]
fn the_queue_runs_its_tasks_in_order() {
    let mut q = BatchQueue::new();
    let l = q.start(vec![task("one"), task("two")]);
    assert_eq!(l.message, "📦 已加入 2 个任务");
    assert!(q.running);
    assert_eq!(q.next_pending(), Some(0));

    let l = q.skip_task(0, "one.mp4");
    assert_eq!(l.message, "⏭ 跳过 one.mp4: 检测到已存在匹配文件 one.mp4");
    assert_eq!(q.tasks[0].status, BatchTaskStatus::Skipped);
    assert_eq!(q.tasks[0].detail, "检测到已存在文件: one.mp4");
    assert_eq!(q.next_pending(), Some(1));

    let l = q.begin_task(1);
    assert_eq!(l.message, "▶ 开始下载: two.mp4");
    assert_eq!(q.active_index, Some(1));
    assert_eq!(q.tasks[1].status, BatchTaskStatus::Running);
    assert_eq!(q.tasks[1].detail, "等待开始");
    assert_eq!(q.next_pending(), None);

    let l = q.observe_progress(progress(TaskStatus::Parsing)).unwrap();
    assert_eq!(l.message, "🔍 正在解析 M3U8 播放列表...");
    assert_eq!(q.tasks[1].detail, "解析中");
    assert!(q.observe_progress(progress(TaskStatus::Parsing)).is_none());

    let l = q.observe_progress(progress(TaskStatus::Downloading { completed: 1, total: 4 })).unwrap();
    assert_eq!(l.message, "⬇ 开始下载 4 个分片...");
    assert!(q.observe_progress(progress(TaskStatus::Downloading { completed: 2, total: 4 })).is_none());
    assert_eq!(q.tasks[1].detail, "下载中 2/4");
    assert!(!q.active_finished());

    let mut done = progress(TaskStatus::Completed);
    done.output_path = Some("/save/two.mp4".into());
    let l = q.observe_progress(done).unwrap();
    assert_eq!(l.message, "✅ 下载完成: /save/two.mp4");
    assert!(!l.is_error);
    assert_eq!(q.tasks[1].status, BatchTaskStatus::Completed);
    assert_eq!(q.tasks[1].detail, "已完成: /save/two.mp4");
    assert!(q.active_finished());

    assert!(q.finish_active_task());
    assert_eq!(q.active_index, None);
    let l = q.finish_queue();
    assert_eq!(l.message, "✅ 批量任务执行完成");
    assert!(!q.running);
}

#[test]
fn a_failed_task_and_stopping_the_queue() {
    let mut q = BatchQueue::new();
    q.start(vec![task("one"), task("two")]);
    q.begin_task(0);
    let l = q.observe_progress(progress(TaskStatus::Failed("网络请求失败: timeout".into()))).unwrap();
    assert!(l.is_error);
    assert_eq!(l.message, "❌ 下载失败: 网络请求失败: timeout");
    assert_eq!(q.tasks[0].status, BatchTaskStatus::Failed);
    assert_eq!(q.tasks[0].detail, "网络请求失败: timeout");
    let l = q.stop();
    assert_eq!(l.message, "⏹ 已停止队列并取消当前任务");
    assert!(!q.finish_active_task());
    assert_eq!(q.stop().message, "⏹ 已停止队列");
    assert_eq!(q.tasks[1].status, BatchTaskStatus::Pending);
}

fn entry(name: &str, is_file: bool) -> m3u8_downloader_core::tasks::DirEntryInfo {
    m3u8_downloader_core::tasks::DirEntryInfo { name: name.into(), is_file }
}

#[test]
fn starting_a_queue_skips_tasks_whose_file_exists() {
    let mut q = BatchQueue::new();
    let entries = vec![entry("One.MP4", true), entry("two", false)];
    let next = q.start_queue(vec![task("one"), task("two"), task("three")], &entries);
    let messages: Vec<&str> = next.lines.iter().map(|l| l.message.as_str()).collect();
    assert_eq!(
        messages,
        vec!["📦 已加入 3 个任务", "⏭ 跳过 one.mp4: 检测到已存在匹配文件 One.MP4", "▶ 开始下载: two.mp4"]
    );
    assert_eq!(next.started, Some(1));
    assert_eq!(q.tasks[0].status, BatchTaskStatus::Skipped);
    assert_eq!(q.tasks[0].detail, "检测到已存在文件: One.MP4");
    assert_eq!(q.tasks[1].status, BatchTaskStatus::Running);
    assert_eq!(q.tasks[2].status, BatchTaskStatus::Pending);
    assert_eq!(q.active_index, Some(1));

    // the task ends; the next one starts
    let mut done = progress(TaskStatus::Completed);
    done.output_path = Some("/save/two.mp4".into());
    q.observe_progress(done);
    let next = q.finish_and_continue(&entries);
    assert_eq!(next.started, Some(2));
    assert_eq!(next.lines[0].message, "▶ 开始下载: three.mp4");

    // the last one ends; the queue is done
    q.observe_progress(progress(TaskStatus::Failed("x".into())));
    let next = q.finish_and_continue(&entries);
    assert_eq!(next.started, None);
    assert_eq!(next.lines.len(), 1);
    assert_eq!(next.lines[0].message, "✅ 批量任务执行完成");
    assert!(!q.running);
    assert_eq!(q.tasks[2].status, BatchTaskStatus::Failed);
}

#[test]
fn an_empty_start_leaves_the_queue_alone() {
    let mut q = BatchQueue::new();
    let next = q.start_queue(Vec::new(), &Vec::new());
    assert_eq!(next.started, None);
    assert_eq!(next.lines.len(), 1);
    assert!(next.lines[0].is_error);
    assert!(!q.running);
    // a stopped queue does not move on
    let next = q.start_next_task(&Vec::new());
    assert!(next.lines.is_empty());
    assert_eq!(next.started, None);
}

#[test]
fn a_queue_of_existing_files_ends_at_once() {
    let mut q = BatchQueue::new();
    let entries = vec![entry("a.mp4", true), entry("b (1).mp4", true)];
    let next = q.start_queue(vec![task("a"), task("b")], &entries);
    let messages: Vec<&str> = next.lines.iter().map(|l| l.message.as_str()).collect();
    assert_eq!(
        messages,
        vec![
            "📦 已加入 2 个任务",
            "⏭ 跳过 a.mp4: 检测到已存在匹配文件 a.mp4",
            "⏭ 跳过 b.mp4: 检测到已存在匹配文件 b (1).mp4",
            "✅ 批量任务执行完成",
        ]
    );
    assert_eq!(next.started, None);
    assert!(!q.running);
    assert_eq!(q.active_index, None);
}
