//! The batch queue of the application: which task runs next, what each
//! progress report means for the task list and the log, and the log itself.
use vstd::prelude::*;
use crate::downloader::{DownloadProgress, DownloadProgressView, TaskStatus, TaskStatusView, is_final};
use crate::tasks::{
    ensure_mp4_filename, ensure_mp4_spec, law_ensure_mp4_idempotent, law_ensure_mp4_shape, mp4_ext, entry_matches, extract_filename_from_url,
    filename_from_url_spec, filename_match_keyword, find_matching_entry, match_keyword_spec,
    parse_task_line, task_line_spec, DirEntryInfo,
};
use crate::text::{
    chars_of, dec_digits, ends_with, lines, lines_exec, to_ascii_lower, pad_zero, push_decimal, push_decimal_padded, push_str,
    string_from_chars, trim, trim_chars,
};

verus! {

broadcast use vstd::string::group_string_axioms;

// ---------------------------------------------------------------------------
// Task items
// ---------------------------------------------------------------------------

/// State of a task in the batch.
#[derive(Debug, Clone, Copy, PartialEq, Eq, Structural)]
pub enum BatchTaskStatus {
    Pending,
    Running,
    Completed,
    Skipped,
    Failed,
    Cancelled,
}

impl BatchTaskStatus {
    /// The label shown in the task list.
    pub fn label(&self) -> (r: &'static str)
        ensures
            r@ == batch_status_label(*self),
    {
        match self {
            BatchTaskStatus::Pending => "待执行",
            BatchTaskStatus::Running => "下载中",
            BatchTaskStatus::Completed => "已完成",
            BatchTaskStatus::Skipped => "已跳过",
            BatchTaskStatus::Failed => "失败",
            BatchTaskStatus::Cancelled => "已取消",
        }
    }
}

pub open spec fn batch_status_label(s: BatchTaskStatus) -> Seq<char> {
    match s {
        BatchTaskStatus::Pending => "待执行"@,
        BatchTaskStatus::Running => "下载中"@,
        BatchTaskStatus::Completed => "已完成"@,
        BatchTaskStatus::Skipped => "已跳过"@,
        BatchTaskStatus::Failed => "失败"@,
        BatchTaskStatus::Cancelled => "已取消"@,
    }
}

/// One task of the batch.
#[derive(Debug, Clone)]
pub struct BatchTaskItem {
    pub url: String,
    pub output_filename: String,
    pub status: BatchTaskStatus,
    /// What the task list shows next to the task.
    pub detail: String,
}

pub struct BatchTaskItemView {
    pub url: Seq<char>,
    pub output_filename: Seq<char>,
    pub status: BatchTaskStatus,
    pub detail: Seq<char>,
}

impl View for BatchTaskItem {
    type V = BatchTaskItemView;

    open spec fn view(&self) -> BatchTaskItemView {
        BatchTaskItemView {
            url: self.url@,
            output_filename: self.output_filename@,
            status: self.status,
            detail: self.detail@,
        }
    }
}

impl BatchTaskItem {
    /// A field-by-field copy.
    pub fn duplicate(&self) -> (r: BatchTaskItem)
        ensures
            r@ == self@,
    {
        BatchTaskItem {
            url: self.url.clone(),
            output_filename: self.output_filename.clone(),
            status: self.status,
            detail: self.detail.clone(),
        }
    }
}

/// The non-empty lines of a text, trimmed.
pub open spec fn task_lines(ls: Seq<Seq<char>>) -> Seq<Seq<char>>
    decreases ls.len(),
{
    if ls.len() == 0 {
        seq![]
    } else if trim(ls.last()).len() > 0 {
        task_lines(ls.drop_last()).push(trim(ls.last()))
    } else {
        task_lines(ls.drop_last())
    }
}

pub open spec fn default_output_name() -> Seq<char> {
    "output.mp4"@
}

pub open spec fn waiting_detail() -> Seq<char> {
    "等待执行"@
}

/// The output file name of a task line: the explicit one, else the name in
/// the output field for a single task, else the name taken from the URL,
/// else `output.mp4`; always ending in `.mp4`.
pub open spec fn item_filename(line: Seq<char>, single: bool, output_field: Seq<char>) -> Seq<char> {
    let (url, explicit) = task_line_spec(line);
    ensure_mp4_spec(
        match explicit {
            Some(f) => f,
            None => if single && trim(output_field).len() > 0 {
                trim(output_field)
            } else {
                match filename_from_url_spec(url) {
                    Some(f) => f,
                    None => default_output_name(),
                }
            },
        },
    )
}

/// The tasks of the given task lines; lines with an empty URL are dropped.
pub open spec fn batch_items(ls: Seq<Seq<char>>, single: bool, output_field: Seq<char>) -> Seq<BatchTaskItemView>
    decreases ls.len(),
{
    if ls.len() == 0 {
        seq![]
    } else {
        let rest = batch_items(ls.drop_last(), single, output_field);
        let url = task_line_spec(ls.last()).0;
        if url.len() == 0 {
            rest
        } else {
            rest.push(
                BatchTaskItemView {
                    url,
                    output_filename: item_filename(ls.last(), single, output_field),
                    status: BatchTaskStatus::Pending,
                    detail: waiting_detail(),
                },
            )
        }
    }
}

/// The batch described by the task input: one task per non-empty line.
pub open spec fn parse_batch_spec(input: Seq<char>, output_field: Seq<char>) -> Seq<BatchTaskItemView> {
    let ls = task_lines(lines(input));
    batch_items(ls, ls.len() == 1, output_field)
}

/// Every task made from task lines has a non-empty URL, is pending, and has
/// an output name that is trimmed, ends in `.mp4` in any letter case, and is
/// left as it is by `ensure_mp4`.
proof fn lemma_batch_items_shape(ls: Seq<Seq<char>>, single: bool, output_field: Seq<char>)
    ensures
        forall|i: int|
            0 <= i < batch_items(ls, single, output_field).len() ==> {
                let t = #[trigger] batch_items(ls, single, output_field)[i];
                &&& t.url.len() > 0
                &&& t.status == BatchTaskStatus::Pending
                &&& ends_with(to_ascii_lower(t.output_filename), seq!['.', 'm', 'p', '4'])
                &&& trim(t.output_filename) == t.output_filename
                &&& ensure_mp4_spec(t.output_filename) == t.output_filename
            },
    decreases ls.len(),
{
    if ls.len() > 0 {
        lemma_batch_items_shape(ls.drop_last(), single, output_field);
        let rest = batch_items(ls.drop_last(), single, output_field);
        let all = batch_items(ls, single, output_field);
        let (url, explicit) = task_line_spec(ls.last());
        let f = match explicit {
            Some(f) => f,
            None => if single && trim(output_field).len() > 0 {
                trim(output_field)
            } else {
                match filename_from_url_spec(url) {
                    Some(f) => f,
                    None => default_output_name(),
                }
            },
        };
        law_ensure_mp4_shape(f);
        law_ensure_mp4_idempotent(f);
        assert(mp4_ext() == seq!['.', 'm', 'p', '4']);
        assert forall|i: int| 0 <= i < all.len() implies {
            let t = #[trigger] all[i];
            &&& t.url.len() > 0
            &&& t.status == BatchTaskStatus::Pending
            &&& ends_with(to_ascii_lower(t.output_filename), seq!['.', 'm', 'p', '4'])
            &&& trim(t.output_filename) == t.output_filename
            &&& ensure_mp4_spec(t.output_filename) == t.output_filename
        } by {
            if i < rest.len() {
                assert(all[i] == rest[i]);
            }
        }
    }
}

/// Every task of a batch has a URL, starts pending, and gets an output file
/// name that is trimmed and ends in `.mp4` (in any letter case), so that
/// FFmpeg writes an MP4 file; making it end in `.mp4` again changes nothing.
pub proof fn law_batch_tasks_are_mp4(input: Seq<char>, output_field: Seq<char>)
    ensures
        forall|i: int|
            0 <= i < parse_batch_spec(input, output_field).len() ==> {
                let t = #[trigger] parse_batch_spec(input, output_field)[i];
                &&& t.url.len() > 0
                &&& t.status == BatchTaskStatus::Pending
                &&& ends_with(to_ascii_lower(t.output_filename), seq!['.', 'm', 'p', '4'])
                &&& trim(t.output_filename) == t.output_filename
                &&& ensure_mp4_spec(t.output_filename) == t.output_filename
            },
{
    let ls = task_lines(lines(input));
    lemma_batch_items_shape(ls, ls.len() == 1, output_field);
}

fn task_lines_exec(input: &str) -> (r: Vec<Vec<char>>)
    ensures
        r@.map_values(|l: Vec<char>| l@) == task_lines(lines(input@)),
{
    let v = chars_of(input);
    let ls = lines_exec(&v);
    let ghost lv = ls@.map_values(|l: Vec<char>| l@);
    let mut out: Vec<Vec<char>> = Vec::new();
    let mut i: usize = 0;
    proof {
        assert(lv.take(0) =~= Seq::<Seq<char>>::empty());
        assert(out@.map_values(|l: Vec<char>| l@) =~= Seq::<Seq<char>>::empty());
    }
    while i < ls.len()
        invariant
            i <= ls.len(),
            lv == ls@.map_values(|l: Vec<char>| l@),
            lv == lines(input@),
            out@.map_values(|l: Vec<char>| l@) == task_lines(lv.take(i as int)),
        decreases ls.len() - i,
    {
        let t = trim_chars(&ls[i]);
        let ghost before = out@.map_values(|l: Vec<char>| l@);
        proof {
            assert(lv.take(i + 1).drop_last() == lv.take(i as int));
            assert(lv.take(i + 1).last() == ls@[i as int]@);
        }
        if t.len() > 0 {
            out.push(t);
            proof {
                assert(out@.map_values(|l: Vec<char>| l@) =~= before.push(t@));
            }
        }
        i = i + 1;
    }
    proof {
        assert(lv.take(ls.len() as int) == lv);
    }
    out
}

/// The tasks entered in the task input; `output_field` is the output file
/// name field, which names the file of a single task.
pub fn parse_batch_tasks(task_input: &str, output_field: &str) -> (r: Vec<BatchTaskItem>)
    ensures
        r@.map_values(|t: BatchTaskItem| t@) == parse_batch_spec(task_input@, output_field@),
{
    let ls = task_lines_exec(task_input);
    let ghost lv = ls@.map_values(|l: Vec<char>| l@);
    let single = ls.len() == 1;
    let of = chars_of(output_field);
    let of_trim = trim_chars(&of);
    let mut out: Vec<BatchTaskItem> = Vec::new();
    let mut i: usize = 0;
    proof {
        assert(lv.take(0) =~= Seq::<Seq<char>>::empty());
        assert(out@.map_values(|t: BatchTaskItem| t@) =~= Seq::<BatchTaskItemView>::empty());
    }
    while i < ls.len()
        invariant
            i <= ls.len(),
            lv == ls@.map_values(|l: Vec<char>| l@),
            single == (lv.len() == 1),
            of_trim@ == trim(output_field@),
            out@.map_values(|t: BatchTaskItem| t@) == batch_items(lv.take(i as int), single, output_field@),
        decreases ls.len() - i,
    {
        let ghost before = out@.map_values(|t: BatchTaskItem| t@);
        proof {
            assert(lv.take(i + 1).drop_last() == lv.take(i as int));
            assert(lv.take(i + 1).last() == ls@[i as int]@);
        }
        let line = string_from_chars(ls[i].as_slice());
        let (url, explicit) = parse_task_line(line.as_str());
        if !url.as_str().is_empty() {
            let filename = match explicit {
                Some(f) => f,
                None => if single && of_trim.len() > 0 {
                    string_from_chars(of_trim.as_slice())
                } else {
                    match extract_filename_from_url(url.as_str()) {
                        Some(f) => f,
                        None => "output.mp4".to_owned(),
                    }
                },
            };
            let name = ensure_mp4_filename(filename.as_str());
            let item = BatchTaskItem {
                url,
                output_filename: name,
                status: BatchTaskStatus::Pending,
                detail: "等待执行".to_owned(),
            };
            out.push(item);
            proof {
                assert(out@.map_values(|t: BatchTaskItem| t@) =~= before.push(item@));
            }
        } else {
            proof {
                assert(url@.len() == 0);
            }
        }
        i = i + 1;
    }
    proof {
        assert(lv.take(ls.len() as int) == lv);
    }
    out
}

/// The output file name suggested while the user types: for a single task
/// line without an explicit file name, the name taken from its URL.
pub open spec fn suggested_filename_spec(input: Seq<char>) -> Option<Seq<char>> {
    let ls = task_lines(lines(input));
    if ls.len() != 1 {
        None
    } else {
        let (url, explicit) = task_line_spec(ls[0]);
        if explicit is Some {
            None
        } else {
            filename_from_url_spec(url)
        }
    }
}

/// The new content of the output file name field after the task input
/// changed, if it is to change.
pub fn update_output_filename_from_input(task_input: &str) -> (r: Option<String>)
    ensures
        r matches Some(s) ==> suggested_filename_spec(task_input@) == Some(s@),
        r is None ==> suggested_filename_spec(task_input@) is None,
{
    let ls = task_lines_exec(task_input);
    if ls.len() != 1 {
        return None;
    }
    let line = string_from_chars(ls[0].as_slice());
    let (url, explicit) = parse_task_line(line.as_str());
    if explicit.is_some() {
        return None;
    }
    extract_filename_from_url(url.as_str())
}

// ---------------------------------------------------------------------------
// Text shown for a task
// ---------------------------------------------------------------------------

/// The detail text of the running task.
pub open spec fn progress_detail_spec(s: TaskStatusView) -> Seq<char> {
    match s {
        TaskStatusView::Pending => "等待开始"@,
        TaskStatusView::Parsing => "解析中"@,
        TaskStatusView::Downloading { completed, total } => "下载中 "@ + dec_digits(completed as nat)
            + seq!['/'] + dec_digits(total as nat),
        TaskStatusView::Merging => "合并中"@,
        TaskStatusView::Completed => "已完成"@,
        TaskStatusView::Failed(e) => "失败: "@ + e,
        TaskStatusView::Cancelled => "已取消"@,
    }
}

pub fn progress_detail(progress: &DownloadProgress) -> (r: String)
    ensures
        r@ == progress_detail_spec(progress.status@),
{
    match &progress.status {
        TaskStatus::Pending => "等待开始".to_owned(),
        TaskStatus::Parsing => "解析中".to_owned(),
        TaskStatus::Downloading { completed, total } => {
            let mut out: Vec<char> = Vec::new();
            push_str(&mut out, "下载中 ");
            push_decimal(&mut out, *completed as u64);
            out.push('/');
            push_decimal(&mut out, *total as u64);
            proof {
                assert(out@ =~= progress_detail_spec(progress.status@));
            }
            string_from_chars(out.as_slice())
        },
        TaskStatus::Merging => "合并中".to_owned(),
        TaskStatus::Completed => "已完成".to_owned(),
        TaskStatus::Failed(e) => {
            let mut out: Vec<char> = Vec::new();
            push_str(&mut out, "失败: ");
            push_str(&mut out, e.as_str());
            string_from_chars(out.as_slice())
        },
        TaskStatus::Cancelled => "已取消".to_owned(),
    }
}

/// `HH:MM:SS` of the time of day (UTC) `secs` seconds after the epoch.
pub open spec fn clock_text_spec(secs: u64) -> Seq<char> {
    pad_zero(dec_digits(((secs / 3600) % 24) as nat), 2) + seq![':'] + pad_zero(
        dec_digits(((secs / 60) % 60) as nat),
        2,
    ) + seq![':'] + pad_zero(dec_digits((secs % 60) as nat), 2)
}

/// The time stamp of a log line (`chrono_now`), from the seconds since the
/// epoch.
pub fn clock_text(secs: u64) -> (r: String)
    ensures
        r@ == clock_text_spec(secs),
{
    let mut out: Vec<char> = Vec::new();
    push_decimal_padded(&mut out, (secs / 3600) % 24, 2);
    out.push(':');
    push_decimal_padded(&mut out, (secs / 60) % 60, 2);
    out.push(':');
    push_decimal_padded(&mut out, secs % 60, 2);
    proof {
        assert(out@ =~= clock_text_spec(secs));
    }
    string_from_chars(out.as_slice())
}

// ---------------------------------------------------------------------------
// The log
// ---------------------------------------------------------------------------

/// A line of the application log.
pub struct LogEntry {
    pub timestamp: String,
    pub message: String,
    pub is_error: bool,
}

pub struct LogEntryView {
    pub timestamp: Seq<char>,
    pub message: Seq<char>,
    pub is_error: bool,
}

impl View for LogEntry {
    type V = LogEntryView;

    open spec fn view(&self) -> LogEntryView {
        LogEntryView { timestamp: self.timestamp@, message: self.message@, is_error: self.is_error }
    }
}

/// The log keeps the latest 500 lines.
pub open spec fn log_capacity() -> nat {
    500
}

/// The entries after one more is added: all of them, or the latest 500.
pub open spec fn log_after_add(entries: Seq<LogEntryView>, e: LogEntryView) -> Seq<LogEntryView> {
    let all = entries.push(e);
    if all.len() > log_capacity() {
        all.skip(all.len() - log_capacity())
    } else {
        all
    }
}

/// The application log.
pub struct LogBook {
    pub entries: Vec<LogEntry>,
}

impl LogBook {
    pub open spec fn view_entries(&self) -> Seq<LogEntryView> {
        self.entries@.map_values(|e: LogEntry| e@)
    }

    pub fn new() -> (r: LogBook)
        ensures
            r.view_entries().len() == 0,
    {
        let r = LogBook { entries: Vec::new() };
        proof {
            assert(r.view_entries() =~= Seq::<LogEntryView>::empty());
        }
        r
    }

    /// Adds a line, dropping the oldest ones beyond the latest 500.
    pub fn add(&mut self, timestamp: String, message: String, is_error: bool)
        ensures
            final(self).view_entries() == log_after_add(
                old(self).view_entries(),
                LogEntryView { timestamp: timestamp@, message: message@, is_error },
            ),
    {
        let e = LogEntry { timestamp, message, is_error };
        let ghost ev = e@;
        let ghost before = self.view_entries();
        self.entries.push(e);
        proof {
            assert(self.view_entries() =~= before.push(ev));
        }
        let n = self.entries.len();
        if n > 500 {
            let ghost all = self.view_entries();
            let kept = self.entries.split_off(n - 500);
            self.entries = kept;
            proof {
                assert(self.view_entries() =~= all.skip(all.len() - 500));
            }
        }
    }

    /// Removes every line.
    pub fn clear(&mut self)
        ensures
            final(self).view_entries().len() == 0,
    {
        self.entries = Vec::new();
        proof {
            assert(self.view_entries() =~= Seq::<LogEntryView>::empty());
        }
    }
}

/// The log never holds more than 500 lines, the line just added is its
/// last one, and the lines kept are the latest ones, in order.
pub proof fn law_log_bounded(entries: Seq<LogEntryView>, e: LogEntryView)
    requires
        entries.len() <= log_capacity(),
    ensures
        log_after_add(entries, e).len() <= log_capacity(),
        log_after_add(entries, e).last() == e,
        log_after_add(entries, e).len() == if entries.len() < log_capacity() {
            entries.len() + 1
        } else {
            log_capacity()
        },
        forall|k: int|
            0 <= k < log_after_add(entries, e).len() - 1 ==> #[trigger] log_after_add(entries, e)[k]
                == entries[k + entries.len() + 1 - log_after_add(entries, e).len()],
{
}

// ---------------------------------------------------------------------------
// The queue
// ---------------------------------------------------------------------------

/// A line for the application log.
pub struct LogLine {
    pub message: String,
    pub is_error: bool,
}

pub struct LogLineView {
    pub message: Seq<char>,
    pub is_error: bool,
}

impl View for LogLine {
    type V = LogLineView;

    open spec fn view(&self) -> LogLineView {
        LogLineView { message: self.message@, is_error: self.is_error }
    }
}

pub open spec fn log_lines_view(ls: Seq<LogLine>) -> Seq<LogLineView> {
    ls.map_values(|l: LogLine| l@)
}

/// Where the taskbar progress indicator should stand.
#[derive(Debug, Clone, Copy, PartialEq, Eq, Structural)]
pub enum TaskbarState {
    /// Busy without a measure (parsing, merging).
    Indeterminate,
    /// `completed` of `total` segments.
    Progress { completed: u64, total: u64 },
    /// The task failed.
    Error,
    /// No progress shown.
    Clear,
}

/// The taskbar indicator for the last progress seen.
pub open spec fn taskbar_state_spec(s: TaskStatusView) -> TaskbarState {
    match s {
        TaskStatusView::Parsing | TaskStatusView::Merging => TaskbarState::Indeterminate,
        TaskStatusView::Downloading { completed, total } => TaskbarState::Progress {
            completed: completed as u64,
            total: total as u64,
        },
        TaskStatusView::Failed(_) => TaskbarState::Error,
        _ => TaskbarState::Clear,
    }
}

pub fn taskbar_state(last: &Option<DownloadProgress>) -> (r: Option<TaskbarState>)
    ensures
        last is None ==> r is None,
        last matches Some(p) ==> r == Some(taskbar_state_spec(p.status@)),
{
    match last {
        None => None,
        Some(p) => Some(
            match &p.status {
                TaskStatus::Parsing | TaskStatus::Merging => TaskbarState::Indeterminate,
                TaskStatus::Downloading { completed, total } => TaskbarState::Progress {
                    completed: *completed as u64,
                    total: *total as u64,
                },
                TaskStatus::Failed(_) => TaskbarState::Error,
                _ => TaskbarState::Clear,
            },
        ),
    }
}

/// The same kind of status (the payloads aside).
pub open spec fn same_kind(a: TaskStatusView, b: TaskStatusView) -> bool {
    match (a, b) {
        (TaskStatusView::Pending, TaskStatusView::Pending) => true,
        (TaskStatusView::Parsing, TaskStatusView::Parsing) => true,
        (TaskStatusView::Downloading { .. }, TaskStatusView::Downloading { .. }) => true,
        (TaskStatusView::Merging, TaskStatusView::Merging) => true,
        (TaskStatusView::Completed, TaskStatusView::Completed) => true,
        (TaskStatusView::Failed(_), TaskStatusView::Failed(_)) => true,
        (TaskStatusView::Cancelled, TaskStatusView::Cancelled) => true,
        _ => false,
    }
}

fn same_kind_exec(a: &TaskStatus, b: &TaskStatus) -> (r: bool)
    ensures
        r == same_kind(a@, b@),
{
    match (a, b) {
        (TaskStatus::Pending, TaskStatus::Pending) => true,
        (TaskStatus::Parsing, TaskStatus::Parsing) => true,
        (TaskStatus::Downloading { .. }, TaskStatus::Downloading { .. }) => true,
        (TaskStatus::Merging, TaskStatus::Merging) => true,
        (TaskStatus::Completed, TaskStatus::Completed) => true,
        (TaskStatus::Failed(_), TaskStatus::Failed(_)) => true,
        (TaskStatus::Cancelled, TaskStatus::Cancelled) => true,
        _ => false,
    }
}

/// The output path shown for a completed task.
pub open spec fn shown_path(p: Option<Seq<char>>) -> Seq<char> {
    match p {
        Some(s) => s,
        None => seq![],
    }
}

/// The log line written when the running task enters a new kind of state.
pub open spec fn status_log_spec(p: DownloadProgressView) -> Option<LogLineView> {
    match p.status {
        TaskStatusView::Parsing => Some(
            LogLineView { message: "🔍 正在解析 M3U8 播放列表..."@, is_error: false },
        ),
        TaskStatusView::Downloading { total, .. } => Some(
            LogLineView {
                message: "⬇ 开始下载 "@ + dec_digits(total as nat) + " 个分片..."@,
                is_error: false,
            },
        ),
        TaskStatusView::Merging => Some(LogLineView { message: "🔗 正在合并分片..."@, is_error: false }),
        TaskStatusView::Completed => Some(
            LogLineView { message: "✅ 下载完成: "@ + shown_path(p.output_path), is_error: false },
        ),
        TaskStatusView::Failed(e) => Some(LogLineView { message: "❌ 下载失败: "@ + e, is_error: true }),
        TaskStatusView::Cancelled => Some(LogLineView { message: "⏹ 任务已取消"@, is_error: false }),
        TaskStatusView::Pending => None,
    }
}

/// The task-list entry of the running task after a progress report: the
/// detail follows the progress, and a final state is recorded when it is
/// first seen.
pub open spec fn item_after_progress(item: BatchTaskItemView, p: DownloadProgressView, changed: bool) -> BatchTaskItemView {
    let item = BatchTaskItemView { detail: progress_detail_spec(p.status), ..item };
    if !changed {
        item
    } else {
        match p.status {
            TaskStatusView::Completed => BatchTaskItemView {
                status: BatchTaskStatus::Completed,
                detail: "已完成: "@ + shown_path(p.output_path),
                ..item
            },
            TaskStatusView::Failed(e) => BatchTaskItemView {
                status: BatchTaskStatus::Failed,
                detail: e,
                ..item
            },
            TaskStatusView::Cancelled => BatchTaskItemView {
                status: BatchTaskStatus::Cancelled,
                detail: "任务已取消"@,
                ..item
            },
            _ => item,
        }
    }
}

/// The batch status a final download status is recorded as.
pub open spec fn final_batch_status(s: TaskStatusView) -> BatchTaskStatus {
    match s {
        TaskStatusView::Completed => BatchTaskStatus::Completed,
        TaskStatusView::Failed(_) => BatchTaskStatus::Failed,
        _ => BatchTaskStatus::Cancelled,
    }
}

/// The first report that the running task completed, failed or was
/// cancelled gives its entry that status, with the output path, the error
/// or "任务已取消" as its detail; so a final report never leaves the entry
/// running. Any report shows its detail text, and a report that is not
/// final, or not the first of its kind, leaves the entry's status as it was.
pub proof fn law_final_report_recorded(item: BatchTaskItemView, p: DownloadProgressView, changed: bool)
    ensures
        changed && is_final(p.status) ==> item_after_progress(item, p, changed).status
            == final_batch_status(p.status),
        changed && is_final(p.status) ==> item_after_progress(item, p, changed).status
            != BatchTaskStatus::Running,
        changed && p.status is Cancelled ==> item_after_progress(item, p, changed).detail == "任务已取消"@,
        changed && p.status is Completed ==> item_after_progress(item, p, changed).detail == "已完成: "@
            + shown_path(p.output_path),
        changed && p.status is Failed ==> item_after_progress(item, p, changed).detail
            == p.status->Failed_0,
        !(changed && is_final(p.status)) ==> item_after_progress(item, p, changed).status == item.status
            && item_after_progress(item, p, changed).detail == progress_detail_spec(p.status),
        item_after_progress(item, p, changed).url == item.url,
        item_after_progress(item, p, changed).output_filename == item.output_filename,
{
}

/// The batch queue: the tasks, the one running, and the last progress seen
/// of it.
pub struct BatchQueue {
    pub tasks: Vec<BatchTaskItem>,
    pub active_index: Option<usize>,
    pub running: bool,
    pub last_progress: Option<DownloadProgress>,
}

pub open spec fn items_view(tasks: Seq<BatchTaskItem>) -> Seq<BatchTaskItemView> {
    tasks.map_values(|t: BatchTaskItem| t@)
}

pub open spec fn opt_progress_view(p: Option<DownloadProgress>) -> Option<DownloadProgressView> {
    match p {
        Some(x) => Some(x@),
        None => None,
    }
}

/// No task goes back to pending: the list keeps its length, and a task that
/// had left the pending state stays out of it.
pub open spec fn no_task_reopened(before: Seq<BatchTaskItemView>, after: Seq<BatchTaskItemView>) -> bool {
    &&& after.len() == before.len()
    &&& forall|i: int|
        0 <= i < before.len() && before[i].status != BatchTaskStatus::Pending
            ==> #[trigger] after[i].status != BatchTaskStatus::Pending
}

/// A task that is parsing, downloading or merging.
pub open spec fn is_busy(s: TaskStatusView) -> bool {
    s is Parsing || s is Downloading || s is Merging
}

/// The first pending task, if any.
pub open spec fn first_pending(tasks: Seq<BatchTaskItemView>, i: int) -> bool {
    &&& 0 <= i < tasks.len()
    &&& tasks[i].status == BatchTaskStatus::Pending
    &&& forall|j: int| 0 <= j < i ==> tasks[j].status != BatchTaskStatus::Pending
}

fn log_line(message: String, is_error: bool) -> (r: LogLine)
    ensures
        r@ == (LogLineView { message: message@, is_error }),
{
    LogLine { message, is_error }
}

impl BatchQueue {
    /// The running task, if any, is one of the tasks.
    pub open spec fn wf(&self) -> bool {
        self.active_index matches Some(i) ==> i < self.tasks@.len()
    }

    pub open spec fn items(&self) -> Seq<BatchTaskItemView> {
        items_view(self.tasks@)
    }

    /// An empty, stopped queue.
    pub fn new() -> (r: BatchQueue)
        ensures
            r.wf(),
            r.tasks@.len() == 0,
            !r.running,
            r.active_index is None,
            r.last_progress is None,
    {
        BatchQueue { tasks: Vec::new(), active_index: None, running: false, last_progress: None }
    }

    /// Starts a batch: refuses an empty one with an error line; otherwise
    /// replaces the tasks and starts the queue.
    pub fn start(&mut self, tasks: Vec<BatchTaskItem>) -> (r: LogLine)
        requires
            old(self).wf(),
        ensures
            final(self).wf(),
            tasks@.len() == 0 ==> *final(self) == *old(self) && r@ == (LogLineView {
                message: "❌ 请输入至少一个下载任务"@,
                is_error: true,
            }),
            tasks@.len() > 0 ==> {
                &&& final(self).tasks == tasks
                &&& final(self).running
                &&& final(self).active_index is None
                &&& final(self).last_progress is None
                &&& r@ == (LogLineView {
                    message: "📦 已加入 "@ + dec_digits(tasks@.len()) + " 个任务"@,
                    is_error: false,
                })
            },
    {
        if tasks.len() == 0 {
            return log_line("❌ 请输入至少一个下载任务".to_owned(), true);
        }
        let n = tasks.len();
        self.tasks = tasks;
        self.active_index = None;
        self.last_progress = None;
        self.running = true;
        let mut m: Vec<char> = Vec::new();
        push_str(&mut m, "📦 已加入 ");
        push_decimal(&mut m, n as u64);
        push_str(&mut m, " 个任务");
        log_line(string_from_chars(m.as_slice()), false)
    }

    /// The first task still pending.
    pub fn next_pending(&self) -> (r: Option<usize>)
        ensures
            r matches Some(i) ==> first_pending(self.items(), i as int),
            r is None ==> forall|j: int|
                0 <= j < self.items().len() ==> self.items()[j].status != BatchTaskStatus::Pending,
    {
        let mut i: usize = 0;
        while i < self.tasks.len()
            invariant
                i <= self.tasks.len(),
                forall|j: int| 0 <= j < i ==> self.items()[j].status != BatchTaskStatus::Pending,
            decreases self.tasks.len() - i,
        {
            if self.tasks[i].status == BatchTaskStatus::Pending {
                return Some(i);
            }
            i = i + 1;
        }
        None
    }

    /// Ends the queue when no task is pending.
    pub fn finish_queue(&mut self) -> (r: LogLine)
        requires
            old(self).wf(),
        ensures
            final(self).wf(),
            no_task_reopened(old(self).items(), final(self).items()),
            final(self).tasks == old(self).tasks,
            !final(self).running,
            final(self).active_index is None,
            final(self).last_progress is None,
            r@ == (LogLineView { message: "✅ 批量任务执行完成"@, is_error: false }),
    {
        self.running = false;
        self.active_index = None;
        self.last_progress = None;
        log_line("✅ 批量任务执行完成".to_owned(), false)
    }

    /// Skips a pending task whose file is already in the save directory.
    pub fn skip_task(&mut self, index: usize, existing_name: &str) -> (r: LogLine)
        requires
            old(self).wf(),
            index < old(self).tasks@.len(),
        ensures
            final(self).wf(),
            no_task_reopened(old(self).items(), final(self).items()),
            final(self).running == old(self).running,
            final(self).active_index == old(self).active_index,
            final(self).last_progress == old(self).last_progress,
            final(self).items() == old(self).items().update(
                index as int,
                BatchTaskItemView {
                    status: BatchTaskStatus::Skipped,
                    detail: "检测到已存在文件: "@ + existing_name@,
                    ..old(self).items()[index as int]
                },
            ),
            r@ == (LogLineView {
                message: "⏭ 跳过 "@ + old(self).items()[index as int].output_filename
                    + ": 检测到已存在匹配文件 "@ + existing_name@,
                is_error: false,
            }),
    {
        let mut d: Vec<char> = Vec::new();
        push_str(&mut d, "检测到已存在文件: ");
        push_str(&mut d, existing_name);
        let mut m: Vec<char> = Vec::new();
        push_str(&mut m, "⏭ 跳过 ");
        push_str(&mut m, self.tasks[index].output_filename.as_str());
        push_str(&mut m, ": 检测到已存在匹配文件 ");
        push_str(&mut m, existing_name);
        let ghost before = self.items();
        let mut item = self.tasks[index].duplicate();
        item.status = BatchTaskStatus::Skipped;
        item.detail = string_from_chars(d.as_slice());
        self.tasks.set(index, item);
        proof {
            assert(self.items() =~= before.update(
                index as int,
                BatchTaskItemView {
                    status: BatchTaskStatus::Skipped,
                    detail: "检测到已存在文件: "@ + existing_name@,
                    ..before[index as int]
                },
            ));
        }
        log_line(string_from_chars(m.as_slice()), false)
    }

    /// Marks a task as the running one.
    pub fn begin_task(&mut self, index: usize) -> (r: LogLine)
        requires
            old(self).wf(),
            index < old(self).tasks@.len(),
        ensures
            final(self).wf(),
            no_task_reopened(old(self).items(), final(self).items()),
            final(self).running == old(self).running,
            final(self).active_index == Some(index),
            final(self).last_progress is None,
            final(self).items() == old(self).items().update(
                index as int,
                BatchTaskItemView {
                    status: BatchTaskStatus::Running,
                    detail: "等待开始"@,
                    ..old(self).items()[index as int]
                },
            ),
            r@ == (LogLineView {
                message: "▶ 开始下载: "@ + old(self).items()[index as int].output_filename,
                is_error: false,
            }),
    {
        let mut m: Vec<char> = Vec::new();
        push_str(&mut m, "▶ 开始下载: ");
        push_str(&mut m, self.tasks[index].output_filename.as_str());
        let ghost before = self.items();
        let mut item = self.tasks[index].duplicate();
        item.status = BatchTaskStatus::Running;
        item.detail = "等待开始".to_owned();
        self.tasks.set(index, item);
        self.active_index = Some(index);
        self.last_progress = None;
        proof {
            assert(self.items() =~= before.update(
                index as int,
                BatchTaskItemView {
                    status: BatchTaskStatus::Running,
                    detail: "等待开始"@,
                    ..before[index as int]
                },
            ));
        }
        log_line(string_from_chars(m.as_slice()), false)
    }

    /// Stops the queue; the running task, if any, is cancelled by the caller.
    pub fn stop(&mut self) -> (r: LogLine)
        requires
            old(self).wf(),
        ensures
            final(self).wf(),
            no_task_reopened(old(self).items(), final(self).items()),
            !final(self).running,
            final(self).tasks == old(self).tasks,
            final(self).active_index == old(self).active_index,
            final(self).last_progress == old(self).last_progress,
            old(self).active_index is Some ==> r@ == (LogLineView {
                message: "⏹ 已停止队列并取消当前任务"@,
                is_error: false,
            }),
            old(self).active_index is None ==> r@ == (LogLineView {
                message: "⏹ 已停止队列"@,
                is_error: false,
            }),
    {
        self.running = false;
        if self.active_index.is_some() {
            log_line("⏹ 已停止队列并取消当前任务".to_owned(), false)
        } else {
            log_line("⏹ 已停止队列".to_owned(), false)
        }
    }

    /// Takes in a progress report of the running task: updates its entry
    /// in the task list, logs a change of state, and remembers the report.
    /// Returns the log line, if any.
    pub fn observe_progress(&mut self, progress: DownloadProgress) -> (r: Option<LogLine>)
        requires
            old(self).wf(),
        ensures
            final(self).wf(),
            no_task_reopened(old(self).items(), final(self).items()),
            final(self).running == old(self).running,
            final(self).active_index == old(self).active_index,
            opt_progress_view(final(self).last_progress) == Some(progress@),
            ({
                let changed = match old(self).last_progress {
                    Some(l) => !same_kind(l.status@, progress.status@),
                    None => true,
                };
                &&& changed ==> match status_log_spec(progress@) {
                    Some(l) => r matches Some(x) && x@ == l,
                    None => r is None,
                }
                &&& !changed ==> r is None
                &&& match old(self).active_index {
                    Some(i) => final(self).items() == old(self).items().update(
                        i as int,
                        item_after_progress(old(self).items()[i as int], progress@, changed),
                    ),
                    None => final(self).items() == old(self).items(),
                }
            }),
    {
        let changed = match &self.last_progress {
            Some(l) => !same_kind_exec(&l.status, &progress.status),
            None => true,
        };
        if let Some(i) = self.active_index {
            let ghost before = self.items();
            let mut item = self.tasks[i].duplicate();
            item.detail = progress_detail(&progress);
            if changed {
                match &progress.status {
                    TaskStatus::Completed => {
                        item.status = BatchTaskStatus::Completed;
                        let mut d: Vec<char> = Vec::new();
                        push_str(&mut d, "已完成: ");
                        match &progress.output_path {
                            Some(p) => push_str(&mut d, p.as_str()),
                            None => {},
                        }
                        proof {
                            assert(d@ =~= "已完成: "@ + shown_path(progress@.output_path));
                        }
                        item.detail = string_from_chars(d.as_slice());
                    },
                    TaskStatus::Failed(e) => {
                        item.status = BatchTaskStatus::Failed;
                        item.detail = e.clone();
                    },
                    TaskStatus::Cancelled => {
                        item.status = BatchTaskStatus::Cancelled;
                        item.detail = "任务已取消".to_owned();
                    },
                    _ => {},
                }
            }
            proof {
                assert(item@ == item_after_progress(before[i as int], progress@, changed));
            }
            self.tasks.set(i, item);
            proof {
                assert(self.items() =~= before.update(
                    i as int,
                    item_after_progress(before[i as int], progress@, changed),
                ));
            }
        }
        let line = if changed {
            status_log(&progress)
        } else {
            None
        };
        self.last_progress = Some(progress);
        line
    }

    /// Whether the window keeps refreshing: while the queue runs, or while
    /// the last progress seen is parsing, downloading or merging.
    pub fn needs_repaint(&self) -> (r: bool)
        ensures
            r == (self.running || (self.last_progress matches Some(p) && is_busy(p.status@))),
    {
        if self.running {
            return true;
        }
        match &self.last_progress {
            Some(p) => match &p.status {
                TaskStatus::Parsing | TaskStatus::Downloading { .. } | TaskStatus::Merging => true,
                _ => false,
            },
            None => false,
        }
    }

    /// Whether the running task has reached a final state, so that the
    /// queue moves on.
    pub fn active_finished(&self) -> (r: bool)
        ensures
            r == (self.last_progress matches Some(p) && is_final(p.status@)),
    {
        match &self.last_progress {
            Some(p) => p.status.is_final_exec(),
            None => false,
        }
    }

    /// Forgets the running task. Returns whether the queue goes on with the
    /// next task.
    pub fn finish_active_task(&mut self) -> (r: bool)
        requires
            old(self).wf(),
        ensures
            final(self).wf(),
            no_task_reopened(old(self).items(), final(self).items()),
            final(self).tasks == old(self).tasks,
            final(self).running == old(self).running,
            final(self).active_index is None,
            final(self).last_progress is None,
            r == old(self).running,
    {
        self.active_index = None;
        self.last_progress = None;
        self.running
    }
}

fn status_log(p: &DownloadProgress) -> (r: Option<LogLine>)
    ensures
        match status_log_spec(p@) {
            Some(l) => r matches Some(x) && x@ == l,
            None => r is None,
        },
{
    match &p.status {
        TaskStatus::Parsing => Some(log_line("🔍 正在解析 M3U8 播放列表...".to_owned(), false)),
        TaskStatus::Downloading { total, .. } => {
            let mut m: Vec<char> = Vec::new();
            push_str(&mut m, "⬇ 开始下载 ");
            push_decimal(&mut m, *total as u64);
            push_str(&mut m, " 个分片...");
            Some(log_line(string_from_chars(m.as_slice()), false))
        },
        TaskStatus::Merging => Some(log_line("🔗 正在合并分片...".to_owned(), false)),
        TaskStatus::Completed => {
            let mut m: Vec<char> = Vec::new();
            push_str(&mut m, "✅ 下载完成: ");
            match &p.output_path {
                Some(x) => push_str(&mut m, x.as_str()),
                None => {},
            }
            proof {
                assert(m@ =~= "✅ 下载完成: "@ + shown_path(p@.output_path));
            }
            Some(log_line(string_from_chars(m.as_slice()), false))
        },
        TaskStatus::Failed(e) => {
            let mut m: Vec<char> = Vec::new();
            push_str(&mut m, "❌ 下载失败: ");
            push_str(&mut m, e.as_str());
            Some(log_line(string_from_chars(m.as_slice()), true))
        },
        TaskStatus::Cancelled => Some(log_line("⏹ 任务已取消".to_owned(), false)),
        TaskStatus::Pending => None,
    }
}


// ---------------------------------------------------------------------------
// Moving on to the next task
// ---------------------------------------------------------------------------

/// `i` is the first entry matching `keyword`, by listing order.
pub open spec fn is_first_match(entries: Seq<DirEntryInfo>, keyword: Seq<char>, i: int) -> bool {
    &&& 0 <= i < entries.len()
    &&& entry_matches(entries[i], keyword)
    &&& forall|j: int| 0 <= j < i ==> !entry_matches(#[trigger] entries[j], keyword)
}

/// The file of the save directory (listed as `entries`) that a task whose
/// output is `output_filename` would duplicate: the first regular file whose
/// lower-case name contains the output's match keyword; none for an empty
/// keyword.
pub open spec fn existing_file(entries: Seq<DirEntryInfo>, output_filename: Seq<char>) -> Option<Seq<char>> {
    let kw = match_keyword_spec(output_filename);
    if kw.len() > 0 && exists|i: int| is_first_match(entries, kw, i) {
        Some(entries[choose|i: int| is_first_match(entries, kw, i)].name@)
    } else {
        None
    }
}

/// A pending task whose file is already there: it is skipped.
pub open spec fn skippable(item: BatchTaskItemView, entries: Seq<DirEntryInfo>) -> bool {
    item.status == BatchTaskStatus::Pending && existing_file(entries, item.output_filename) is Some
}

/// A pending task whose file is not there yet: it can be started.
pub open spec fn startable(item: BatchTaskItemView, entries: Seq<DirEntryInfo>) -> bool {
    item.status == BatchTaskStatus::Pending && existing_file(entries, item.output_filename) is None
}

/// `j` is the first task that can be started.
pub open spec fn first_startable(items: Seq<BatchTaskItemView>, entries: Seq<DirEntryInfo>, j: int) -> bool {
    &&& 0 <= j < items.len()
    &&& startable(items[j], entries)
    &&& forall|k: int| 0 <= k < j ==> !startable(#[trigger] items[k], entries)
}

/// A task as the scan for the next task leaves it: skipped when its file is
/// already there.
pub open spec fn after_scan(item: BatchTaskItemView, entries: Seq<DirEntryInfo>) -> BatchTaskItemView {
    if skippable(item, entries) {
        BatchTaskItemView {
            status: BatchTaskStatus::Skipped,
            detail: "检测到已存在文件: "@ + existing_file(entries, item.output_filename)->0,
            ..item
        }
    } else {
        item
    }
}

/// A task once it is started.
pub open spec fn started_item(item: BatchTaskItemView) -> BatchTaskItemView {
    BatchTaskItemView { status: BatchTaskStatus::Running, detail: "等待开始"@, ..item }
}

/// The log lines of the tasks among the first `n` that the scan skips.
pub open spec fn skip_lines(items: Seq<BatchTaskItemView>, entries: Seq<DirEntryInfo>, n: nat) -> Seq<LogLineView>
    decreases n,
{
    if n == 0 {
        seq![]
    } else {
        let rest = skip_lines(items, entries, (n - 1) as nat);
        let item = items[n - 1];
        if skippable(item, entries) {
            rest.push(
                LogLineView {
                    message: "⏭ 跳过 "@ + item.output_filename + ": 检测到已存在匹配文件 "@
                        + existing_file(entries, item.output_filename)->0,
                    is_error: false,
                },
            )
        } else {
            rest
        }
    }
}

/// Skipped lines are unchanged across tasks that are not skipped.
proof fn lemma_skip_lines_flat(items: Seq<BatchTaskItemView>, entries: Seq<DirEntryInfo>, p: nat, q: nat)
    requires
        p <= q <= items.len(),
        forall|k: int| p <= k < q ==> !skippable(#[trigger] items[k], entries),
    ensures
        skip_lines(items, entries, q) == skip_lines(items, entries, p),
    decreases q - p,
{
    if p < q {
        lemma_skip_lines_flat(items, entries, p, (q - 1) as nat);
    }
}

/// The existing file of a task, looked up in the listing.
fn existing_file_exec(output_filename: &str, entries: &Vec<DirEntryInfo>) -> (r: Option<String>)
    ensures
        r matches Some(n) ==> existing_file(entries@, output_filename@) == Some(n@),
        r is None ==> existing_file(entries@, output_filename@) is None,
{
    let kw = filename_match_keyword(output_filename);
    let r = find_matching_entry(kw.as_str(), entries);
    proof {
        let e = entries@;
        let k = kw@;
        match &r {
            Some(n) => {
                let i = choose|i: int|
                    0 <= i < e.len() && entry_matches(e[i], k) && n@ == e[i].name@ && forall|j: int|
                        0 <= j < i ==> !entry_matches(#[trigger] e[j], k);
                assert(is_first_match(e, k, i));
                let c = choose|i: int| is_first_match(e, k, i);
                assert(is_first_match(e, k, c));
                if c < i {
                    assert(!entry_matches(e[c], k));
                }
                if i < c {
                    assert(!entry_matches(e[i], k));
                }
            },
            None => {
                if k.len() > 0 {
                    assert forall|i: int| !is_first_match(e, k, i) by {
                        if 0 <= i < e.len() {
                            assert(!entry_matches(e[i], k));
                        }
                    }
                }
            },
        }
    }
    r
}

/// The scan for the next task has handled the tasks before `p`: they are
/// as the scan leaves them and none of them could be started; the others
/// are untouched.
#[verifier::opaque]
spec fn scanned(orig: Seq<BatchTaskItemView>, cur: Seq<BatchTaskItemView>, e: Seq<DirEntryInfo>, p: int) -> bool {
    &&& 0 <= p <= orig.len()
    &&& cur.len() == orig.len()
    &&& forall|i: int| 0 <= i < p ==> #[trigger] cur[i] == after_scan(orig[i], e)
    &&& forall|i: int| p <= i < orig.len() ==> #[trigger] cur[i] == orig[i]
    &&& forall|i: int| 0 <= i < p ==> !startable(#[trigger] orig[i], e)
}

proof fn lemma_scan_start(orig: Seq<BatchTaskItemView>, e: Seq<DirEntryInfo>)
    ensures
        scanned(orig, orig, e, 0),
{
    reveal(scanned);
}

/// No pending task is left: every task is as the scan leaves it, and none
/// could be started.
proof fn lemma_scan_end(orig: Seq<BatchTaskItemView>, cur: Seq<BatchTaskItemView>, e: Seq<DirEntryInfo>, p: int)
    requires
        scanned(orig, cur, e, p),
        forall|i: int| 0 <= i < cur.len() ==> (#[trigger] cur[i]).status != BatchTaskStatus::Pending,
    ensures
        forall|i: int| 0 <= i < orig.len() ==> !startable(#[trigger] orig[i], e),
        cur == Seq::new(orig.len(), |i: int| after_scan(orig[i], e)),
        skip_lines(orig, e, orig.len()) == skip_lines(orig, e, p as nat),
        no_task_reopened(orig, cur),
{
    reveal(scanned);
    assert forall|i: int| p <= i < orig.len() implies !skippable(#[trigger] orig[i], e) && !startable(orig[i], e) by {
        assert(cur[i].status != BatchTaskStatus::Pending);
    }
    lemma_skip_lines_flat(orig, e, p as nat, orig.len());
    assert(cur =~= Seq::new(orig.len(), |i: int| after_scan(orig[i], e)));
}

/// The first pending task `q` lies at or after `p`, and the tasks between
/// are neither skipped nor startable.
proof fn lemma_scan_next(orig: Seq<BatchTaskItemView>, cur: Seq<BatchTaskItemView>, e: Seq<DirEntryInfo>, p: int, q: int)
    requires
        scanned(orig, cur, e, p),
        first_pending(cur, q),
    ensures
        p <= q < orig.len(),
        cur[q] == orig[q],
        orig[q].status == BatchTaskStatus::Pending,
        forall|k: int| 0 <= k < q ==> !startable(#[trigger] orig[k], e),
        skip_lines(orig, e, q as nat) == skip_lines(orig, e, p as nat),
        scanned(orig, cur, e, q),
{
    reveal(scanned);
    if q < p {
        assert(cur[q] == after_scan(orig[q], e));
    }
    assert forall|k: int| p <= k < q implies !skippable(#[trigger] orig[k], e) && !startable(orig[k], e) by {
        assert(cur[k].status != BatchTaskStatus::Pending);
    }
    lemma_skip_lines_flat(orig, e, p as nat, q as nat);
    assert forall|i: int| 0 <= i < q implies #[trigger] cur[i] == after_scan(orig[i], e) by {
        if i >= p {
            assert(!skippable(orig[i], e));
        }
    }
}

/// Skipping task `q` moves the scan past it.
proof fn lemma_scan_skip(
    orig: Seq<BatchTaskItemView>,
    cur: Seq<BatchTaskItemView>,
    next: Seq<BatchTaskItemView>,
    e: Seq<DirEntryInfo>,
    q: int,
    name: Seq<char>,
)
    requires
        scanned(orig, cur, e, q),
        q < orig.len(),
        orig[q].status == BatchTaskStatus::Pending,
        existing_file(e, orig[q].output_filename) == Some(name),
        next == cur.update(
            q,
            BatchTaskItemView {
                status: BatchTaskStatus::Skipped,
                detail: "检测到已存在文件: "@ + name,
                ..cur[q]
            },
        ),
    ensures
        scanned(orig, next, e, q + 1),
        skip_lines(orig, e, (q + 1) as nat) == skip_lines(orig, e, q as nat).push(
            LogLineView {
                message: "⏭ 跳过 "@ + orig[q].output_filename + ": 检测到已存在匹配文件 "@ + name,
                is_error: false,
            },
        ),
{
    reveal(scanned);
    assert(next[q] == after_scan(orig[q], e));
}

/// Starting task `q`, the first startable one.
proof fn lemma_scan_begin(
    orig: Seq<BatchTaskItemView>,
    cur: Seq<BatchTaskItemView>,
    next: Seq<BatchTaskItemView>,
    e: Seq<DirEntryInfo>,
    q: int,
)
    requires
        scanned(orig, cur, e, q),
        q < orig.len(),
        startable(orig[q], e),
        next == cur.update(
            q,
            BatchTaskItemView { status: BatchTaskStatus::Running, detail: "等待开始"@, ..cur[q] },
        ),
    ensures
        first_startable(orig, e, q),
        next == Seq::new(
            orig.len(),
            |i: int|
                if i < q {
                    after_scan(orig[i], e)
                } else if i == q {
                    started_item(orig[i])
                } else {
                    orig[i]
                },
        ),
        no_task_reopened(orig, next),
{
    reveal(scanned);
    assert(next =~= Seq::new(
        orig.len(),
        |i: int|
            if i < q {
                after_scan(orig[i], e)
            } else if i == q {
                started_item(orig[i])
            } else {
                orig[i]
            },
    ));
}

/// What moving on to the next task does to a running queue whose tasks
/// were `orig`, given the save directory's listing `e`: the queue `q` after
/// it, the log lines written, and the task started.
pub open spec fn next_task_outcome(
    orig: Seq<BatchTaskItemView>,
    e: Seq<DirEntryInfo>,
    q: BatchQueue,
    lines: Seq<LogLineView>,
    started: Option<usize>,
) -> bool {
    &&& q.wf()
    &&& no_task_reopened(orig, q.items())
    &&& match started {
        Some(j) => {
            &&& first_startable(orig, e, j as int)
            &&& q.items() == Seq::new(
                orig.len(),
                |i: int|
                    if i < j {
                        after_scan(orig[i], e)
                    } else if i == j {
                        started_item(orig[i])
                    } else {
                        orig[i]
                    },
            )
            &&& lines == skip_lines(orig, e, j as nat).push(
                LogLineView { message: "▶ 开始下载: "@ + orig[j as int].output_filename, is_error: false },
            )
            &&& q.running
            &&& q.active_index == Some(j)
            &&& q.last_progress is None
        },
        None => {
            &&& forall|i: int| 0 <= i < orig.len() ==> !startable(#[trigger] orig[i], e)
            &&& q.items() == Seq::new(orig.len(), |i: int| after_scan(orig[i], e))
            &&& lines == skip_lines(orig, e, orig.len()).push(
                LogLineView { message: "✅ 批量任务执行完成"@, is_error: false },
            )
            &&& !q.running
            &&& q.active_index is None
            &&& q.last_progress is None
        },
    }
}

/// What moving on to the next task gave: the log lines, in order, and the
/// task started, if any.
pub struct NextTask {
    pub lines: Vec<LogLine>,
    pub started: Option<usize>,
}

impl BatchQueue {
    /// Moves on to the next task while the queue runs: pending tasks whose
    /// file is already in the save directory (listed as `entries`) are
    /// skipped in order, and the first other pending task is started; when
    /// none is left, the queue ends.
    #[verifier::rlimit(30)]
    pub fn start_next_task(&mut self, entries: &Vec<DirEntryInfo>) -> (r: NextTask)
        requires
            old(self).wf(),
        ensures
            final(self).wf(),
            no_task_reopened(old(self).items(), final(self).items()),
            !old(self).running ==> *final(self) == *old(self) && r.lines@.len() == 0 && r.started is None,
            old(self).running ==> next_task_outcome(
                old(self).items(),
                entries@,
                *final(self),
                log_lines_view(r.lines@),
                r.started,
            ),
    {
        let mut lines: Vec<LogLine> = Vec::new();
        if !self.running {
            return NextTask { lines, started: None };
        }
        let ghost orig = self.items();
        let ghost e = entries@;
        let mut p: usize = 0;
        proof {
            lemma_scan_start(orig, e);
            assert(log_lines_view(lines@) =~= skip_lines(orig, e, 0));
        }
        loop
            invariant
                old(self).running,
                self.running,
                self.wf(),
                orig == old(self).items(),
                e == entries@,
                scanned(orig, self.items(), e, p as int),
                self.tasks@.len() == orig.len(),
                log_lines_view(lines@) == skip_lines(orig, e, p as nat),
            decreases orig.len() - p,
        {
            let next = self.next_pending();
            match next {
                None => {
                    proof {
                        lemma_scan_end(orig, self.items(), e, p as int);
                    }
                    let line = self.finish_queue();
                    lines.push(line);
                    proof {
                        assert(log_lines_view(lines@) =~= skip_lines(orig, e, orig.len()).push(
                            LogLineView { message: "✅ 批量任务执行完成"@, is_error: false },
                        ));
                    }
                    return NextTask { lines, started: None };
                },
                Some(q) => {
                    let n = self.tasks.len();
                    proof {
                        lemma_scan_next(orig, self.items(), e, p as int, q as int);
                        assert(q < n);
                    }
                    let found = existing_file_exec(self.tasks[q].output_filename.as_str(), entries);
                    let ghost before = self.items();
                    match found {
                        Some(name) => {
                            let line = self.skip_task(q, name.as_str());
                            lines.push(line);
                            proof {
                                lemma_scan_skip(orig, before, self.items(), e, q as int, name@);
                                assert(log_lines_view(lines@) =~= skip_lines(orig, e, (q + 1) as nat));
                            }
                            p = q + 1;
                        },
                        None => {
                            let line = self.begin_task(q);
                            lines.push(line);
                            proof {
                                lemma_scan_begin(orig, before, self.items(), e, q as int);
                                assert(log_lines_view(lines@) =~= skip_lines(orig, e, q as nat).push(
                                    LogLineView {
                                        message: "▶ 开始下载: "@ + orig[q as int].output_filename,
                                        is_error: false,
                                    },
                                ));
                            }
                            return NextTask { lines, started: Some(q) };
                        },
                    }
                },
            }
        }
    }
    /// Starts a batch and moves on to its first task: an empty batch is
    /// refused with an error line and leaves the queue as it was; otherwise
    /// the tasks replace the queue's, the "added" line is written, and the
    /// queue moves on as `start_next_task` does.
    pub fn start_queue(&mut self, tasks: Vec<BatchTaskItem>, entries: &Vec<DirEntryInfo>) -> (r: NextTask)
        requires
            old(self).wf(),
        ensures
            final(self).wf(),
            tasks@.len() == 0 ==> *final(self) == *old(self) && r.started is None && log_lines_view(r.lines@)
                == seq![LogLineView { message: "❌ 请输入至少一个下载任务"@, is_error: true }],
            tasks@.len() > 0 ==> {
                &&& log_lines_view(r.lines@).len() >= 1
                &&& log_lines_view(r.lines@)[0] == (LogLineView {
                    message: "📦 已加入 "@ + dec_digits(tasks@.len()) + " 个任务"@,
                    is_error: false,
                })
                &&& next_task_outcome(
                    items_view(tasks@),
                    entries@,
                    *final(self),
                    log_lines_view(r.lines@).drop_first(),
                    r.started,
                )
            },
    {
        let empty = tasks.len() == 0;
        let first = self.start(tasks);
        let mut lines: Vec<LogLine> = Vec::new();
        lines.push(first);
        if empty {
            proof {
                assert(log_lines_view(lines@) =~= seq![
                    LogLineView { message: "❌ 请输入至少一个下载任务"@, is_error: true },
                ]);
            }
            return NextTask { lines, started: None };
        }
        let mut next = self.start_next_task(entries);
        let ghost next_lines = next.lines@;
        lines.append(&mut next.lines);
        proof {
            assert(log_lines_view(lines@).drop_first() =~= log_lines_view(next_lines));
        }
        NextTask { lines, started: next.started }
    }

    /// Forgets the finished task and, while the queue runs, moves on to the
    /// next one as `start_next_task` does.
    pub fn finish_and_continue(&mut self, entries: &Vec<DirEntryInfo>) -> (r: NextTask)
        requires
            old(self).wf(),
        ensures
            final(self).wf(),
            no_task_reopened(old(self).items(), final(self).items()),
            !old(self).running ==> {
                &&& final(self).tasks == old(self).tasks
                &&& !final(self).running
                &&& final(self).active_index is None
                &&& final(self).last_progress is None
                &&& r.lines@.len() == 0
                &&& r.started is None
            },
            old(self).running ==> next_task_outcome(
                old(self).items(),
                entries@,
                *final(self),
                log_lines_view(r.lines@),
                r.started,
            ),
    {
        if self.finish_active_task() {
            self.start_next_task(entries)
        } else {
            NextTask { lines: Vec::new(), started: None }
        }
    }
}

} // verus!
