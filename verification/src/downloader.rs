//! The decisions of a download task.
//!
//! A task fetches the playlist, names and prepares its temporary
//! directory, resumes from segments already on disk, downloads the rest
//! concurrently with retries, and merges them. The network and file work
//! is done by the caller; this module decides, step by step, what comes
//! next and how the shared progress record changes.
use vstd::prelude::*;
use sha2::Digest;
use crate::config::{AppConfig, TempNameStrategy};
use crate::crypto::CryptoError;
use crate::hexcode::{encode_hex, hex_encode, lemma_hex_encode_len};
use crate::merger::{io_failed_prefix, io_message, merge_message_ok, segment_path, MergeError, MergeErrorView};
use crate::parser::{
    network_failed_prefix, parse_message_ok, parse_url, reqwest_error_text, url_parse, KeyInfo,
    ParseError, ParseErrorView, };
use crate::crypto::{crypto_message, decrypt_aes128, decrypt_aes128_spec, CryptoErrorView};
use crate::paths::{
    file_stem, file_stem_spec, join_path, join_path_spec, segment_file_name,
};
use crate::text::{
    concat_str, starts_with, before_char, before_char_exec, chars_of, dec_digits, push_decimal, push_str,
    string_from_chars, sub_chars,
};

verus! {

broadcast use vstd::string::group_string_axioms;

/// Errors of a download task.
#[derive(Debug)]
pub enum DownloadError {
    /// The playlist could not be fetched or interpreted.
    Parse(ParseError),
    /// An HTTP request failed.
    Network(reqwest::Error),
    /// A file operation failed.
    Io(std::io::Error),
    /// A segment could not be decrypted.
    Crypto(CryptoError),
    /// The segments could not be merged.
    Merge(MergeError),
    /// The task was cancelled.
    Cancelled,
    /// Some segment failed on every attempt.
    MaxRetriesExceeded(String),
}

pub enum DownloadErrorView {
    Parse(ParseErrorView),
    Network,
    Io,
    Crypto(CryptoErrorView),
    Merge(MergeErrorView),
    Cancelled,
    MaxRetriesExceeded(Seq<char>),
}

impl View for DownloadError {
    type V = DownloadErrorView;

    open spec fn view(&self) -> DownloadErrorView {
        match self {
            DownloadError::Parse(e) => DownloadErrorView::Parse(e@),
            DownloadError::Network(_) => DownloadErrorView::Network,
            DownloadError::Io(_) => DownloadErrorView::Io,
            DownloadError::Crypto(e) => DownloadErrorView::Crypto(e@),
            DownloadError::Merge(e) => DownloadErrorView::Merge(e@),
            DownloadError::Cancelled => DownloadErrorView::Cancelled,
            DownloadError::MaxRetriesExceeded(m) => DownloadErrorView::MaxRetriesExceeded(m@),
        }
    }
}

pub open spec fn parse_failed_prefix() -> Seq<char> {
    "解析失败: "@
}

pub open spec fn merge_failed_prefix() -> Seq<char> {
    "合并失败: "@
}

/// `m` is the message of a download error `e`: a fixed prefix naming the
/// stage, then the message of the error it wraps. Texts that come from
/// `reqwest` or the operating system are known by their prefix only.
pub open spec fn download_message_ok(e: DownloadErrorView, m: Seq<char>) -> bool {
    match e {
        DownloadErrorView::Parse(p) => starts_with(m, parse_failed_prefix()) && parse_message_ok(
            p,
            m.skip(parse_failed_prefix().len() as int),
        ),
        DownloadErrorView::Network => starts_with(m, network_failed_prefix()),
        DownloadErrorView::Io => starts_with(m, io_failed_prefix()),
        DownloadErrorView::Crypto(c) => m == "解密失败: "@ + crypto_message(c),
        DownloadErrorView::Merge(g) => starts_with(m, merge_failed_prefix()) && merge_message_ok(
            g,
            m.skip(merge_failed_prefix().len() as int),
        ),
        DownloadErrorView::Cancelled => m == "任务已取消"@,
        DownloadErrorView::MaxRetriesExceeded(s) => m == "下载失败 (重试已用尽): "@ + s,
    }
}

impl DownloadError {
    /// The error's message, as shown to the user.
    pub fn message(&self) -> (r: String)
        ensures
            download_message_ok(self@, r@),
    {
        match self {
            DownloadError::Parse(e) => {
                let inner = e.message();
                let r = concat_str("解析失败: ", inner.as_str());
                proof {
                    assert(r@.take(parse_failed_prefix().len() as int) =~= parse_failed_prefix());
                    assert(r@.skip(parse_failed_prefix().len() as int) =~= inner@);
                }
                r
            },
            DownloadError::Network(e) => {
                let t = reqwest_error_text(e);
                let r = concat_str("网络请求失败: ", t.as_str());
                proof {
                    assert(r@.take(network_failed_prefix().len() as int) =~= network_failed_prefix());
                }
                r
            },
            DownloadError::Io(e) => io_message(e),
            DownloadError::Crypto(e) => {
                let inner = e.message();
                concat_str("解密失败: ", inner.as_str())
            },
            DownloadError::Merge(e) => {
                let inner = e.message();
                let r = concat_str("合并失败: ", inner.as_str());
                proof {
                    assert(r@.take(merge_failed_prefix().len() as int) =~= merge_failed_prefix());
                    assert(r@.skip(merge_failed_prefix().len() as int) =~= inner@);
                }
                r
            },
            DownloadError::Cancelled => "任务已取消".to_owned(),
            DownloadError::MaxRetriesExceeded(m) => concat_str("下载失败 (重试已用尽): ", m.as_str()),
        }
    }
}

/// State of a download task.
#[derive(Debug, Clone, PartialEq)]
pub enum TaskStatus {
    /// Waiting to start.
    Pending,
    /// Fetching and parsing the playlist.
    Parsing,
    /// Downloading segments.
    Downloading { completed: usize, total: usize },
    /// Merging segments.
    Merging,
    /// Done.
    Completed,
    /// Stopped by an error.
    Failed(String),
    /// Stopped by the user.
    Cancelled,
}

pub enum TaskStatusView {
    Pending,
    Parsing,
    Downloading { completed: usize, total: usize },
    Merging,
    Completed,
    Failed(Seq<char>),
    Cancelled,
}

impl View for TaskStatus {
    type V = TaskStatusView;

    open spec fn view(&self) -> TaskStatusView {
        match self {
            TaskStatus::Pending => TaskStatusView::Pending,
            TaskStatus::Parsing => TaskStatusView::Parsing,
            TaskStatus::Downloading { completed, total } => TaskStatusView::Downloading {
                completed: *completed,
                total: *total,
            },
            TaskStatus::Merging => TaskStatusView::Merging,
            TaskStatus::Completed => TaskStatusView::Completed,
            TaskStatus::Failed(m) => TaskStatusView::Failed(m@),
            TaskStatus::Cancelled => TaskStatusView::Cancelled,
        }
    }
}

/// A status no later update replaces: completed, failed or cancelled.
pub open spec fn is_final(s: TaskStatusView) -> bool {
    s is Completed || s is Failed || s is Cancelled
}

impl TaskStatus {
    pub fn is_final_exec(&self) -> (b: bool)
        ensures
            b == is_final(self@),
    {
        match self {
            TaskStatus::Completed | TaskStatus::Failed(_) | TaskStatus::Cancelled => true,
            _ => false,
        }
    }

    /// A copy of the status.
    pub fn duplicate(&self) -> (r: TaskStatus)
        ensures
            r@ == self@,
    {
        match self {
            TaskStatus::Pending => TaskStatus::Pending,
            TaskStatus::Parsing => TaskStatus::Parsing,
            TaskStatus::Downloading { completed, total } => TaskStatus::Downloading {
                completed: *completed,
                total: *total,
            },
            TaskStatus::Merging => TaskStatus::Merging,
            TaskStatus::Completed => TaskStatus::Completed,
            TaskStatus::Failed(m) => TaskStatus::Failed(m.clone()),
            TaskStatus::Cancelled => TaskStatus::Cancelled,
        }
    }
}

/// Progress of a download task, shared with the user interface.
#[derive(Debug, Clone)]
pub struct DownloadProgress {
    pub status: TaskStatus,
    pub task_id: String,
    /// The merged file, once the task is complete.
    pub output_path: Option<String>,
    /// Size of the first segment times the number of segments.
    pub estimated_total_size: Option<u64>,
    /// Sum of the segment durations in seconds, as the bit pattern of an
    /// `f64`; the library carries it and never computes with it.
    pub estimated_total_duration_bits: Option<u64>,
    /// Estimated seconds left.
    pub eta_seconds: Option<u64>,
}

pub struct DownloadProgressView {
    pub status: TaskStatusView,
    pub task_id: Seq<char>,
    pub output_path: Option<Seq<char>>,
    pub estimated_total_size: Option<u64>,
    pub estimated_total_duration_bits: Option<u64>,
    pub eta_seconds: Option<u64>,
}

impl View for DownloadProgress {
    type V = DownloadProgressView;

    open spec fn view(&self) -> DownloadProgressView {
        DownloadProgressView {
            status: self.status@,
            task_id: self.task_id@,
            output_path: match self.output_path {
                Some(p) => Some(p@),
                None => None,
            },
            estimated_total_size: self.estimated_total_size,
            estimated_total_duration_bits: self.estimated_total_duration_bits,
            eta_seconds: self.eta_seconds,
        }
    }
}

pub open spec fn pending_id() -> Seq<char> {
    "pending"@
}

/// `set_status`: a final status is kept; otherwise the status and the task
/// id are replaced.
pub open spec fn set_status_spec(p: DownloadProgressView, s: TaskStatusView, id: Seq<char>) -> DownloadProgressView {
    if is_final(p.status) {
        p
    } else {
        DownloadProgressView { status: s, task_id: id, ..p }
    }
}

/// The update a segment worker makes after a successful download.
pub open spec fn segment_done_spec(p: DownloadProgressView, done: usize, total: usize, id: Seq<char>, eta: Option<u64>) -> DownloadProgressView {
    if is_final(p.status) {
        p
    } else {
        DownloadProgressView {
            status: TaskStatusView::Downloading { completed: done, total },
            task_id: id,
            eta_seconds: if eta is Some {
                eta
            } else {
                p.eta_seconds
            },
            ..p
        }
    }
}

impl DownloadProgress {
    /// The progress of a task that has not started.
    pub fn new_pending() -> (r: DownloadProgress)
        ensures
            r@ == (DownloadProgressView {
                status: TaskStatusView::Pending,
                task_id: pending_id(),
                output_path: None,
                estimated_total_size: None,
                estimated_total_duration_bits: None,
                eta_seconds: None,
            }),
    {
        DownloadProgress {
            status: TaskStatus::Pending,
            task_id: "pending".to_owned(),
            output_path: None,
            estimated_total_size: None,
            estimated_total_duration_bits: None,
            eta_seconds: None,
        }
    }

    /// Updates the status, unless the task has already completed, failed or
    /// been cancelled (so that a late update from a background worker cannot
    /// overwrite the final state).
    pub fn set_status(&mut self, status: TaskStatus, task_id: &str)
        ensures
            final(self)@ == set_status_spec(old(self)@, status@, task_id@),
    {
        if self.status.is_final_exec() {
            return;
        }
        self.status = status;
        self.task_id = task_id.to_owned();
    }

    /// Records that `done` of `total` segments are downloaded, with the new
    /// estimate of the time left when there is one.
    pub fn record_segment_done(&mut self, done: usize, total: usize, task_id: &str, eta_seconds: Option<u64>)
        ensures
            final(self)@ == segment_done_spec(old(self)@, done, total, task_id@, eta_seconds),
    {
        if self.status.is_final_exec() {
            return;
        }
        self.status = TaskStatus::Downloading { completed: done, total };
        self.task_id = task_id.to_owned();
        if eta_seconds.is_some() {
            self.eta_seconds = eta_seconds;
        }
    }

    /// Records how a run ended in error: a cancellation leaves the progress
    /// as it is, any other error becomes `Failed` with the error's message
    /// (unless the task is already final).
    pub fn record_failure(&mut self, error: &DownloadError, task_id: &str)
        ensures
            error is Cancelled || is_final(old(self)@.status) ==> final(self)@ == old(self)@,
            !(error is Cancelled) && !is_final(old(self)@.status) ==> (final(self)@.status matches TaskStatusView::Failed(m)
                && download_message_ok(error@, m) && final(self)@ == set_status_spec(
                old(self)@,
                TaskStatusView::Failed(m),
                task_id@,
            )),
    {
        match error {
            DownloadError::Cancelled => {},
            _ => {
                let m = error.message();
                self.set_status(TaskStatus::Failed(m), task_id);
            },
        }
    }
}

/// Marking a task completed, failed or cancelled is for good: every later
/// status update or segment report leaves the progress unchanged.
pub proof fn law_final_status_is_kept(p: DownloadProgressView, s: TaskStatusView, id: Seq<char>, done: usize, total: usize, eta: Option<u64>)
    requires
        is_final(p.status),
    ensures
        set_status_spec(p, s, id) == p,
        segment_done_spec(p, done, total, id, eta) == p,
{
}

/// Until a task is final, each segment report takes effect: the status
/// becomes downloading with the reported counts and task id, a new estimate
/// of the time left replaces the previous one, and a report without one
/// keeps the previous estimate. Nothing else changes.
pub proof fn law_segment_report_applies(p: DownloadProgressView, done: usize, total: usize, id: Seq<char>, eta: Option<u64>)
    requires
        !is_final(p.status),
    ensures
        segment_done_spec(p, done, total, id, eta).status == (TaskStatusView::Downloading {
            completed: done,
            total,
        }),
        segment_done_spec(p, done, total, id, eta).task_id == id,
        eta matches Some(e) ==> segment_done_spec(p, done, total, id, eta).eta_seconds == Some(e),
        eta is None ==> segment_done_spec(p, done, total, id, eta).eta_seconds == p.eta_seconds,
        segment_done_spec(p, done, total, id, eta).output_path == p.output_path,
        segment_done_spec(p, done, total, id, eta).estimated_total_size == p.estimated_total_size,
        segment_done_spec(p, done, total, id, eta).estimated_total_duration_bits
            == p.estimated_total_duration_bits,
{
}

/// Until a task is final, a status update always takes effect.
pub proof fn law_status_update_applies(p: DownloadProgressView, s: TaskStatusView, id: Seq<char>)
    requires
        !is_final(p.status),
    ensures
        set_status_spec(p, s, id).status == s,
        set_status_spec(p, s, id).task_id == id,
{
}

// ---------------------------------------------------------------------------
// Naming the temporary directory
// ---------------------------------------------------------------------------

/// The SHA-256 digest of `data`.
pub uninterp spec fn sha256(data: Seq<u8>) -> Seq<u8>;

/// `sha2::Sha256::digest`: the 32-byte SHA-256 digest of `data`.
#[verifier::external_body]
pub(crate) fn sha256_digest(data: &[u8]) -> (r: Vec<u8>)
    ensures
        r@ == sha256(data@),
        r@.len() == 32,
{
    sha2::Sha256::digest(data).to_vec()
}

pub open spec fn default_task_name() -> Seq<char> {
    "m3u8_task"@
}

/// The id, and temporary directory name, of a task: the first 12 hex digits
/// of the SHA-256 of the playlist text, or the file stem of the playlist
/// URL without its query and fragment (`m3u8_task` when it has none).
pub open spec fn task_id_spec(strategy: TempNameStrategy, url: Seq<char>, content: Seq<char>) -> Seq<char> {
    match strategy {
        TempNameStrategy::ContentHash => hex_encode(sha256(vstd::utf8::encode_utf8(content))).take(12),
        TempNameStrategy::Filename => match file_stem_spec(before_char(before_char(url, '?'), '#')) {
            Some(s) => s,
            None => default_task_name(),
        },
    }
}

pub fn compute_task_id(strategy: TempNameStrategy, url: &str, content: &str) -> (r: String)
    ensures
        r@ == task_id_spec(strategy, url@, content@),
{
    match strategy {
        TempNameStrategy::ContentHash => {
            let digest = sha256_digest(content.as_bytes());
            let hex = encode_hex(digest.as_slice());
            let hv = chars_of(hex.as_str());
            proof {
                lemma_hex_encode_len(digest@);
            }
            let first = sub_chars(&hv, 0, 12);
            string_from_chars(first.as_slice())
        },
        TempNameStrategy::Filename => {
            let u = chars_of(url);
            let a = before_char_exec(&u, '?');
            let b = before_char_exec(&a, '#');
            match file_stem(&b) {
                Some(s) => string_from_chars(s.as_slice()),
                None => "m3u8_task".to_owned(),
            }
        },
    }
}

// ---------------------------------------------------------------------------
// The steps of a download run
// ---------------------------------------------------------------------------

/// Where a run stands.
#[derive(Debug, Clone, Copy, PartialEq, Eq, Structural)]
pub enum RunPhase {
    /// Not started.
    Start,
    /// Waiting for the playlist.
    Parsing,
    /// Waiting for the temporary directory.
    PreparingTemp,
    /// Waiting for the first segment (used to estimate the size).
    ProbingFirst,
    /// Waiting for the list of segments already on disk.
    Scanning,
    /// Waiting for the segment downloads.
    Downloading,
    /// Waiting for FFmpeg.
    Merging,
    /// Done, with a result.
    Finished,
}

/// What the caller reports back after doing the work of an action.
pub enum RunEvent {
    /// The run begins.
    Started,
    /// The playlist has been fetched: its number of segments, its text, and
    /// the sum of the segment durations (bits of an `f64`).
    PlaylistFetched { segment_count: usize, raw_content: String, total_duration_bits: u64 },
    /// The temporary directory exists; whether the task was cancelled
    /// meanwhile.
    TempDirCreated { cancelled: bool },
    /// The first segment is on disk, with its size when it could be read.
    FirstSegmentReady { size: Option<u64> },
    /// Attempt `attempt` (counted from 0) at the first segment failed;
    /// whether the task has been cancelled (then no retry follows).
    FirstSegmentFailed { attempt: u32, cancelled: bool },
    /// For each segment, whether a non-empty file for it is already on disk.
    ExistingScanned { present: Vec<bool> },
    /// All segment workers have stopped.
    SegmentsFinished { cancelled: bool, has_error: bool },
    /// FFmpeg has produced the output file.
    Merged,
}

/// The work the caller does next.
#[derive(Debug)]
pub enum RunAction {
    /// Fetch and interpret the playlist at the task's URL.
    FetchPlaylist,
    /// Create this directory (and its parents).
    CreateTempDir(String),
    /// Stop with `DownloadError::Cancelled`, after removing the given
    /// temporary directory, if any.
    StopCancelled { remove_temp_dir: Option<String> },
    /// Download segment 0 to this path unless a non-empty file is already
    /// there, then report the file's size.
    PrepareFirstSegment(String),
    /// Wait this many milliseconds, then download segment 0 to this path
    /// again and report the outcome.
    RetryFirstSegment { path: String, delay_ms: u64 },
    /// Stop with the error of the last attempt at the first segment: every
    /// attempt failed, or the task was cancelled after a failed one.
    StopFirstSegmentFailed,
    /// Report which of these segment files exist and are non-empty.
    ScanExisting(Vec<String>),
    /// Download every missing segment into the temporary directory.
    DownloadSegments { temp_dir: String, initial_completed: usize },
    /// Stop with `DownloadError::MaxRetriesExceeded` and this message.
    StopRetriesExhausted(String),
    /// Create the parent directory of `output_path`, then merge the
    /// segments with FFmpeg into it.
    Merge { temp_dir: String, output_path: String, segment_count: usize },
    /// Remove the temporary directory and finish with the output path.
    Complete { temp_dir: String, output_path: String },
    /// The event does not belong to the current phase; nothing to do.
    Ignore,
}

/// The decision state of one download run.
pub struct DownloadRun {
    /// Playlist URL.
    pub url: String,
    /// Configuration of the task.
    pub config: AppConfig,
    /// Name of the merged file inside the save directory.
    pub output_filename: String,
    pub phase: RunPhase,
    /// The task id (`pending` until the playlist is known).
    pub task_id: String,
    /// The task's temporary directory.
    pub temp_dir: String,
    pub total_segments: usize,
    /// Segments found on disk when the run resumed.
    pub initial_completed: usize,
    /// Where the merged file goes.
    pub output_path: String,
}

/// Number of `true` entries.
pub open spec fn count_true(s: Seq<bool>) -> nat
    decreases s.len(),
{
    if s.len() == 0 {
        0
    } else {
        count_true(s.drop_last()) + if s.last() {
            1nat
        } else {
            0nat
        }
    }
}

proof fn lemma_count_true_le(s: Seq<bool>)
    ensures
        count_true(s) <= s.len(),
    decreases s.len(),
{
    if s.len() > 0 {
        lemma_count_true_le(s.drop_last());
    }
}

/// The number of segments already on disk.
pub fn count_present(present: &Vec<bool>) -> (n: usize)
    ensures
        n == count_true(present@),
{
    let mut n: usize = 0;
    let mut i: usize = 0;
    while i < present.len()
        invariant
            i <= present.len(),
            n == count_true(present@.take(i as int)),
            n <= i,
        decreases present.len() - i,
    {
        proof {
            assert(present@.take(i + 1).drop_last() == present@.take(i as int));
        }
        if present[i] {
            n = n + 1;
        }
        i = i + 1;
    }
    proof {
        assert(present@.take(present.len() as int) == present@);
    }
    n
}

/// The paths of segments `0..count` in `temp_dir`.
pub fn segment_paths(temp_dir: &str, count: usize) -> (r: Vec<String>)
    ensures
        r@.len() == count,
        forall|i: int| 0 <= i < count ==> (#[trigger] r@[i])@ == join_path_spec(
            temp_dir@,
            segment_file_name(i as nat),
        ),
{
    let mut r: Vec<String> = Vec::new();
    let mut i: usize = 0;
    while i < count
        invariant
            i <= count,
            r@.len() == i,
            forall|k: int| 0 <= k < i ==> (#[trigger] r@[k])@ == join_path_spec(
                temp_dir@,
                segment_file_name(k as nat),
            ),
        decreases count - i,
    {
        r.push(segment_path(temp_dir, i));
        i = i + 1;
    }
    r
}

pub open spec fn retries_message() -> Seq<char> {
    "部分分片下载失败"@
}

impl DownloadRun {
    /// A run that has not started.
    pub fn new(url: String, config: AppConfig, output_filename: String) -> (r: DownloadRun)
        ensures
            r.url == url,
            r.config == config,
            r.output_filename == output_filename,
            r.phase == RunPhase::Start,
            r.task_id@ == pending_id(),
            r.temp_dir@.len() == 0,
            r.total_segments == 0,
            r.initial_completed == 0,
            r.output_path@.len() == 0,
    {
        DownloadRun {
            url,
            config,
            output_filename,
            phase: RunPhase::Start,
            task_id: "pending".to_owned(),
            temp_dir: String::new(),
            total_segments: 0,
            initial_completed: 0,
            output_path: String::new(),
        }
    }

    /// The settings of the run, which no step changes.
    pub open spec fn same_task(self, other: DownloadRun) -> bool {
        self.url == other.url && self.config == other.config && self.output_filename
            == other.output_filename
    }

    /// Takes the next decision of the run from what the caller reports, and
    /// updates the shared progress record accordingly.
    pub fn step(&mut self, progress: &mut DownloadProgress, event: RunEvent) -> (a: RunAction)
        ensures
            final(self).same_task(*old(self)),
            match (old(self).phase, event) {
                (RunPhase::Start, RunEvent::Started) => {
                    &&& final(self).phase == RunPhase::Parsing
                    &&& final(self).task_id == old(self).task_id
                    &&& final(progress)@ == set_status_spec(
                        old(progress)@,
                        TaskStatusView::Parsing,
                        old(self).task_id@,
                    )
                    &&& a is FetchPlaylist
                },
                (
                    RunPhase::Parsing,
                    RunEvent::PlaylistFetched { segment_count, raw_content, total_duration_bits },
                ) => {
                    let id = task_id_spec(
                        old(self).config.temp_name_strategy,
                        old(self).url@,
                        raw_content@,
                    );
                    let dir = join_path_spec(old(self).config.temp_dir@, id);
                    &&& final(self).phase == RunPhase::PreparingTemp
                    &&& final(self).task_id@ == id
                    &&& final(self).temp_dir@ == dir
                    &&& final(self).total_segments == segment_count
                    &&& final(progress)@ == (DownloadProgressView {
                        task_id: id,
                        estimated_total_duration_bits: Some(total_duration_bits),
                        ..old(progress)@
                    })
                    &&& a matches RunAction::CreateTempDir(d) && d@ == dir
                },
                (RunPhase::PreparingTemp, RunEvent::TempDirCreated { cancelled }) => {
                    &&& final(self).temp_dir == old(self).temp_dir
                    &&& final(self).task_id == old(self).task_id
                    &&& final(self).total_segments == old(self).total_segments
                    &&& if cancelled {
                        &&& final(self).phase == RunPhase::Finished
                        &&& final(progress)@ == set_status_spec(
                            old(progress)@,
                            TaskStatusView::Cancelled,
                            old(self).task_id@,
                        )
                        &&& a matches RunAction::StopCancelled { remove_temp_dir: Some(d) } && d
                            == old(self).temp_dir
                    } else {
                        &&& final(progress)@ == set_status_spec(
                            old(progress)@,
                            TaskStatusView::Downloading {
                                completed: 0,
                                total: old(self).total_segments,
                            },
                            old(self).task_id@,
                        )
                        &&& if old(self).total_segments > 0 {
                            &&& final(self).phase == RunPhase::ProbingFirst
                            &&& a matches RunAction::PrepareFirstSegment(p) && p@
                                == join_path_spec(old(self).temp_dir@, segment_file_name(0))
                        } else {
                            &&& final(self).phase == RunPhase::Scanning
                            &&& a matches RunAction::ScanExisting(ps) && ps@.len() == 0
                        }
                    }
                },
                (RunPhase::ProbingFirst, RunEvent::FirstSegmentReady { size }) => {
                    &&& final(self).phase == RunPhase::Scanning
                    &&& final(self).temp_dir == old(self).temp_dir
                    &&& final(self).task_id == old(self).task_id
                    &&& final(self).total_segments == old(self).total_segments
                    &&& final(progress)@ == (DownloadProgressView {
                        estimated_total_size: match size {
                            Some(s) => Some(
                                ((s * old(self).total_segments) % 0x1_0000_0000_0000_0000) as u64,
                            ),
                            None => old(progress)@.estimated_total_size,
                        },
                        ..old(progress)@
                    })
                    &&& a matches RunAction::ScanExisting(ps) && ps@.len()
                        == old(self).total_segments && forall|i: int|
                        0 <= i < ps@.len() ==> (#[trigger] ps@[i])@ == join_path_spec(
                            old(self).temp_dir@,
                            segment_file_name(i as nat),
                        )
                },
                (RunPhase::ProbingFirst, RunEvent::FirstSegmentFailed { attempt, cancelled }) => {
                    &&& final(self).temp_dir == old(self).temp_dir
                    &&& final(self).task_id == old(self).task_id
                    &&& final(self).total_segments == old(self).total_segments
                    &&& if !cancelled && attempt < old(self).config.max_retries {
                        &&& final(self).phase == RunPhase::ProbingFirst
                        &&& final(progress)@ == old(progress)@
                        &&& a matches RunAction::RetryFirstSegment { path, delay_ms } && path@
                            == join_path_spec(old(self).temp_dir@, segment_file_name(0))
                            && delay_ms == 500 * (attempt + 1)
                    } else {
                        &&& final(self).phase == RunPhase::Finished
                        &&& final(progress)@ == old(progress)@
                        &&& a is StopFirstSegmentFailed
                    }
                },
                (RunPhase::Scanning, RunEvent::ExistingScanned { present }) => {
                    let n = count_true(present@);
                    &&& final(self).phase == RunPhase::Downloading
                    &&& final(self).initial_completed == n
                    &&& present@.len() == old(self).total_segments ==> n <= old(self).total_segments
                    &&& final(self).temp_dir == old(self).temp_dir
                    &&& final(self).task_id == old(self).task_id
                    &&& final(self).total_segments == old(self).total_segments
                    &&& final(progress)@ == if n > 0 {
                        set_status_spec(
                            old(progress)@,
                            TaskStatusView::Downloading {
                                completed: n as usize,
                                total: old(self).total_segments,
                            },
                            old(self).task_id@,
                        )
                    } else {
                        old(progress)@
                    }
                    &&& a matches RunAction::DownloadSegments { temp_dir, initial_completed }
                        && temp_dir == old(self).temp_dir && initial_completed == n
                },
                (RunPhase::Downloading, RunEvent::SegmentsFinished { cancelled, has_error }) => {
                    &&& final(self).task_id == old(self).task_id
                    &&& final(self).temp_dir == old(self).temp_dir
                    &&& final(self).total_segments == old(self).total_segments
                    &&& if cancelled {
                        &&& final(self).phase == RunPhase::Finished
                        &&& final(progress)@ == set_status_spec(
                            old(progress)@,
                            TaskStatusView::Cancelled,
                            old(self).task_id@,
                        )
                        &&& a matches RunAction::StopCancelled { remove_temp_dir: None }
                    } else if has_error {
                        &&& final(self).phase == RunPhase::Finished
                        &&& final(progress)@ == old(progress)@
                        &&& a matches RunAction::StopRetriesExhausted(m) && m@ == retries_message()
                    } else {
                        let out = join_path_spec(
                            old(self).config.save_path@,
                            old(self).output_filename@,
                        );
                        &&& final(self).phase == RunPhase::Merging
                        &&& final(self).output_path@ == out
                        &&& final(progress)@ == set_status_spec(
                            old(progress)@,
                            TaskStatusView::Merging,
                            old(self).task_id@,
                        )
                        &&& a matches RunAction::Merge { temp_dir, output_path, segment_count }
                            && temp_dir == old(self).temp_dir && output_path@ == out
                            && segment_count == old(self).total_segments
                    }
                },
                (RunPhase::Merging, RunEvent::Merged) => {
                    &&& final(self).phase == RunPhase::Finished
                    &&& final(self).output_path == old(self).output_path
                    &&& final(progress)@ == (DownloadProgressView {
                        status: TaskStatusView::Completed,
                        output_path: Some(old(self).output_path@),
                        ..old(progress)@
                    })
                    &&& a matches RunAction::Complete { temp_dir, output_path } && temp_dir
                        == old(self).temp_dir && output_path == old(self).output_path
                },
                _ => {
                    &&& *final(self) == *old(self)
                    &&& final(progress)@ == old(progress)@
                    &&& a is Ignore
                },
            },
    {
        match (self.phase, event) {
            (RunPhase::Start, RunEvent::Started) => {
                progress.set_status(TaskStatus::Parsing, self.task_id.as_str());
                self.phase = RunPhase::Parsing;
                RunAction::FetchPlaylist
            },
            (
                RunPhase::Parsing,
                RunEvent::PlaylistFetched { segment_count, raw_content, total_duration_bits },
            ) => {
                let id = compute_task_id(
                    self.config.temp_name_strategy,
                    self.url.as_str(),
                    raw_content.as_str(),
                );
                let dir = join_path(self.config.temp_dir.as_str(), id.as_str());
                progress.task_id = id.clone();
                progress.estimated_total_duration_bits = Some(total_duration_bits);
                self.task_id = id;
                self.temp_dir = dir.clone();
                self.total_segments = segment_count;
                self.phase = RunPhase::PreparingTemp;
                RunAction::CreateTempDir(dir)
            },
            (RunPhase::PreparingTemp, RunEvent::TempDirCreated { cancelled }) => {
                if cancelled {
                    progress.set_status(TaskStatus::Cancelled, self.task_id.as_str());
                    self.phase = RunPhase::Finished;
                    RunAction::StopCancelled { remove_temp_dir: Some(self.temp_dir.clone()) }
                } else {
                    progress.set_status(
                        TaskStatus::Downloading { completed: 0, total: self.total_segments },
                        self.task_id.as_str(),
                    );
                    if self.total_segments > 0 {
                        self.phase = RunPhase::ProbingFirst;
                        RunAction::PrepareFirstSegment(segment_path(self.temp_dir.as_str(), 0))
                    } else {
                        self.phase = RunPhase::Scanning;
                        RunAction::ScanExisting(Vec::new())
                    }
                }
            },
            (RunPhase::ProbingFirst, RunEvent::FirstSegmentReady { size }) => {
                if let Some(s) = size {
                    progress.estimated_total_size = Some(
                        s.wrapping_mul(self.total_segments as u64),
                    );
                }
                self.phase = RunPhase::Scanning;
                RunAction::ScanExisting(segment_paths(self.temp_dir.as_str(), self.total_segments))
            },
            (RunPhase::ProbingFirst, RunEvent::FirstSegmentFailed { attempt, cancelled }) => {
                let delay = if cancelled {
                    None
                } else {
                    retry_delay_ms(attempt, self.config.max_retries)
                };
                match delay {
                    Some(delay_ms) => RunAction::RetryFirstSegment {
                        path: segment_path(self.temp_dir.as_str(), 0),
                        delay_ms,
                    },
                    None => {
                        self.phase = RunPhase::Finished;
                        RunAction::StopFirstSegmentFailed
                    },
                }
            },
            (RunPhase::Scanning, RunEvent::ExistingScanned { present }) => {
                let n = count_present(&present);
                proof {
                    lemma_count_true_le(present@);
                }
                if n > 0 {
                    progress.set_status(
                        TaskStatus::Downloading { completed: n, total: self.total_segments },
                        self.task_id.as_str(),
                    );
                }
                self.initial_completed = n;
                self.phase = RunPhase::Downloading;
                RunAction::DownloadSegments {
                    temp_dir: self.temp_dir.clone(),
                    initial_completed: n,
                }
            },
            (RunPhase::Downloading, RunEvent::SegmentsFinished { cancelled, has_error }) => {
                if cancelled {
                    progress.set_status(TaskStatus::Cancelled, self.task_id.as_str());
                    self.phase = RunPhase::Finished;
                    RunAction::StopCancelled { remove_temp_dir: None }
                } else if has_error {
                    self.phase = RunPhase::Finished;
                    proof {
                        reveal_strlit("部分分片下载失败");
                    }
                    RunAction::StopRetriesExhausted("部分分片下载失败".to_owned())
                } else {
                    progress.set_status(TaskStatus::Merging, self.task_id.as_str());
                    let out = join_path(
                        self.config.save_path.as_str(),
                        self.output_filename.as_str(),
                    );
                    self.output_path = out.clone();
                    self.phase = RunPhase::Merging;
                    RunAction::Merge {
                        temp_dir: self.temp_dir.clone(),
                        output_path: out,
                        segment_count: self.total_segments,
                    }
                }
            },
            (RunPhase::Merging, RunEvent::Merged) => {
                progress.status = TaskStatus::Completed;
                progress.output_path = Some(self.output_path.clone());
                self.phase = RunPhase::Finished;
                RunAction::Complete {
                    temp_dir: self.temp_dir.clone(),
                    output_path: self.output_path.clone(),
                }
            },
            _ => RunAction::Ignore,
        }
    }
}

// ---------------------------------------------------------------------------
// Segment workers
// ---------------------------------------------------------------------------

/// Whether a segment worker downloads its segment at all: not once the task
/// is cancelled or another segment has failed for good, and not when the
/// segment is already on disk.
pub fn segment_needs_download(cancelled: bool, has_error: bool, already_present: bool) -> (b: bool)
    ensures
        b == (!cancelled && !has_error && !already_present),
{
    !(cancelled || has_error) && !already_present
}

/// After failed attempt `attempt` (counted from 0) of `max_retries + 1`,
/// how long to wait before the next one: 500 ms times the attempt number,
/// or `None` when no attempt is left.
pub fn retry_delay_ms(attempt: u32, max_retries: u32) -> (r: Option<u64>)
    ensures
        attempt < max_retries ==> r == Some((500 * (attempt + 1)) as u64),
        attempt >= max_retries ==> r is None,
{
    if attempt < max_retries {
        Some(500 * (attempt as u64 + 1))
    } else {
        None
    }
}

/// The estimated size of a whole download from its first segment, wrapping
/// at 2^64 as `u64` multiplication does in a release build.
pub fn estimate_total_size(first_size: u64, total_segments: usize) -> (r: u64)
    ensures
        r == ((first_size * total_segments) % 0x1_0000_0000_0000_0000) as u64,
{
    first_size.wrapping_mul(total_segments as u64)
}

// ---------------------------------------------------------------------------
// Requests and segment data
// ---------------------------------------------------------------------------

#[verifier::external_type_specification]
#[verifier::external_body]
pub struct ExHeaderValue(reqwest::header::HeaderValue);

/// The `Host` header for a request to `url`: the URL's host, with the port
/// when the URL gives a non-default one; `None` when the URL does not parse
/// or has no host.
pub open spec fn host_header_spec(url: Seq<char>) -> Option<Seq<char>> {
    match url_parse(url) {
        Ok(a) => match a.host {
            Some(h) => Some(
                match a.port {
                    Some(p) => h + seq![':'] + dec_digits(p as nat),
                    None => h,
                },
            ),
            None => None,
        },
        Err(_) => None,
    }
}

/// The text of the `Host` header for a request to `url`.
pub fn host_header_text(url: &str) -> (r: Option<String>)
    ensures
        r matches Some(t) ==> host_header_spec(url@) == Some(t@),
        r is None ==> host_header_spec(url@) is None,
{
    match parse_url(url) {
        Ok(a) => match a.host {
            Some(h) => match a.port {
                Some(p) => {
                    let mut out: Vec<char> = Vec::new();
                    push_str(&mut out, h.as_str());
                    out.push(':');
                    push_decimal(&mut out, p as u64);
                    Some(string_from_chars(out.as_slice()))
                },
                None => Some(h),
            },
            None => None,
        },
        Err(_) => None,
    }
}

/// The characters an HTTP header value may hold: tab, and everything from
/// space up except DEL (non-ASCII text is sent as UTF-8 bytes, all allowed).
pub open spec fn header_value_ok(s: Seq<char>) -> bool {
    forall|i: int|
        0 <= i < s.len() ==> (#[trigger] s[i] == '\t' || ((s[i] as u32) >= 32 && (s[i] as u32) != 127))
}

/// The header value `HeaderValue::from_str` makes of a text: its UTF-8
/// bytes, as a value of the `http` crate.
pub uninterp spec fn header_value_of(text: Seq<char>) -> reqwest::header::HeaderValue;

/// `HeaderValue::from_str`, which accepts exactly the texts whose bytes are
/// all tab or at least 32 and not 127, and then holds those bytes.
#[verifier::external_body]
pub(crate) fn header_value_from_str(s: &str) -> (r: Option<reqwest::header::HeaderValue>)
    ensures
        r is Some <==> header_value_ok(s@),
        r matches Some(h) ==> h == header_value_of(s@),
{
    reqwest::header::HeaderValue::from_str(s).ok()
}

/// The `Host` header value for a request to `url`, when there is a host and
/// it makes a valid header value: the value made of the host header text.
pub fn extract_host_header(url: &str) -> (r: Option<reqwest::header::HeaderValue>)
    ensures
        r is Some <==> (host_header_spec(url@) matches Some(t) && header_value_ok(t)),
        r matches Some(h) ==> (host_header_spec(url@) matches Some(t) && h == header_value_of(t)),
{
    match host_header_text(url) {
        Some(t) => header_value_from_str(t.as_str()),
        None => None,
    }
}

/// The bytes written for a downloaded segment: the data as fetched, or,
/// for an encrypted segment, its decryption with the key and the segment's
/// IV (an encrypted segment without an IV is an error).
pub open spec fn segment_plaintext_spec(data: Seq<u8>, encrypted: bool, iv: Option<Seq<u8>>, key: Seq<u8>) -> Result<Seq<u8>, CryptoErrorView> {
    if !encrypted {
        Ok(data)
    } else {
        match iv {
            None => Err(CryptoErrorView::InvalidIvLength),
            Some(v) => decrypt_aes128_spec(data, key, v),
        }
    }
}

/// Decrypts a downloaded segment when it is encrypted; `key` is the key
/// fetched from the segment's key URL (unused for a plain segment).
pub fn decode_segment(data: Vec<u8>, key_info: &Option<KeyInfo>, key: &[u8]) -> (r: Result<Vec<u8>, CryptoError>)
    ensures
        r matches Ok(p) ==> segment_plaintext_spec(
            data@,
            key_info is Some,
            match key_info {
                Some(k) => crate::parser::opt_bytes(k.iv),
                None => None,
            },
            key@,
        ) == Ok::<Seq<u8>, CryptoErrorView>(p@),
        r matches Err(e) ==> segment_plaintext_spec(
            data@,
            key_info is Some,
            match key_info {
                Some(k) => crate::parser::opt_bytes(k.iv),
                None => None,
            },
            key@,
        ) == Err::<Seq<u8>, CryptoErrorView>(e@),
{
    match key_info {
        None => Ok(data),
        Some(k) => match &k.iv {
            None => Err(CryptoError::InvalidIvLength),
            Some(iv) => decrypt_aes128(data.as_slice(), key, iv.as_slice()),
        },
    }
}

/// The text before the first `c`, when `c` first occurs right after `u`.
proof fn lemma_before_separator(u: Seq<char>, c: char, rest: Seq<char>)
    requires
        forall|k: int| 0 <= k < u.len() ==> u[k] != c,
    ensures
        before_char(u + seq![c] + rest, c) == u,
        before_char(u, c) == u,
{
    let s = u + seq![c] + rest;
    assert(crate::text::first_index_of(s, c, u.len() as int));
    crate::text::lemma_find_char_first(s, c, u.len() as int);
    assert(s.take(u.len() as int) =~= u);
    crate::text::lemma_find_char_none(u, c);
}

/// With file-name naming, the query and the fragment of the playlist URL
/// play no part: a URL `u` (holding neither `?` nor `#`) followed by
/// `?query` or `#fragment` gives the task id of `u`, whatever the playlist
/// text.
pub proof fn law_filename_id_ignores_query(u: Seq<char>, tail: Seq<char>, c1: Seq<char>, c2: Seq<char>)
    requires
        forall|k: int| 0 <= k < u.len() ==> u[k] != '?' && u[k] != '#',
    ensures
        task_id_spec(TempNameStrategy::Filename, u + seq!['?'] + tail, c1) == task_id_spec(
            TempNameStrategy::Filename,
            u,
            c2,
        ),
        task_id_spec(TempNameStrategy::Filename, u + seq!['#'] + tail, c1) == task_id_spec(
            TempNameStrategy::Filename,
            u,
            c2,
        ),
{
    lemma_before_separator(u, '?', tail);
    lemma_before_separator(u, '#', tail);
    let v = u + seq!['#'] + tail;
    match crate::text::find_char(v, '?') {
        Some(i) => {
            crate::text::lemma_find_char_some(v, '?');
            assert(i > u.len()) by {
                if i < u.len() {
                    assert(v[i] == u[i]);
                }
            }
            let r = tail.take(i - u.len() - 1);
            assert(before_char(v, '?') =~= u + seq!['#'] + r);
            lemma_before_separator(u, '#', r);
        },
        None => {},
    }
}

/// With content-hash naming, the task id depends on the playlist text
/// alone: the same playlist, fetched from any URL, resumes in the same
/// temporary directory.
pub proof fn law_content_hash_id_ignores_url(u1: Seq<char>, u2: Seq<char>, content: Seq<char>)
    ensures
        task_id_spec(TempNameStrategy::ContentHash, u1, content) == task_id_spec(
            TempNameStrategy::ContentHash,
            u2,
            content,
        ),
{
}

} // verus!
