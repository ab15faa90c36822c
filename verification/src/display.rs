//! What the application shows of a batch and of a download: the summary
//! line over the task list, the title of each row, durations as clock text,
//! and the unit in which a byte count is shown.
use vstd::prelude::*;
use crate::queue::{BatchTaskItem, BatchTaskStatus, batch_status_label};
use crate::text::{dec_digits, pad_zero, push_decimal, push_decimal_padded, push_str, string_from_chars};

verus! {

broadcast use vstd::string::group_string_axioms;

// ---------------------------------------------------------------------------
// The summary of a batch
// ---------------------------------------------------------------------------

/// The statuses of the tasks, in order.
pub open spec fn statuses(tasks: Seq<BatchTaskItem>) -> Seq<BatchTaskStatus> {
    tasks.map_values(|t: BatchTaskItem| t.status)
}

/// How many of `s` equal `st`.
pub open spec fn count_status(s: Seq<BatchTaskStatus>, st: BatchTaskStatus) -> nat
    decreases s.len(),
{
    if s.len() == 0 {
        0
    } else {
        count_status(s.drop_last(), st) + if s.last() == st {
            1nat
        } else {
            0nat
        }
    }
}

/// The counts shown over the task list.
#[derive(Debug, Clone, Copy, PartialEq, Eq, Structural)]
pub struct TaskSummary {
    pub total: usize,
    /// Pending or running.
    pub remaining: usize,
    pub completed: usize,
    pub skipped: usize,
    pub failed: usize,
}

pub open spec fn summary_spec(s: Seq<BatchTaskStatus>) -> TaskSummary {
    TaskSummary {
        total: s.len() as usize,
        remaining: (count_status(s, BatchTaskStatus::Pending) + count_status(
            s,
            BatchTaskStatus::Running,
        )) as usize,
        completed: count_status(s, BatchTaskStatus::Completed) as usize,
        skipped: count_status(s, BatchTaskStatus::Skipped) as usize,
        failed: count_status(s, BatchTaskStatus::Failed) as usize,
    }
}

/// The six counts of a sequence of statuses add up to its length.
proof fn lemma_counts_partition(s: Seq<BatchTaskStatus>)
    ensures
        count_status(s, BatchTaskStatus::Pending) + count_status(s, BatchTaskStatus::Running)
            + count_status(s, BatchTaskStatus::Completed) + count_status(
            s,
            BatchTaskStatus::Skipped,
        ) + count_status(s, BatchTaskStatus::Failed) + count_status(
            s,
            BatchTaskStatus::Cancelled,
        ) == s.len(),
    decreases s.len(),
{
    if s.len() > 0 {
        lemma_counts_partition(s.drop_last());
    }
}

/// Every task of a batch is counted once: as remaining, completed, skipped
/// or failed, or else it was cancelled.
pub proof fn law_summary_counts_every_task(s: Seq<BatchTaskStatus>)
    requires
        s.len() <= usize::MAX,
    ensures
        summary_spec(s).remaining + summary_spec(s).completed + summary_spec(s).skipped
            + summary_spec(s).failed + count_status(s, BatchTaskStatus::Cancelled)
            == summary_spec(s).total,
{
    lemma_counts_partition(s);
}

/// Counts the tasks of each kind (`render_task_summary`).
pub fn task_summary(tasks: &Vec<BatchTaskItem>) -> (r: TaskSummary)
    ensures
        r == summary_spec(statuses(tasks@)),
{
    let ghost all = statuses(tasks@);
    let mut pending: usize = 0;
    let mut running: usize = 0;
    let mut completed: usize = 0;
    let mut skipped: usize = 0;
    let mut failed: usize = 0;
    let mut cancelled: usize = 0;
    let mut i: usize = 0;
    while i < tasks.len()
        invariant
            i <= tasks.len(),
            all == statuses(tasks@),
            pending == count_status(all.take(i as int), BatchTaskStatus::Pending),
            running == count_status(all.take(i as int), BatchTaskStatus::Running),
            completed == count_status(all.take(i as int), BatchTaskStatus::Completed),
            skipped == count_status(all.take(i as int), BatchTaskStatus::Skipped),
            failed == count_status(all.take(i as int), BatchTaskStatus::Failed),
            cancelled == count_status(all.take(i as int), BatchTaskStatus::Cancelled),
        decreases tasks.len() - i,
    {
        proof {
            assert(all.take(i + 1).drop_last() =~= all.take(i as int));
            lemma_counts_partition(all.take(i as int));
        }
        match tasks[i].status {
            BatchTaskStatus::Pending => pending = pending + 1,
            BatchTaskStatus::Running => running = running + 1,
            BatchTaskStatus::Completed => completed = completed + 1,
            BatchTaskStatus::Skipped => skipped = skipped + 1,
            BatchTaskStatus::Failed => failed = failed + 1,
            BatchTaskStatus::Cancelled => cancelled = cancelled + 1,
        }
        i = i + 1;
    }
    proof {
        assert(all.take(i as int) =~= all);
        lemma_counts_partition(all);
    }
    TaskSummary {
        total: tasks.len(),
        remaining: pending + running,
        completed,
        skipped,
        failed,
    }
}

pub open spec fn summary_text_spec(s: TaskSummary) -> Seq<char> {
    "任务总数: "@ + dec_digits(s.total as nat) + "  剩余: "@ + dec_digits(s.remaining as nat)
        + "  已完成: "@ + dec_digits(s.completed as nat) + "  已跳过: "@ + dec_digits(
        s.skipped as nat,
    ) + "  失败: "@ + dec_digits(s.failed as nat)
}

/// The summary line over the task list.
pub fn summary_text(s: TaskSummary) -> (r: String)
    ensures
        r@ == summary_text_spec(s),
{
    let mut out: Vec<char> = Vec::new();
    push_str(&mut out, "任务总数: ");
    push_decimal(&mut out, s.total as u64);
    push_str(&mut out, "  剩余: ");
    push_decimal(&mut out, s.remaining as u64);
    push_str(&mut out, "  已完成: ");
    push_decimal(&mut out, s.completed as u64);
    push_str(&mut out, "  已跳过: ");
    push_decimal(&mut out, s.skipped as u64);
    push_str(&mut out, "  失败: ");
    push_decimal(&mut out, s.failed as u64);
    proof {
        assert(out@ =~= summary_text_spec(s));
    }
    string_from_chars(out.as_slice())
}

/// The title of row `index` (counted from zero) of the task list:
/// `#NN [status] file name`, numbered from one.
pub open spec fn task_row_spec(index: nat, status: BatchTaskStatus, name: Seq<char>) -> Seq<char> {
    "#"@ + pad_zero(dec_digits(index + 1), 2) + " ["@ + batch_status_label(status) + "] "@ + name
}

pub fn task_row_title(index: usize, item: &BatchTaskItem) -> (r: String)
    requires
        index < usize::MAX,
    ensures
        r@ == task_row_spec(index as nat, item.status, item.output_filename@),
{
    let mut out: Vec<char> = Vec::new();
    push_str(&mut out, "#");
    push_decimal_padded(&mut out, (index + 1) as u64, 2);
    push_str(&mut out, " [");
    push_str(&mut out, item.status.label());
    push_str(&mut out, "] ");
    push_str(&mut out, item.output_filename.as_str());
    proof {
        assert(out@ =~= task_row_spec(index as nat, item.status, item.output_filename@));
    }
    string_from_chars(out.as_slice())
}

// ---------------------------------------------------------------------------
// Durations and sizes
// ---------------------------------------------------------------------------

/// `MM:SS`, or `HH:MM:SS` from one hour on (the hours are not wrapped).
pub open spec fn duration_text_spec(secs: u64) -> Seq<char> {
    let h = secs / 3600;
    let m = (secs % 3600) / 60;
    let s = secs % 60;
    if h > 0 {
        pad_zero(dec_digits(h as nat), 2) + seq![':'] + pad_zero(dec_digits(m as nat), 2) + seq![':']
            + pad_zero(dec_digits(s as nat), 2)
    } else {
        pad_zero(dec_digits(m as nat), 2) + seq![':'] + pad_zero(dec_digits(s as nat), 2)
    }
}

/// A duration in whole seconds as shown next to a download
/// (`format_duration`, after the seconds were truncated to an integer).
pub fn duration_text(secs: u64) -> (r: String)
    ensures
        r@ == duration_text_spec(secs),
{
    let h = secs / 3600;
    let m = (secs % 3600) / 60;
    let s = secs % 60;
    let mut out: Vec<char> = Vec::new();
    if h > 0 {
        push_decimal_padded(&mut out, h, 2);
        out.push(':');
    }
    push_decimal_padded(&mut out, m, 2);
    out.push(':');
    push_decimal_padded(&mut out, s, 2);
    proof {
        assert(out@ =~= duration_text_spec(secs));
    }
    string_from_chars(out.as_slice())
}

/// `1024` to the power `k`.
pub open spec fn pow1024(k: nat) -> nat
    decreases k,
{
    if k == 0 {
        1
    } else {
        1024 * pow1024((k - 1) as nat)
    }
}

/// The largest unit, up to TB, of which `bytes` holds at least one.
pub open spec fn byte_unit_spec(bytes: u64, k: nat) -> bool {
    &&& k <= 4
    &&& bytes >= pow1024(k)
    &&& (k == 4 || bytes < pow1024(k + 1))
}

/// Which unit a byte count is shown in: 0 for B, 1 for KB, up to 4 for TB
/// (`format_bytes` divides by 1024 while the value is at least 1024 and a
/// larger unit is left).
pub fn byte_unit(bytes: u64) -> (r: usize)
    ensures
        r <= 4,
        r > 0 ==> bytes >= pow1024(r as nat),
        r < 4 ==> bytes < pow1024(r as nat + 1),
{
    let mut k: usize = 0;
    let mut limit: u64 = 1024;
    proof {
        reveal_with_fuel(pow1024, 2);
    }
    while k < 4 && bytes >= limit
        invariant
            k <= 4,
            k < 4 ==> limit == pow1024(k as nat + 1),
            k > 0 ==> bytes >= pow1024(k as nat),
        decreases 4 - k,
    {
        k = k + 1;
        proof {
            reveal_with_fuel(pow1024, 6);
        }
        if k < 4 {
            limit = limit * 1024;
        }
    }
    k
}

/// The name of unit `k`.
pub open spec fn byte_unit_label_spec(k: nat) -> Seq<char> {
    if k == 0 {
        "B"@
    } else if k == 1 {
        "KB"@
    } else if k == 2 {
        "MB"@
    } else if k == 3 {
        "GB"@
    } else {
        "TB"@
    }
}

pub fn byte_unit_label(k: usize) -> (r: &'static str)
    requires
        k <= 4,
    ensures
        r@ == byte_unit_label_spec(k as nat),
{
    if k == 0 {
        "B"
    } else if k == 1 {
        "KB"
    } else if k == 2 {
        "MB"
    } else if k == 3 {
        "GB"
    } else {
        "TB"
    }
}

/// A byte count below 1 KB, shown whole: `N B`.
pub open spec fn small_bytes_text_spec(bytes: u64) -> Seq<char> {
    dec_digits(bytes as nat) + " B"@
}

pub fn small_bytes_text(bytes: u64) -> (r: String)
    ensures
        r@ == small_bytes_text_spec(bytes),
{
    let mut out: Vec<char> = Vec::new();
    push_decimal(&mut out, bytes);
    push_str(&mut out, " B");
    string_from_chars(out.as_slice())
}

} // verus!
