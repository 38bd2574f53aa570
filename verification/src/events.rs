//! Task logs and the diagnostic log: event payloads, how much of a task's
//! log and of the task list is kept, and the diagnostic log switch.

use vstd::prelude::*;
use crate::text::{join, join_exec, lines, lines_exec, owned, string_of, views};

verus! {

/// A task log line as sent to the user interface.
#[derive(Clone, Debug)]
pub struct TaskLogPayload {
    pub task_id: String,
    pub level: String,
    pub message: String,
    pub ts: String,
}

/// A task state change as sent to the user interface.
#[derive(Clone, Debug)]
pub struct TaskStatePayload {
    pub task_id: String,
    pub state: String,
    pub message: String,
}

/// Number of tasks whose state is kept.
pub const TASK_KEEP: usize = 50;
/// Lines a task log may reach before its oldest 100 are dropped.
pub const TASK_LOG_MAX: usize = 500;

/// A task log line: `[<time>][<level>] <message>`.
pub fn task_log_line(time: &str, level: &str, message: &str) -> (r: String)
    ensures
        r@ == "["@ + time@ + "]["@ + level@ + "] "@ + message@,
{
    let mut s = owned("[");
    s.append(time);
    s.append("][");
    s.append(level);
    s.append("] ");
    s.append(message);
    s
}

/// Appends a line to a task log; past 500 lines the oldest 100 are dropped.
pub fn push_task_log(logs: &mut Vec<String>, line: String)
    ensures
        ({
            let all = old(logs)@.push(line);
            final(logs)@ == if all.len() > 500 { all.skip(100) } else { all }
        }),
{
    let ghost all = logs@.push(line);
    logs.push(line);
    if logs.len() > TASK_LOG_MAX {
        let tail = logs.split_off(100);
        *logs = tail;
    }
    assert(logs@ =~= if all.len() > 500 { all.skip(100) } else { all });
}

/// Registers a task id; once more than 50 are kept the oldest are
/// dropped. Returns the dropped ids, oldest first.
pub fn register_task(order: &mut Vec<String>, task_id: &str) -> (dropped: Vec<String>)
    ensures
        ({
            let all = views(old(order)@).push(task_id@);
            let cut = if all.len() > 50 { all.len() - 50 } else { 0 };
            &&& views(final(order)@) == all.skip(cut)
            &&& views(dropped@) == all.take(cut)
        }),
{
    let ghost all = views(order@).push(task_id@);
    order.push(owned(task_id));
    assert(views(order@) =~= all);
    if order.len() > TASK_KEEP {
        let cut = order.len() - TASK_KEEP;
        let mut dropped = order.split_off(cut);
        std::mem::swap(order, &mut dropped);
        assert(views(order@) =~= all.skip(cut as int));
        assert(views(dropped@) =~= all.take(cut as int));
        dropped
    } else {
        assert(all.skip(0) =~= all);
        assert(all.take(0) =~= Seq::<Seq<char>>::empty());
        let none: Vec<String> = Vec::new();
        assert(views(none@) =~= all.take(0));
        none
    }
}

/// The last `n` lines of a task log, in order.
pub fn log_tail(logs: &Vec<String>, n: usize) -> (r: Vec<String>)
    ensures
        r@ == if logs@.len() > n { logs@.skip(logs@.len() - n) } else { logs@ },
{
    let start = if logs.len() > n { logs.len() - n } else { 0 };
    let mut out: Vec<String> = Vec::new();
    let mut i: usize = start;
    while i < logs.len()
        invariant
            start <= i <= logs@.len(),
            out@ == logs@.subrange(start as int, i as int),
        decreases logs.len() - i,
    {
        out.push(logs[i].clone());
        i = i + 1;
        assert(out@ =~= logs@.subrange(start as int, i as int));
    }
    assert(out@ =~= if logs@.len() > n { logs@.skip(logs@.len() - n) } else { logs@ });
    out
}

// ---------------------------------------------------------------------
// Diagnostic log
// ---------------------------------------------------------------------

/// Whether diagnostic lines are written (off unless configured).
pub struct LogSwitch {
    pub enabled: bool,
}

/// Sets the switch from the configuration at start-up.
pub fn init(switch: &mut LogSwitch, enabled: bool)
    ensures
        final(switch).enabled == enabled,
{
    switch.enabled = enabled;
}

/// Turns diagnostic logging on or off while running.
pub fn set_enabled(switch: &mut LogSwitch, enabled: bool)
    ensures
        final(switch).enabled == enabled,
{
    switch.enabled = enabled;
}

pub fn is_enabled(switch: &LogSwitch) -> (r: bool)
    ensures
        r == switch.enabled,
{
    switch.enabled
}

/// File name of a day's log: `app-<yyyyMMdd>.log`.
pub fn log_file_name(date: &str) -> (r: String)
    ensures
        r@ == "app-"@ + date@ + ".log"@,
{
    let mut s = owned("app-");
    s.append(date);
    s.append(".log");
    s
}

/// A diagnostic log entry: `[<timestamp>] <line>` and a line break.
pub fn log_entry(timestamp: &str, line: &str) -> (r: String)
    ensures
        r@ == "["@ + timestamp@ + "] "@ + line@ + "\n"@,
{
    let mut s = owned("[");
    s.append(timestamp);
    s.append("] ");
    s.append(line);
    s.append("\n");
    s
}

/// The end of a log: the whole text when it has at most `max_lines`
/// lines, otherwise its last `max_lines` lines joined by line breaks.
pub open spec fn spec_recent_lines(content: Seq<char>, max_lines: nat) -> Seq<char> {
    let all = lines(content);
    if all.len() <= max_lines {
        content
    } else {
        join(all.skip(all.len() - max_lines), "\n"@)
    }
}

pub fn recent_lines(content: &str, max_lines: usize) -> (r: String)
    ensures
        r@ == spec_recent_lines(content@, max_lines as nat),
{
    let v = crate::text::chars_of(content);
    let all = lines_exec(v.as_slice());
    if all.len() <= max_lines {
        return owned(content);
    }
    let start = all.len() - max_lines;
    let mut tail: Vec<Vec<char>> = Vec::new();
    let mut i: usize = start;
    while i < all.len()
        invariant
            start <= i <= all@.len(),
            crate::text::views_of_vecs(tail@) == crate::text::views_of_vecs(all@).subrange(start as int, i as int),
        decreases all.len() - i,
    {
        let ghost before = tail@;
        let piece = crate::text::copy_chars(all[i].as_slice());
        tail.push(piece);
        assert(crate::text::views_of_vecs(tail@) =~= crate::text::views_of_vecs(before).push(all@[i as int]@));
        i = i + 1;
        assert(crate::text::views_of_vecs(tail@) =~= crate::text::views_of_vecs(all@).subrange(start as int, i as int));
    }
    let nl = crate::text::chars_of("\n");
    let joined = join_exec(&tail, nl.as_slice());
    proof {
        reveal_strlit("\n");
        assert(crate::text::views_of_vecs(all@).subrange(start as int, all@.len() as int)
            =~= lines(content@).skip(lines(content@).len() - max_lines));
    }
    string_of(joined.as_slice())
}

// ---------------------------------------------------------------------
// Finishing a task
// ---------------------------------------------------------------------

/// How a finished task is reported: its final state, message and the log
/// level of that message.
pub struct TaskOutcome {
    pub state: &'static str,
    pub message: String,
    pub level: &'static str,
}

/// A task that succeeded is "success"; one that failed after the user
/// cancelled it is "cancelled"; any other failure is "failed" with its error.
pub fn task_outcome(error: Option<&str>, cancelled: bool) -> (r: TaskOutcome)
    ensures
        error is None ==> r.state@ == "success"@ && r.message@ == "任务完成"@ && r.level@ == "success"@,
        error is Some && cancelled ==> r.state@ == "cancelled"@ && r.message@ == "任务已取消"@ && r.level@ == "warn"@,
        match error {
            Some(e) => !cancelled ==> r.state@ == "failed"@ && r.message@ == e@ && r.level@ == "error"@,
            None => true,
        },
{
    match error {
        None => TaskOutcome { state: "success", message: owned("任务完成"), level: "success" },
        Some(e) => if cancelled {
            TaskOutcome { state: "cancelled", message: owned("任务已取消"), level: "warn" }
        } else {
            TaskOutcome { state: "failed", message: owned(e), level: "error" }
        },
    }
}

/// What a connection test reports.
pub fn probe_report(connect_millis: u64, detected: Option<&str>, raw_output: &str) -> (r: String)
    ensures
        r@ == "连接成功，耗时 "@ + crate::text::decimal(connect_millis as nat) + " ms\n探测系统: "@
            + match detected { Some(d) => d@, None => "未知"@ } + "\n"@ + raw_output@,
{
    let mut s = owned("连接成功，耗时 ");
    crate::text::push_decimal(&mut s, connect_millis);
    s.append(" ms\n探测系统: ");
    match detected {
        Some(d) => s.append(d),
        None => s.append("未知"),
    }
    s.append("\n");
    s.append(raw_output);
    s
}

/// The diagnostic line written when an SFTP operation fails.
pub fn sftp_error_log_line(operation: &str, server_id: &str, path: &str, message: &str) -> (r: String)
    ensures
        r@ == "sftp "@ + operation@ + " 错误 ["@ + server_id@ + ":"@ + path@ + "]: "@ + message@,
{
    let mut s = owned("sftp ");
    s.append(operation);
    s.append(" 错误 [");
    s.append(server_id);
    s.append(":");
    s.append(path);
    s.append("]: ");
    s.append(message);
    s
}

} // verus!
