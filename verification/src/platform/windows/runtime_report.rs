//! What the input-mirroring runtime reports: the tally of one mirrored message over the
//! targets, and the text, key, level and cooldown of each log line it writes.
use vstd::prelude::*;
use crate::models::{DispatchMode, LogLevel};
use crate::platform::windows::{format_handle, id_of_handle};
use crate::platform::windows::sync_runtime::{
    button_down_message, button_up_message, is_click_message, WM_LBUTTONDOWN, WM_LBUTTONUP,
    WM_MBUTTONDOWN, WM_MBUTTONUP, WM_MOUSEHWHEEL, WM_MOUSEMOVE, WM_MOUSEWHEEL, WM_RBUTTONDOWN,
    WM_RBUTTONUP, GAME_MODE_REPLAY_WATCHDOG_MS, watchdog_tripped,
};
use crate::text::{decimal_digits, push_decimal, str_eq};

verus! {

/// Least time between two summary lines of one message kind, in milliseconds.
pub const SUMMARY_LOG_COOLDOWN_MS: u128 = 3_000;
/// Least time between two identical dispatch issue lines, in milliseconds.
pub const ISSUE_LOG_COOLDOWN_MS: u128 = 5_000;
/// Least time between two identical target removal lines, in milliseconds.
pub const TARGET_REMOVAL_LOG_COOLDOWN_MS: u128 = 15_000;
/// Least time between two identical click trace lines, in milliseconds.
pub const CLICK_TRACE_LOG_COOLDOWN_MS: u128 = 10_000;
/// Least time between two lines about a vanished primary window, in milliseconds.
pub const PRIMARY_INVALID_LOG_COOLDOWN_MS: u128 = 10_000;
/// Least time between two circuit breaker lines of one session, in milliseconds.
pub const CIRCUIT_BREAKER_LOG_COOLDOWN_MS: u128 = 1_000;

/// The name of a mouse message in log text.
pub open spec fn mouse_message_text(message: u32) -> Seq<char> {
    if message == WM_MOUSEMOVE {
        "mouse_move"@
    } else if message == WM_LBUTTONDOWN {
        "left_down"@
    } else if message == WM_LBUTTONUP {
        "left_up"@
    } else if message == WM_RBUTTONDOWN {
        "right_down"@
    } else if message == WM_RBUTTONUP {
        "right_up"@
    } else if message == WM_MBUTTONDOWN {
        "middle_down"@
    } else if message == WM_MBUTTONUP {
        "middle_up"@
    } else if message == WM_MOUSEWHEEL {
        "wheel"@
    } else if message == WM_MOUSEHWHEEL {
        "hwheel"@
    } else {
        "unknown_mouse"@
    }
}

/// The name of a mouse message in log text.
pub fn mouse_message_name(message: u32) -> (name: &'static str)
    ensures
        name@ == mouse_message_text(message),
{
    if message == WM_MOUSEMOVE {
        "mouse_move"
    } else if message == WM_LBUTTONDOWN {
        "left_down"
    } else if message == WM_LBUTTONUP {
        "left_up"
    } else if message == WM_RBUTTONDOWN {
        "right_down"
    } else if message == WM_RBUTTONUP {
        "right_up"
    } else if message == WM_MBUTTONDOWN {
        "middle_down"
    } else if message == WM_MBUTTONUP {
        "middle_up"
    } else if message == WM_MOUSEWHEEL {
        "wheel"
    } else if message == WM_MOUSEHWHEEL {
        "hwheel"
    } else {
        "unknown_mouse"
    }
}

/// The name of a dispatch mode in log text.
pub open spec fn dispatch_mode_text(mode: DispatchMode) -> Seq<char> {
    match mode {
        DispatchMode::WindowMessage => "window_message"@,
        DispatchMode::SendInput => "send_input"@,
        DispatchMode::Auto => "auto"@,
    }
}

/// The name of a dispatch mode in log text.
pub fn dispatch_mode_name(mode: DispatchMode) -> (name: &'static str)
    ensures
        name@ == dispatch_mode_text(mode),
{
    match mode {
        DispatchMode::WindowMessage => "window_message",
        DispatchMode::SendInput => "send_input",
        DispatchMode::Auto => "auto",
    }
}

/// A log line that is written only when no line with the same key was written within the
/// cooldown.
#[derive(Debug)]
pub struct ThrottledLog {
    pub level: LogLevel,
    pub key: String,
    pub message: String,
    pub cooldown_ms: u128,
}

/// Abstract value of a `ThrottledLog`.
pub struct ThrottledLogView {
    pub level: LogLevel,
    pub key: Seq<char>,
    pub message: Seq<char>,
    pub cooldown_ms: u128,
}

impl View for ThrottledLog {
    type V = ThrottledLogView;

    open spec fn view(&self) -> ThrottledLogView {
        ThrottledLogView {
            level: self.level,
            key: self.key@,
            message: self.message@,
            cooldown_ms: self.cooldown_ms,
        }
    }
}

/// The tally of one mirrored message over the targets.
#[derive(Clone, Copy, Debug, PartialEq, Eq, Structural)]
pub struct DispatchSummary {
    pub attempted: usize,
    pub succeeded: usize,
    pub failed: usize,
    /// Targets reached, or tried, through window messages.
    pub window_message: usize,
    /// Targets reached, or tried, through injected input.
    pub send_input: usize,
}

impl Default for DispatchSummary {
    fn default() -> (s: Self)
        ensures
            s == (DispatchSummary { attempted: 0, succeeded: 0, failed: 0, window_message: 0, send_input: 0 }),
    {
        DispatchSummary { attempted: 0, succeeded: 0, failed: 0, window_message: 0, send_input: 0 }
    }
}

/// How the delivery of a message to one target ended.
#[derive(Debug)]
pub enum DispatchOutcome {
    Success(DispatchMode),
    /// The delivery through the mode failed with the error text.
    Failed(DispatchMode, String),
    /// The target was not tried, for the reason given.
    Skipped(String),
}

/// Abstract value of a `DispatchOutcome`.
pub enum OutcomeView {
    Success(DispatchMode),
    Failed(DispatchMode, Seq<char>),
    Skipped(Seq<char>),
}

impl View for DispatchOutcome {
    type V = OutcomeView;

    open spec fn view(&self) -> OutcomeView {
        match self {
            DispatchOutcome::Success(m) => OutcomeView::Success(*m),
            DispatchOutcome::Failed(m, e) => OutcomeView::Failed(*m, e@),
            DispatchOutcome::Skipped(r) => OutcomeView::Skipped(r@),
        }
    }
}

/// The summary with one more target attempted.
pub open spec fn with_attempt(s: DispatchSummary) -> DispatchSummary {
    DispatchSummary { attempted: (s.attempted + 1) as usize, ..s }
}

/// The summary counting one more target by mode (automatic choice counts under no mode).
pub open spec fn count_mode(s: DispatchSummary, mode: DispatchMode) -> DispatchSummary {
    match mode {
        DispatchMode::WindowMessage => DispatchSummary { window_message: (s.window_message + 1) as usize, ..s },
        DispatchMode::SendInput => DispatchSummary { send_input: (s.send_input + 1) as usize, ..s },
        DispatchMode::Auto => s,
    }
}

/// The summary after the outcome of one target: a success or a failure by mode, or a skip.
pub open spec fn with_outcome(s: DispatchSummary, o: OutcomeView) -> DispatchSummary {
    match o {
        OutcomeView::Success(m) => count_mode(DispatchSummary { succeeded: (s.succeeded + 1) as usize, ..s }, m),
        OutcomeView::Failed(m, _) => count_mode(DispatchSummary { failed: (s.failed + 1) as usize, ..s }, m),
        OutcomeView::Skipped(_) => DispatchSummary { failed: (s.failed + 1) as usize, ..s },
    }
}

/// No count of outcomes in the summary is at its maximum.
pub open spec fn summary_has_room(s: DispatchSummary) -> bool {
    &&& s.succeeded < usize::MAX
    &&& s.failed < usize::MAX
    &&& s.window_message < usize::MAX
    &&& s.send_input < usize::MAX
}

/// Every outcome counted belongs to an attempted target, and every target counted by mode
/// has an outcome.
pub open spec fn summary_consistent(s: DispatchSummary) -> bool {
    &&& s.succeeded + s.failed <= s.attempted
    &&& s.window_message + s.send_input <= s.succeeded + s.failed
}

impl DispatchSummary {
    /// Counts one more target as attempted.
    pub fn begin_attempt(&mut self)
        requires
            old(self).attempted < usize::MAX,
        ensures
            *final(self) == with_attempt(*old(self)),
    {
        self.attempted = self.attempted + 1;
    }
}

/// The level of a line about a target's failure: a warning for clicks and wheel turns, a note
/// otherwise.
pub open spec fn issue_level(message: u32) -> LogLevel {
    if button_down_message(message) || button_up_message(message) || message == WM_MOUSEWHEEL
        || message == WM_MOUSEHWHEEL {
        LogLevel::Warn
    } else {
        LogLevel::Info
    }
}

fn issue_log_level(message: u32) -> (l: LogLevel)
    ensures
        l == issue_level(message),
{
    if is_click_message(message) || message == WM_MOUSEWHEEL || message == WM_MOUSEHWHEEL {
        LogLevel::Warn
    } else {
        LogLevel::Info
    }
}

/// The decimal digits of a number.
pub open spec fn dec(n: nat) -> Seq<char> {
    decimal_digits(n)
}

/// The line about a failed delivery to a target.
pub open spec fn issue_log(session_id: Seq<char>, target: usize, message: u32, mode: DispatchMode,
    error: Seq<char>) -> ThrottledLogView {
    ThrottledLogView {
        level: issue_level(message),
        key: "dispatch_issue:"@ + session_id + ":"@ + dec(target as nat) + ":"@ + dec(message as nat) + ":"@
            + error,
        message: "Session "@ + session_id + " failed to mirror "@ + mouse_message_text(message)
            + " to target "@ + id_of_handle(target as nat) + " via "@ + dispatch_mode_text(mode) + ": "@
            + error + "."@,
        cooldown_ms: ISSUE_LOG_COOLDOWN_MS,
    }
}

/// The line about a target that was skipped.
pub open spec fn skip_log(session_id: Seq<char>, target: usize, message: u32, reason: Seq<char>)
    -> ThrottledLogView {
    ThrottledLogView {
        level: issue_level(message),
        key: "dispatch_skip:"@ + session_id + ":"@ + dec(target as nat) + ":"@ + dec(message as nat) + ":"@
            + reason,
        message: "Session "@ + session_id + " skipped "@ + mouse_message_text(message) + " for target "@
            + id_of_handle(target as nat) + ": "@ + reason + "."@,
        cooldown_ms: ISSUE_LOG_COOLDOWN_MS,
    }
}

/// The line written for the outcome of one target, if any: failures and skips are reported.
pub open spec fn outcome_log(session_id: Seq<char>, target: usize, message: u32, o: OutcomeView) -> Option<
    ThrottledLogView,
> {
    match o {
        OutcomeView::Success(_) => None,
        OutcomeView::Failed(m, e) => Some(issue_log(session_id, target, message, m, e)),
        OutcomeView::Skipped(r) => Some(skip_log(session_id, target, message, r)),
    }
}

/// Appends the decimal digits of `n`.
fn push_dec(s: &mut String, n: usize)
    ensures
        final(s)@ == old(s)@ + dec(n as nat),
{
    push_decimal(s, n as u128);
}

fn dispatch_issue_log(session_id: &str, target: usize, message: u32, mode: DispatchMode, error: &str)
    -> (l: ThrottledLog)
    ensures
        l@ == issue_log(session_id@, target, message, mode, error@),
{
    let mut key = "dispatch_issue:".to_owned();
    key.append(session_id);
    key.append(":");
    push_dec(&mut key, target);
    key.append(":");
    push_dec(&mut key, message as usize);
    key.append(":");
    key.append(error);
    let mut text = "Session ".to_owned();
    text.append(session_id);
    text.append(" failed to mirror ");
    text.append(mouse_message_name(message));
    text.append(" to target ");
    text.append(format_handle(target).as_str());
    text.append(" via ");
    text.append(dispatch_mode_name(mode));
    text.append(": ");
    text.append(error);
    text.append(".");
    ThrottledLog { level: issue_log_level(message), key, message: text, cooldown_ms: ISSUE_LOG_COOLDOWN_MS }
}

fn dispatch_skip_log(session_id: &str, target: usize, message: u32, reason: &str) -> (l: ThrottledLog)
    ensures
        l@ == skip_log(session_id@, target, message, reason@),
{
    let mut key = "dispatch_skip:".to_owned();
    key.append(session_id);
    key.append(":");
    push_dec(&mut key, target);
    key.append(":");
    push_dec(&mut key, message as usize);
    key.append(":");
    key.append(reason);
    let mut text = "Session ".to_owned();
    text.append(session_id);
    text.append(" skipped ");
    text.append(mouse_message_name(message));
    text.append(" for target ");
    text.append(format_handle(target).as_str());
    text.append(": ");
    text.append(reason);
    text.append(".");
    ThrottledLog { level: issue_log_level(message), key, message: text, cooldown_ms: ISSUE_LOG_COOLDOWN_MS }
}

/// Counts the outcome of delivering `message` to `target` in `summary`, and returns the line
/// to write about it: failures and skips are reported, successes are not.
pub fn apply_dispatch_outcome(summary: &mut DispatchSummary, session_id: &str, target: usize,
    message: u32, outcome: DispatchOutcome) -> (log: Option<ThrottledLog>)
    requires
        summary_has_room(*old(summary)),
    ensures
        *final(summary) == with_outcome(*old(summary), outcome@),
        match (log, outcome_log(session_id@, target, message, outcome@)) {
            (None, None) => true,
            (Some(l), Some(v)) => l@ == v,
            _ => false,
        },
{
    match outcome {
        DispatchOutcome::Success(mode) => {
            summary.succeeded = summary.succeeded + 1;
            match mode {
                DispatchMode::WindowMessage => summary.window_message = summary.window_message + 1,
                DispatchMode::SendInput => summary.send_input = summary.send_input + 1,
                DispatchMode::Auto => {},
            }
            None
        },
        DispatchOutcome::Failed(mode, error) => {
            summary.failed = summary.failed + 1;
            match mode {
                DispatchMode::WindowMessage => summary.window_message = summary.window_message + 1,
                DispatchMode::SendInput => summary.send_input = summary.send_input + 1,
                DispatchMode::Auto => {},
            }
            Some(dispatch_issue_log(session_id, target, message, mode, error.as_str()))
        },
        DispatchOutcome::Skipped(reason) => {
            summary.failed = summary.failed + 1;
            Some(dispatch_skip_log(session_id, target, message, reason.as_str()))
        },
    }
}

/// Counting an attempt and then its outcome keeps a consistent summary consistent: each
/// attempted target is counted once as succeeded or failed, and at most once by mode.
pub proof fn lemma_summary_stays_consistent(s: DispatchSummary, o: OutcomeView)
    requires
        summary_consistent(s),
        s.attempted < usize::MAX,
        summary_has_room(s),
    ensures
        summary_consistent(with_outcome(with_attempt(s), o)),
        with_outcome(with_attempt(s), o).succeeded + with_outcome(with_attempt(s), o).failed
            == s.succeeded + s.failed + 1,
{
}

/// The summary line of a message mirrored to the targets.
pub open spec fn summary_log(session_id: Seq<char>, message: u32, s: DispatchSummary) -> ThrottledLogView {
    ThrottledLogView {
        level: LogLevel::Warn,
        key: "summary:"@ + session_id + ":"@ + dec(message as nat),
        message: "Session "@ + session_id + " mirrored "@ + mouse_message_text(message) + " to "@
            + dec(s.succeeded as nat) + "/"@ + dec(s.attempted as nat) + " targets. window_message="@
            + dec(s.window_message as nat) + ", send_input="@ + dec(s.send_input as nat) + ", failed="@
            + dec(s.failed as nat) + "."@,
        cooldown_ms: SUMMARY_LOG_COOLDOWN_MS,
    }
}

/// The summary line to write after mirroring `message`: only when a target failed.
pub fn log_summary_if_needed(session_id: &str, message: u32, summary: DispatchSummary) -> (log: Option<
    ThrottledLog,
>)
    ensures
        summary.failed == 0 <==> log is None,
        log matches Some(l) ==> l@ == summary_log(session_id@, message, summary),
{
    if summary.failed == 0 {
        return None;
    }
    let mut key = "summary:".to_owned();
    key.append(session_id);
    key.append(":");
    push_dec(&mut key, message as usize);
    let mut text = "Session ".to_owned();
    text.append(session_id);
    text.append(" mirrored ");
    text.append(mouse_message_name(message));
    text.append(" to ");
    push_dec(&mut text, summary.succeeded);
    text.append("/");
    push_dec(&mut text, summary.attempted);
    text.append(" targets. window_message=");
    push_dec(&mut text, summary.window_message);
    text.append(", send_input=");
    push_dec(&mut text, summary.send_input);
    text.append(", failed=");
    push_dec(&mut text, summary.failed);
    text.append(".");
    Some(ThrottledLog { level: LogLevel::Warn, key, message: text, cooldown_ms: SUMMARY_LOG_COOLDOWN_MS })
}

/// The line about a target taken out of mirroring.
pub open spec fn target_removed_log(session_id: Seq<char>, target: usize, reason: Seq<char>) -> ThrottledLogView {
    ThrottledLogView {
        level: LogLevel::Warn,
        key: "target_removed:"@ + session_id + ":"@ + dec(target as nat) + ":"@ + reason,
        message: "Session "@ + session_id + " removed target "@ + id_of_handle(target as nat)
            + " from live mirroring: "@ + reason + "."@,
        cooldown_ms: TARGET_REMOVAL_LOG_COOLDOWN_MS,
    }
}

/// The line about a target taken out of mirroring.
pub fn log_target_removed(session_id: &str, target: usize, reason: &str) -> (l: ThrottledLog)
    ensures
        l@ == target_removed_log(session_id@, target, reason@),
{
    let mut key = "target_removed:".to_owned();
    key.append(session_id);
    key.append(":");
    push_dec(&mut key, target);
    key.append(":");
    key.append(reason);
    let mut text = "Session ".to_owned();
    text.append(session_id);
    text.append(" removed target ");
    text.append(format_handle(target).as_str());
    text.append(" from live mirroring: ");
    text.append(reason);
    text.append(".");
    ThrottledLog { level: LogLevel::Warn, key, message: text, cooldown_ms: TARGET_REMOVAL_LOG_COOLDOWN_MS }
}

/// The trace line of one delivery stage to a target.
pub open spec fn click_trace_log(session_id: Seq<char>, target: usize, stage: Seq<char>, mode: DispatchMode)
    -> ThrottledLogView {
    ThrottledLogView {
        level: LogLevel::Info,
        key: "click_trace:"@ + session_id + ":"@ + dec(target as nat) + ":"@ + stage + ":"@
            + dispatch_mode_text(mode),
        message: "Session "@ + session_id + " target "@ + id_of_handle(target as nat) + " "@ + stage
            + " via "@ + dispatch_mode_text(mode) + "."@,
        cooldown_ms: CLICK_TRACE_LOG_COOLDOWN_MS,
    }
}

/// The trace line of one delivery stage to a target; pointer moves are not traced.
pub fn log_click_trace(session_id: &str, target: usize, stage: &str, mode: DispatchMode) -> (l: Option<
    ThrottledLog,
>)
    ensures
        stage@ == "mouse_move"@ <==> l is None,
        l matches Some(v) ==> v@ == click_trace_log(session_id@, target, stage@, mode),
{
    if str_eq(stage, "mouse_move") {
        return None;
    }
    let mut key = "click_trace:".to_owned();
    key.append(session_id);
    key.append(":");
    push_dec(&mut key, target);
    key.append(":");
    key.append(stage);
    key.append(":");
    key.append(dispatch_mode_name(mode));
    let mut text = "Session ".to_owned();
    text.append(session_id);
    text.append(" target ");
    text.append(format_handle(target).as_str());
    text.append(" ");
    text.append(stage);
    text.append(" via ");
    text.append(dispatch_mode_name(mode));
    text.append(".");
    Some(ThrottledLog { level: LogLevel::Info, key, message: text, cooldown_ms: CLICK_TRACE_LOG_COOLDOWN_MS })
}

/// The line announcing the replay of a buffered gesture.
pub open spec fn replay_log(session_id: Seq<char>, down_message: u32, point_count: usize, target_count: usize)
    -> ThrottledLogView {
    ThrottledLogView {
        level: LogLevel::Info,
        key: "replay:"@ + session_id + ":"@ + dec(down_message as nat) + ":"@ + dec(point_count as nat),
        message: "Session "@ + session_id + " replaying buffered "@ + mouse_message_text(down_message)
            + " gesture with "@ + dec(point_count as nat) + " points to "@ + dec(target_count as nat)
            + " targets."@,
        cooldown_ms: SUMMARY_LOG_COOLDOWN_MS,
    }
}

/// The line announcing the replay of a buffered gesture of `point_count` points, started by
/// `down_message`, to `target_count` targets.
pub fn log_replay(session_id: &str, down_message: u32, point_count: usize, target_count: usize) -> (l: ThrottledLog)
    ensures
        l@ == replay_log(session_id@, down_message, point_count, target_count),
{
    let mut key = "replay:".to_owned();
    key.append(session_id);
    key.append(":");
    push_dec(&mut key, down_message as usize);
    key.append(":");
    push_dec(&mut key, point_count);
    let mut text = "Session ".to_owned();
    text.append(session_id);
    text.append(" replaying buffered ");
    text.append(mouse_message_name(down_message));
    text.append(" gesture with ");
    push_dec(&mut text, point_count);
    text.append(" points to ");
    push_dec(&mut text, target_count);
    text.append(" targets.");
    ThrottledLog { level: LogLevel::Info, key, message: text, cooldown_ms: SUMMARY_LOG_COOLDOWN_MS }
}

/// The line about mirroring paused for a vanished primary window.
pub open spec fn primary_invalid_log(session_id: Seq<char>) -> ThrottledLogView {
    ThrottledLogView {
        level: LogLevel::Warn,
        key: "primary_window_invalid"@,
        message: "Session "@ + session_id + " paused mirroring because the primary window is no longer valid."@,
        cooldown_ms: PRIMARY_INVALID_LOG_COOLDOWN_MS,
    }
}

/// The line about mirroring paused for a vanished primary window.
pub fn log_primary_invalid(session_id: &str) -> (l: ThrottledLog)
    ensures
        l@ == primary_invalid_log(session_id@),
{
    let mut text = "Session ".to_owned();
    text.append(session_id);
    text.append(" paused mirroring because the primary window is no longer valid.");
    ThrottledLog {
        level: LogLevel::Warn,
        key: "primary_window_invalid".to_owned(),
        message: text,
        cooldown_ms: PRIMARY_INVALID_LOG_COOLDOWN_MS,
    }
}

/// The line written when the circuit breaker of a session opens.
pub open spec fn circuit_breaker_log(session_id: Seq<char>, reason: Seq<char>) -> ThrottledLogView {
    ThrottledLogView {
        level: LogLevel::Error,
        key: "circuit_breaker:"@ + session_id,
        message: reason,
        cooldown_ms: CIRCUIT_BREAKER_LOG_COOLDOWN_MS,
    }
}

/// Opens the circuit breaker, which stops all mirroring of the session; the line with
/// `reason` is returned only when the breaker was closed before.
pub fn trip_circuit_breaker(open: &mut bool, session_id: &str, reason: String) -> (l: Option<ThrottledLog>)
    ensures
        *final(open),
        *old(open) <==> l is None,
        l matches Some(v) ==> v@ == circuit_breaker_log(session_id@, reason@),
{
    let was_open = *open;
    *open = true;
    if was_open {
        return None;
    }
    let mut key = "circuit_breaker:".to_owned();
    key.append(session_id);
    Some(ThrottledLog { level: LogLevel::Error, key, message: reason, cooldown_ms: CIRCUIT_BREAKER_LOG_COOLDOWN_MS })
}

/// The reason given when the emergency hotkey stops mirroring.
pub fn emergency_stop_reason() -> (r: String)
    ensures
        r@ == "Emergency stop activated by Ctrl+Shift+F12. Mirroring has been cut off immediately."@,
{
    "Emergency stop activated by Ctrl+Shift+F12. Mirroring has been cut off immediately.".to_owned()
}

/// The reason given when a game mode replay ran too long.
pub open spec fn watchdog_text() -> Seq<char> {
    "Game mode watchdog stopped mirroring because one replay took more than "@ + dec(
        GAME_MODE_REPLAY_WATCHDOG_MS as nat,
    ) + " ms."@
}

/// The reason given when a game mode replay ran too long.
pub fn watchdog_reason() -> (r: String)
    ensures
        r@ == watchdog_text(),
{
    let mut r = "Game mode watchdog stopped mirroring because one replay took more than ".to_owned();
    push_decimal(&mut r, GAME_MODE_REPLAY_WATCHDOG_MS);
    r.append(" ms.");
    r
}

/// The line naming the dispatch mode that a target uses.
pub open spec fn dispatch_mode_line(session_id: Seq<char>, target: usize, mode: DispatchMode) -> Seq<char> {
    "Session "@ + session_id + " target "@ + id_of_handle(target as nat) + " using "@ + dispatch_mode_text(mode)
        + " dispatch mode."@
}

/// The line naming the dispatch mode that a target uses.
pub fn dispatch_mode_message(session_id: &str, target: usize, mode: DispatchMode) -> (m: String)
    ensures
        m@ == dispatch_mode_line(session_id@, target, mode),
{
    let mut m = "Session ".to_owned();
    m.append(session_id);
    m.append(" target ");
    m.append(format_handle(target).as_str());
    m.append(" using ");
    m.append(dispatch_mode_name(mode));
    m.append(" dispatch mode.");
    m
}

/// The window ids of `handles`, separated by a comma and a space.
pub open spec fn joined_ids(handles: Seq<usize>) -> Seq<char>
    decreases handles.len(),
{
    if handles.len() == 0 {
        Seq::empty()
    } else if handles.len() == 1 {
        id_of_handle(handles[0] as nat)
    } else {
        joined_ids(handles.drop_last()) + ", "@ + id_of_handle(handles.last() as nat)
    }
}

/// The line listing the windows that a session mirrors.
pub open spec fn session_targets_line(session_id: Seq<char>, primary: usize, targets: Seq<usize>) -> Seq<char> {
    "Session "@ + session_id + " active targets resolved. primary="@ + id_of_handle(primary as nat)
        + ", targets=["@ + joined_ids(targets) + "], count="@ + dec(targets.len()) + "."@
}

/// The line listing the windows that a session mirrors.
pub fn session_targets_message(session_id: &str, primary: usize, targets: &Vec<usize>) -> (m: String)
    ensures
        m@ == session_targets_line(session_id@, primary, targets@),
{
    let mut m = "Session ".to_owned();
    m.append(session_id);
    m.append(" active targets resolved. primary=");
    m.append(format_handle(primary).as_str());
    m.append(", targets=[");
    let ghost head = m@;
    let mut i: usize = 0;
    while i < targets.len()
        invariant
            i <= targets@.len(),
            m@ == head + joined_ids(targets@.take(i as int)),
        decreases targets@.len() - i,
    {
        assert(targets@.take(i + 1).drop_last() == targets@.take(i as int));
        if i > 0 {
            m.append(", ");
        }
        m.append(format_handle(targets[i]).as_str());
        i = i + 1;
    }
    assert(targets@.take(i as int) == targets@);
    m.append("], count=");
    push_dec(&mut m, targets.len());
    m.append(".");
    m
}

/// The line written when the message loop of a session's mirroring fails.
pub fn sync_loop_error_message(session_id: &str) -> (m: String)
    ensures
        m@ == "Session "@ + session_id@ + " sync loop stopped because GetMessageW returned an error."@,
{
    let mut m = "Session ".to_owned();
    m.append(session_id);
    m.append(" sync loop stopped because GetMessageW returned an error.");
    m
}


/// Abstract value of a `TargetRound`.
pub struct TargetRoundView {
    pub targets: Seq<usize>,
    pub next: nat,
    pub summary: DispatchSummary,
}

/// One round of delivering a message to the targets, one target at a time, with the tally of
/// the outcomes. The targets handed out so far are the attempted ones.
pub struct TargetRound {
    targets: Vec<usize>,
    summary: DispatchSummary,
}

impl View for TargetRound {
    type V = TargetRoundView;

    closed spec fn view(&self) -> TargetRoundView {
        TargetRoundView { targets: self.targets@, next: self.summary.attempted as nat, summary: self.summary }
    }
}

/// Whether the round waits for the outcome of the target it handed out last.
pub open spec fn awaiting_outcome(r: TargetRoundView) -> bool {
    r.summary.succeeded + r.summary.failed < r.summary.attempted
}

impl TargetRound {
    #[verifier::type_invariant]
    spec fn inv(&self) -> bool {
        &&& self.summary.attempted <= self.targets@.len()
        &&& self.summary.succeeded + self.summary.failed <= self.summary.attempted
        &&& self.summary.succeeded + self.summary.failed + 1 >= self.summary.attempted
        &&& self.summary.window_message + self.summary.send_input <= self.summary.succeeded + self.summary.failed
    }

    /// A round over `targets`, in order, with nothing attempted.
    pub fn new(targets: Vec<usize>) -> (r: Self)
        ensures
            r@.targets == targets@,
            r@.next == 0,
            r@.summary == (DispatchSummary { attempted: 0, succeeded: 0, failed: 0, window_message: 0, send_input: 0 }),
    {
        TargetRound {
            targets,
            summary: DispatchSummary { attempted: 0, succeeded: 0, failed: 0, window_message: 0, send_input: 0 },
        }
    }

    /// The next target to deliver to, counted as attempted; nothing when every target had its
    /// turn or the circuit breaker is open.
    pub fn next_target(&mut self, circuit_breaker_open: bool) -> (t: Option<usize>)
        requires
            !awaiting_outcome(old(self)@),
        ensures
            if circuit_breaker_open || old(self)@.next >= old(self)@.targets.len() {
                t is None && final(self)@ == old(self)@
            } else {
                &&& t == Some(old(self)@.targets[old(self)@.next as int])
                &&& final(self)@.targets == old(self)@.targets
                &&& final(self)@.next == old(self)@.next + 1
                &&& final(self)@.summary == with_attempt(old(self)@.summary)
                &&& awaiting_outcome(final(self)@)
            },
    {
        proof {
            use_type_invariant(&*self);
        }
        if circuit_breaker_open || self.summary.attempted >= self.targets.len() {
            return None;
        }
        let t = self.targets[self.summary.attempted];
        let mut summary = self.summary;
        summary.begin_attempt();
        self.summary = summary;
        Some(t)
    }

    /// Counts the outcome of delivering `message` to the target handed out last, and returns
    /// the line to write about it; see `apply_dispatch_outcome`.
    pub fn record(&mut self, session_id: &str, message: u32, outcome: DispatchOutcome) -> (log: Option<ThrottledLog>)
        requires
            awaiting_outcome(old(self)@),
        ensures
            final(self)@.targets == old(self)@.targets,
            final(self)@.next == old(self)@.next,
            final(self)@.summary == with_outcome(old(self)@.summary, outcome@),
            final(self)@.summary.succeeded + final(self)@.summary.failed == final(self)@.next,
            match (log, outcome_log(session_id@, old(self)@.targets[old(self)@.next - 1], message, outcome@)) {
                (None, None) => true,
                (Some(l), Some(v)) => l@ == v,
                _ => false,
            },
    {
        proof {
            use_type_invariant(&*self);
        }
        let target = self.targets[self.summary.attempted - 1];
        let mut summary = self.summary;
        let log = apply_dispatch_outcome(&mut summary, session_id, target, message, outcome);
        self.summary = summary;
        log
    }

    /// The tally so far.
    pub fn summary(&self) -> (s: DispatchSummary)
        ensures
            s == self@.summary,
    {
        self.summary
    }
}




/// The lines written when a replay ends.
#[derive(Debug)]
pub struct ReplayEnd {
    /// The line of the circuit breaker, when the watchdog opened it.
    pub breaker_log: Option<ThrottledLog>,
    /// The summary line, when a target failed.
    pub summary_log: Option<ThrottledLog>,
}

/// Ends the replay of a gesture released with `up_message` (after the targets had their turn,
/// the primary window was focused again and the pointer put back; or at once, with nothing
/// tallied, when there was no target): the replay is no longer in progress, so the hook lets
/// the mouse through again; in game mode a replay longer than `GAME_MODE_REPLAY_WATCHDOG_MS`
/// opens the circuit breaker; and the summary line is written when a target failed.
pub fn finish_replay(replay_in_progress: &mut bool, circuit_breaker_open: &mut bool, session_id: &str,
    game_mode: bool, elapsed_ms: u128, up_message: u32, summary: DispatchSummary) -> (end: ReplayEnd)
    ensures
        !*final(replay_in_progress),
        if game_mode && elapsed_ms > GAME_MODE_REPLAY_WATCHDOG_MS {
            &&& *final(circuit_breaker_open)
            &&& (*old(circuit_breaker_open) <==> end.breaker_log is None)
            &&& end.breaker_log matches Some(l) ==> l@ == circuit_breaker_log(session_id@, watchdog_text())
        } else {
            &&& *final(circuit_breaker_open) == *old(circuit_breaker_open)
            &&& end.breaker_log is None
        },
        summary.failed == 0 <==> end.summary_log is None,
        end.summary_log matches Some(l) ==> l@ == summary_log(session_id@, up_message, summary),
{
    let breaker_log = if watchdog_tripped(game_mode, elapsed_ms) {
        trip_circuit_breaker(circuit_breaker_open, session_id, watchdog_reason())
    } else {
        None
    };
    let summary_log = log_summary_if_needed(session_id, up_message, summary);
    *replay_in_progress = false;
    ReplayEnd { breaker_log, summary_log }
}

} // verus!
