//! What the tools decide from the companion app's answers: the messages of
//! failed requests, the verdict of waits, when to retry a request, when to
//! reconnect, and what to do about missing permissions.

use vstd::prelude::*;
use crate::device::manager::{missing_message_spec, PermissionStatus};
use crate::protocol::pb::ErrorCode;
use crate::text::{contains, contains_str, lowercase, push_str, string_from_chars, to_lowercase_exec};

verus! {

// ---------------------------------------------------------------------------
// Messages of failed requests
// ---------------------------------------------------------------------------

/// Suggestion when the element to tap is not found.
pub const TAP_NOT_FOUND_HINT: &'static str = "\nSuggestion: Element not found. Try android_find_elements to verify the selector, or use android_get_ui_tree to see all available elements.";

/// Suggestion when the element to tap is not visible.
pub const TAP_NOT_VISIBLE_HINT: &'static str = "\nSuggestion: Element is not visible. Try android_swipe to scroll the element into view first.";

/// Suggestion when the element to tap is disabled.
pub const TAP_NOT_ENABLED_HINT: &'static str = "\nSuggestion: Element is disabled. Check if a loading state or condition needs to be satisfied first.";

/// Suggestion when no element matches a search.
pub const FIND_NOT_FOUND_HINT: &'static str = "\nSuggestion: Try android_screenshot and android_get_ui_tree to see available elements.";

/// Suggestion when several elements match a search.
pub const FIND_AMBIGUOUS_HINT: &'static str = "\nSuggestion: Multiple elements match. Use more specific selector (resource_id preferred) or set find_all=true to see all matches.";

/// Suggestion when the app to launch is not installed.
pub const LAUNCH_NOT_INSTALLED_HINT: &'static str = "\nSuggestion: App is not installed. Verify the package name (e.g., 'com.android.chrome') or install the app first.";

/// Suggestion when the activity to launch does not exist.
pub const LAUNCH_NO_ACTIVITY_HINT: &'static str = "\nSuggestion: Activity not found. Try launching by package_name only (without activity parameter) to use the default launcher activity.";

/// Message of a failed tap: the companion's message and, for a missing,
/// invisible or disabled element, a suggestion.
pub open spec fn tap_failure_spec(code: ErrorCode, message: Seq<char>) -> Seq<char> {
    "Failed to tap: "@ + message + match code {
        ErrorCode::ElementNotFound => TAP_NOT_FOUND_HINT@,
        ErrorCode::ElementNotVisible => TAP_NOT_VISIBLE_HINT@,
        ErrorCode::ElementNotEnabled => TAP_NOT_ENABLED_HINT@,
        _ => Seq::empty(),
    }
}

/// Message of a failed element search: the companion's message and, when no
/// element or several elements match, a suggestion.
pub open spec fn find_failure_spec(code: ErrorCode, message: Seq<char>) -> Seq<char> {
    "Failed to find elements: "@ + message + match code {
        ErrorCode::ElementNotFound => FIND_NOT_FOUND_HINT@,
        ErrorCode::ElementAmbiguous => FIND_AMBIGUOUS_HINT@,
        _ => Seq::empty(),
    }
}

/// Message of a failed launch: the companion's message and, when the app or
/// the activity is missing, a suggestion.
pub open spec fn launch_failure_spec(code: ErrorCode, message: Seq<char>) -> Seq<char> {
    "Failed to launch app: "@ + message + match code {
        ErrorCode::AppNotInstalled => LAUNCH_NOT_INSTALLED_HINT@,
        ErrorCode::ActivityNotFound => LAUNCH_NO_ACTIVITY_HINT@,
        _ => Seq::empty(),
    }
}

fn message_with_hint(head: &str, message: &str, hint: &str) -> (r: String)
    ensures
        r@ == head@ + message@ + hint@,
{
    let mut m: Vec<char> = Vec::new();
    push_str(&mut m, head);
    push_str(&mut m, message);
    push_str(&mut m, hint);
    string_from_chars(m.as_slice())
}

/// The message of a failed tap (see `tap_failure_spec`).
pub fn tap_failure_message(code: ErrorCode, message: &str) -> (r: String)
    ensures
        r@ == tap_failure_spec(code, message@),
{
    proof {
        reveal_strlit("");
    }
    let hint: &str = match code {
        ErrorCode::ElementNotFound => TAP_NOT_FOUND_HINT,
        ErrorCode::ElementNotVisible => TAP_NOT_VISIBLE_HINT,
        ErrorCode::ElementNotEnabled => TAP_NOT_ENABLED_HINT,
        _ => "",
    };
    message_with_hint("Failed to tap: ", message, hint)
}

/// The message of a failed element search (see `find_failure_spec`).
pub fn find_failure_message(code: ErrorCode, message: &str) -> (r: String)
    ensures
        r@ == find_failure_spec(code, message@),
{
    proof {
        reveal_strlit("");
    }
    let hint: &str = match code {
        ErrorCode::ElementNotFound => FIND_NOT_FOUND_HINT,
        ErrorCode::ElementAmbiguous => FIND_AMBIGUOUS_HINT,
        _ => "",
    };
    message_with_hint("Failed to find elements: ", message, hint)
}

/// The message of a failed launch (see `launch_failure_spec`).
pub fn launch_failure_message(code: ErrorCode, message: &str) -> (r: String)
    ensures
        r@ == launch_failure_spec(code, message@),
{
    proof {
        reveal_strlit("");
    }
    let hint: &str = match code {
        ErrorCode::AppNotInstalled => LAUNCH_NOT_INSTALLED_HINT,
        ErrorCode::ActivityNotFound => LAUNCH_NO_ACTIVITY_HINT,
        _ => "",
    };
    message_with_hint("Failed to launch app: ", message, hint)
}

// ---------------------------------------------------------------------------
// Waits
// ---------------------------------------------------------------------------

/// How a wait on the device ended.
#[derive(Debug, Clone, Copy, PartialEq, Eq, Structural)]
pub enum WaitVerdict {
    /// The awaited condition came true.
    Met,
    /// The companion app timed out: not an error, the condition did not come true.
    TimedOut,
    /// The request failed for another reason.
    Failed,
}

/// The verdict of a wait from the companion's answer: success means the
/// condition came true, a timeout code that it did not, anything else failed.
pub fn wait_verdict(success: bool, code: ErrorCode) -> (r: WaitVerdict)
    ensures
        success ==> r == WaitVerdict::Met,
        !success && code == ErrorCode::Timeout ==> r == WaitVerdict::TimedOut,
        !success && code != ErrorCode::Timeout ==> r == WaitVerdict::Failed,
{
    if success {
        WaitVerdict::Met
    } else if code == ErrorCode::Timeout {
        WaitVerdict::TimedOut
    } else {
        WaitVerdict::Failed
    }
}

// ---------------------------------------------------------------------------
// Retrying requests
// ---------------------------------------------------------------------------

/// Delay before each retry of a request, in milliseconds.
pub const RETRY_DELAY_MS: u64 = 200;

/// What one attempt to send a request gave.
#[derive(Debug, Clone, Copy, PartialEq, Eq, Structural)]
pub enum AttemptOutcome {
    /// The companion answered with success.
    Succeeded,
    /// The companion answered with a failure code.
    Failed { code: ErrorCode },
    /// The request could not be exchanged; `retryable` for timeouts and
    /// connection trouble.
    SendError { retryable: bool },
}

/// After an attempt: send again, or stop and hand back what the attempt gave.
#[derive(Debug, Clone, Copy, PartialEq, Eq, Structural)]
pub enum RetryStep {
    Retry,
    Finish,
}

/// Whether attempt `attempt` (counted from 0) is followed by another: only a
/// missing element or a retryable send error, and only while fewer than
/// `max_retries` retries were made.
pub open spec fn retry_step_spec(attempt: u32, max_retries: u32, outcome: AttemptOutcome) -> RetryStep {
    match outcome {
        AttemptOutcome::Succeeded => RetryStep::Finish,
        AttemptOutcome::Failed { code } => if code == ErrorCode::ElementNotFound && attempt
            < max_retries {
            RetryStep::Retry
        } else {
            RetryStep::Finish
        },
        AttemptOutcome::SendError { retryable } => if retryable && attempt < max_retries {
            RetryStep::Retry
        } else {
            RetryStep::Finish
        },
    }
}

/// The retry decision after an attempt (see `retry_step_spec`).
pub fn retry_step(attempt: u32, max_retries: u32, outcome: AttemptOutcome) -> (r: RetryStep)
    ensures
        r == retry_step_spec(attempt, max_retries, outcome),
{
    match outcome {
        AttemptOutcome::Succeeded => RetryStep::Finish,
        AttemptOutcome::Failed { code } => {
            if code == ErrorCode::ElementNotFound && attempt < max_retries {
                RetryStep::Retry
            } else {
                RetryStep::Finish
            }
        },
        AttemptOutcome::SendError { retryable } => {
            if retryable && attempt < max_retries {
                RetryStep::Retry
            } else {
                RetryStep::Finish
            }
        },
    }
}

/// A request is sent at most `max_retries + 1` times: a retry follows only an
/// attempt numbered below `max_retries`, and a success is never retried.
pub proof fn lemma_retry_bounded(attempt: u32, max_retries: u32, outcome: AttemptOutcome)
    ensures
        retry_step_spec(attempt, max_retries, outcome) == RetryStep::Retry ==> attempt < max_retries,
        outcome == AttemptOutcome::Succeeded ==> retry_step_spec(attempt, max_retries, outcome)
            == RetryStep::Finish,
{
}

/// A send error is worth retrying when its message mentions a timeout or the
/// connection (as written, in lower case).
pub open spec fn retryable_send_error_spec(message: Seq<char>) -> bool {
    contains(message, "timeout"@) || contains(message, "connection"@)
}

/// Whether a send error is worth retrying (see `retryable_send_error_spec`).
pub fn is_retryable_send_error(message: &str) -> (r: bool)
    ensures
        r == retryable_send_error_spec(message@),
{
    let m = crate::text::chars_of(message);
    contains_str(m.as_slice(), "timeout") || contains_str(m.as_slice(), "connection")
}

/// A failed send calls for a fresh connection when its message, in any case,
/// speaks of sending, writing, a broken pipe, or a reset or closed connection.
pub open spec fn needs_reconnect_spec(message: Seq<char>) -> bool {
    let m = lowercase(message);
    contains(m, "send"@) || contains(m, "write"@) || contains(m, "broken pipe"@) || contains(
        m,
        "connection reset"@,
    ) || contains(m, "connection closed"@)
}

/// Whether a failed send calls for a fresh connection (see
/// `needs_reconnect_spec`).
pub fn needs_reconnect(message: &str) -> (r: bool)
    ensures
        r == needs_reconnect_spec(message@),
{
    let m = to_lowercase_exec(message);
    let m = m.as_slice();
    contains_str(m, "send") || contains_str(m, "write") || contains_str(m, "broken pipe")
        || contains_str(m, "connection reset") || contains_str(m, "connection closed")
}

// ---------------------------------------------------------------------------
// Readiness of the companion app
// ---------------------------------------------------------------------------

/// What follows the list of missing permissions when they are not to be
/// enabled automatically.
pub const ENABLE_PERMISSIONS_HINT: &'static str = "\n\nUse --enable-permissions flag to auto-enable missing permissions";

/// What to do about the companion app's permissions.
#[derive(Debug)]
pub enum ReadinessPlan {
    /// Everything is in place.
    Ready,
    /// Enable the services that are off, then check again.
    Enable { accessibility: bool, notification_listener: bool },
    /// Not ready and not to be fixed: fail with this message.
    NotReady(String),
}

/// The plan for a permission status: ready when all is in place; otherwise
/// enable what is off when asked to, or fail naming what is missing.
pub fn readiness_plan(status: &PermissionStatus, auto_enable: bool) -> (r: ReadinessPlan)
    ensures
        status.spec_is_ready() ==> r matches ReadinessPlan::Ready,
        !status.spec_is_ready() && auto_enable ==> (r matches ReadinessPlan::Enable {
            accessibility,
            notification_listener,
        } && accessibility == !status.accessibility_enabled && notification_listener
            == !status.notification_listener_enabled),
        !status.spec_is_ready() && !auto_enable ==> (r matches ReadinessPlan::NotReady(m) && m@
            == missing_message_spec(*status) + ENABLE_PERMISSIONS_HINT@),
{
    if status.is_ready() {
        ReadinessPlan::Ready
    } else if auto_enable {
        ReadinessPlan::Enable {
            accessibility: !status.accessibility_enabled,
            notification_listener: !status.notification_listener_enabled,
        }
    } else {
        match status.missing_permissions_message() {
            Some(msg) => {
                let mut m: Vec<char> = Vec::new();
                push_str(&mut m, msg.as_str());
                push_str(&mut m, ENABLE_PERMISSIONS_HINT);
                ReadinessPlan::NotReady(string_from_chars(m.as_slice()))
            },
            None => ReadinessPlan::Ready,
        }
    }
}

/// After enabling services: fine when the new status is ready, otherwise the
/// message naming what is still missing.
pub fn readiness_after_enable(status: &PermissionStatus) -> (r: Result<(), String>)
    ensures
        status.spec_is_ready() ==> r is Ok,
        !status.spec_is_ready() ==> (r matches Err(m) && m@ == missing_message_spec(*status)),
{
    match status.missing_permissions_message() {
        Some(msg) => Err(msg),
        None => Ok(()),
    }
}


/// Readiness after one check: confirmed before, or the status read now is
/// ready.
pub open spec fn gate_step(open: bool, status: PermissionStatus) -> bool {
    open || status.spec_is_ready()
}

/// Readiness after checks reading each of the statuses.
pub open spec fn gate_after(open: bool, statuses: Seq<PermissionStatus>) -> bool
    decreases statuses.len(),
{
    if statuses.len() == 0 {
        open
    } else {
        gate_step(gate_after(open, statuses.drop_last()), statuses.last())
    }
}

/// Readiness checks of the companion app for the selected device: once a
/// check found everything in place, no further check is needed until the
/// device changes.
pub struct ReadinessGate {
    open: bool,
}

impl View for ReadinessGate {
    type V = bool;

    /// Whether readiness has been confirmed.
    closed spec fn view(&self) -> bool {
        self.open
    }
}

impl ReadinessGate {
    /// A gate for a newly selected device: not confirmed.
    pub fn new() -> (r: ReadinessGate)
        ensures
            !r@,
    {
        ReadinessGate { open: false }
    }

    /// Whether readiness has been confirmed, so that no check is needed.
    pub fn is_confirmed(&self) -> (r: bool)
        ensures
            r == self@,
    {
        self.open
    }

    /// The plan for a status read now (see `readiness_plan`); a ready status
    /// confirms readiness.
    pub fn plan(&mut self, status: &PermissionStatus, auto_enable: bool) -> (r: ReadinessPlan)
        ensures
            final(self)@ == gate_step(old(self)@, *status),
            status.spec_is_ready() ==> r matches ReadinessPlan::Ready,
            !status.spec_is_ready() && auto_enable ==> (r matches ReadinessPlan::Enable {
                accessibility,
                notification_listener,
            } && accessibility == !status.accessibility_enabled && notification_listener
                == !status.notification_listener_enabled),
            !status.spec_is_ready() && !auto_enable ==> (r matches ReadinessPlan::NotReady(m) && m@
                == missing_message_spec(*status) + ENABLE_PERMISSIONS_HINT@),
    {
        let r = readiness_plan(status, auto_enable);
        self.open = self.open || status.is_ready();
        r
    }

    /// The outcome of the check after enabling services (see
    /// `readiness_after_enable`); a ready status confirms readiness.
    pub fn after_enable(&mut self, status: &PermissionStatus) -> (r: Result<(), String>)
        ensures
            final(self)@ == gate_step(old(self)@, *status),
            status.spec_is_ready() ==> r is Ok,
            !status.spec_is_ready() ==> (r matches Err(m) && m@ == missing_message_spec(*status)),
    {
        let r = readiness_after_enable(status);
        self.open = self.open || status.is_ready();
        r
    }

    /// Forget the confirmation, as when another device is selected.
    pub fn reset(&mut self)
        ensures
            !final(self)@,
    {
        self.open = false;
    }
}

/// Readiness is confirmed after a series of checks exactly when it was
/// before or one of them read a ready status; so once confirmed it stays so,
/// and checks that only read statuses with something missing leave it
/// unconfirmed.
pub proof fn lemma_gate_after(open: bool, statuses: Seq<PermissionStatus>)
    ensures
        gate_after(open, statuses) == (open || exists|i: int| 0 <= i < statuses.len() && #[trigger] statuses[i].spec_is_ready()),
        open ==> gate_after(open, statuses),
    decreases statuses.len(),
{
    if statuses.len() > 0 {
        let d = statuses.drop_last();
        lemma_gate_after(open, d);
        if exists|i: int| 0 <= i < d.len() && #[trigger] d[i].spec_is_ready() {
            let i = choose|i: int| 0 <= i < d.len() && #[trigger] d[i].spec_is_ready();
            assert(statuses[i] == d[i]);
        }
        if exists|i: int| 0 <= i < statuses.len() && #[trigger] statuses[i].spec_is_ready() {
            let i = choose|i: int| 0 <= i < statuses.len() && #[trigger] statuses[i].spec_is_ready();
            if i < d.len() {
                assert(d[i] == statuses[i]);
            }
        }
    }
}

/// A failed screenshot is retried over ADB when the companion's message says
/// MediaProjection is unavailable.
pub open spec fn needs_adb_screenshot_spec(message: Seq<char>) -> bool {
    contains(message, "MediaProjection"@)
}

/// Whether a failed screenshot is to be taken over ADB instead (see
/// `needs_adb_screenshot_spec`).
pub fn needs_adb_screenshot(message: &str) -> (r: bool)
    ensures
        r == needs_adb_screenshot_spec(message@),
{
    let m = crate::text::chars_of(message);
    contains_str(m.as_slice(), "MediaProjection")
}

} // verus!
