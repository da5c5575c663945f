//! Decisions of the connection to the companion app: retry with exponential
//! backoff on transient connect errors, and what to do with each frame read
//! while waiting for a response. The socket itself is driven by the caller.

use vstd::prelude::*;
use vstd::arithmetic::power2::{lemma2_to64, lemma_pow2_strictly_increases, pow2};
use crate::protocol::codec::MessageType;
use crate::text::{contains, contains_str, lowercase, to_lowercase_exec};

verus! {

/// TCP port where the companion app listens.
pub const COMPANION_PORT: u16 = 38472;

/// Connection timeout, in milliseconds.
pub const CONNECT_TIMEOUT_MS: u64 = 5000;

/// Response timeout, in milliseconds.
pub const READ_TIMEOUT_MS: u64 = 10000;

/// Retries after the first connection attempt.
pub const MAX_RETRIES: u32 = 5;

/// Backoff before the first retry, in milliseconds.
pub const INITIAL_BACKOFF_MS: u64 = 250;

/// Longest backoff, in milliseconds.
pub const MAX_BACKOFF_MS: u64 = 4000;

/// Backoff after failed attempt number `attempt` (from 0): 250 ms doubled per
/// attempt, capped at 4000 ms.
pub open spec fn backoff_spec(attempt: nat) -> nat {
    let b: nat = (INITIAL_BACKOFF_MS as nat) * pow2(attempt);
    if b <= MAX_BACKOFF_MS { b } else { MAX_BACKOFF_MS as nat }
}

/// Backoff delay after failed attempt `attempt`, in milliseconds.
pub fn backoff_ms(attempt: u32) -> (r: u64)
    ensures
        r == backoff_spec(attempt as nat),
{
    proof {
        lemma2_to64();
        if attempt >= 5 {
            lemma_pow2_strictly_increases(4, attempt as nat);
        }
    }
    if attempt == 0 {
        250
    } else if attempt == 1 {
        500
    } else if attempt == 2 {
        1000
    } else if attempt == 3 {
        2000
    } else {
        4000
    }
}

/// The backoff never exceeds the cap and never shrinks from one attempt to
/// the next.
pub proof fn lemma_backoff_capped_monotone(a: nat, b: nat)
    requires
        a <= b,
    ensures
        backoff_spec(a) <= MAX_BACKOFF_MS,
        backoff_spec(a) <= backoff_spec(b),
{
    lemma2_to64();
    if a < b {
        lemma_pow2_strictly_increases(a, b);
    }
}

/// Connect errors worth retrying: the lower-cased message mentions a refused,
/// timed-out or reset connection.
pub open spec fn is_transient_spec(message: Seq<char>) -> bool {
    let m = lowercase(message);
    contains(m, "connection refused"@) || contains(m, "connection timeout"@) || contains(m, "connection reset"@)
}

/// Whether a connect error is transient (see `is_transient_spec`).
pub fn is_transient_error(message: &str) -> (r: bool)
    ensures
        r == is_transient_spec(message@),
{
    let m = to_lowercase_exec(message);
    contains_str(m.as_slice(), "connection refused") || contains_str(m.as_slice(), "connection timeout")
        || contains_str(m.as_slice(), "connection reset")
}

/// What to do after a connection attempt.
#[derive(Debug, Clone, Copy, PartialEq, Eq, Structural)]
pub enum ConnectStep {
    /// The attempt succeeded: use the connection.
    Connected,
    /// The error is not transient: fail now.
    FailNonTransient,
    /// Wait this long, then try again.
    RetryAfter(u64),
    /// Every retry failed: give up with the last error.
    GiveUp,
}

/// The step after attempt `attempt` (from 0) ended with `succeeded`, and, on
/// failure, an error that `transient` classifies.
pub open spec fn connect_step_spec(attempt: u32, succeeded: bool, transient: bool) -> ConnectStep {
    if succeeded {
        ConnectStep::Connected
    } else if !transient {
        ConnectStep::FailNonTransient
    } else if attempt < MAX_RETRIES {
        ConnectStep::RetryAfter(backoff_spec(attempt as nat) as u64)
    } else {
        ConnectStep::GiveUp
    }
}

/// Decide what follows a connection attempt.
pub fn connect_step(attempt: u32, succeeded: bool, transient: bool) -> (r: ConnectStep)
    ensures
        r == connect_step_spec(attempt, succeeded, transient),
{
    if succeeded {
        ConnectStep::Connected
    } else if !transient {
        ConnectStep::FailNonTransient
    } else if attempt < MAX_RETRIES {
        ConnectStep::RetryAfter(backoff_ms(attempt))
    } else {
        ConnectStep::GiveUp
    }
}

/// A transient failure is retried exactly while attempts remain: attempts
/// 0 to 4 wait and retry, attempt 5 gives up, so at most six attempts are made.
pub proof fn lemma_retries_bounded(attempt: u32)
    ensures
        attempt < MAX_RETRIES ==> connect_step_spec(attempt, false, true) is RetryAfter,
        attempt >= MAX_RETRIES ==> connect_step_spec(attempt, false, true) == ConnectStep::GiveUp,
{
}

/// What to do with a frame read while waiting for a response.
#[derive(Debug, Clone, Copy, PartialEq, Eq, Structural)]
pub enum FrameAction {
    /// Decode it as the response and return it.
    ReturnResponse,
    /// Decode it as an event, hand it to the event channel, keep reading.
    ForwardEvent,
    /// The companion app never sends requests: ignore it and keep reading.
    IgnoreRequest,
}

/// The action for each message type.
pub fn frame_action(message_type: MessageType) -> (r: FrameAction)
    ensures
        message_type == MessageType::Response ==> r == FrameAction::ReturnResponse,
        message_type == MessageType::Event ==> r == FrameAction::ForwardEvent,
        message_type == MessageType::Request ==> r == FrameAction::IgnoreRequest,
{
    match message_type {
        MessageType::Response => FrameAction::ReturnResponse,
        MessageType::Event => FrameAction::ForwardEvent,
        MessageType::Request => FrameAction::IgnoreRequest,
    }
}

} // verus!
