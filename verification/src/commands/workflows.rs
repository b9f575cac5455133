//! Workflow commands: where a run's payload comes from, when waiting for
//! an instance stops, and the page size of instance listings.
use vstd::prelude::*;

use crate::text::{owned, push_text, text_eq};

verus! {

/// Where the input payload of a workflow run comes from.
#[derive(PartialEq, Eq, Structural, Clone, Copy, Debug)]
pub enum PayloadSource {
    Absent,
    Inline,
    File,
}

/// The payload source of a run, from whether `--payload` and
/// `--payload-file` are given; both at once is an error.
pub open spec fn payload_source_spec(inline: bool, file: bool) -> Result<PayloadSource, Seq<char>> {
    if inline && file {
        Err("cannot specify both --payload and --payload-file"@)
    } else if inline {
        Ok(PayloadSource::Inline)
    } else if file {
        Ok(PayloadSource::File)
    } else {
        Ok(PayloadSource::Absent)
    }
}

/// Decides where the payload of a workflow run comes from.
pub fn payload_source(inline: bool, file: bool) -> (r: Result<PayloadSource, String>)
    ensures
        match r {
            Ok(x) => payload_source_spec(inline, file) == Ok::<PayloadSource, Seq<char>>(x),
            Err(e) => payload_source_spec(inline, file) == Err::<PayloadSource, Seq<char>>(e@),
        },
{
    if inline && file {
        Err(owned("cannot specify both --payload and --payload-file"))
    } else if inline {
        Ok(PayloadSource::Inline)
    } else if file {
        Ok(PayloadSource::File)
    } else {
        Ok(PayloadSource::Absent)
    }
}

/// What waiting for a workflow instance does after a status check.
#[derive(PartialEq, Eq, Structural, Clone, Copy, Debug)]
pub enum WaitStep {
    /// The instance is still running: check again.
    Continue,
    /// The instance reached another state: show it.
    Done,
}

/// An instance is still running while its state is empty or
/// `IN_PROGRESS`; any other state counts as final, so that a state unknown
/// today does not keep the command polling.
pub open spec fn wait_step_spec(state: Seq<char>) -> WaitStep {
    if state.len() == 0 || state == "IN_PROGRESS"@ {
        WaitStep::Continue
    } else {
        WaitStep::Done
    }
}

/// Decides, from the reported state of an instance, whether to keep
/// waiting.
pub fn wait_step(state: &str) -> (r: WaitStep)
    ensures
        r == wait_step_spec(state@),
{
    if state.is_empty() || text_eq(state, "IN_PROGRESS") {
        WaitStep::Continue
    } else {
        WaitStep::Done
    }
}

/// The error when waiting outlasts the timeout (`timeout` as given).
pub fn wait_timeout_error(timeout: &str, instance_id: &str) -> (e: String)
    ensures
        e@ == "timed out after "@ + timeout@ + " waiting for instance "@ + instance_id@,
{
    let mut e = owned("timed out after ");
    push_text(&mut e, timeout);
    push_text(&mut e, " waiting for instance ");
    push_text(&mut e, instance_id);
    e
}

/// The page size of an instance listing: the `--limit` brought into 1..=100.
pub fn instance_page_size(limit: i64) -> (r: i64)
    ensures
        r == if limit < 1 {
            1
        } else if limit > 100 {
            100
        } else {
            limit
        },
{
    if limit < 1 {
        1
    } else if limit > 100 {
        100
    } else {
        limit
    }
}

/// How long to wait before each poll of a running instance, in milliseconds.
pub const POLL_INTERVAL_MS: u64 = 2000;

/// What to do next while waiting for an instance.
#[derive(PartialEq, Eq, Structural, Clone, Copy, Debug)]
pub enum PollAction {
    /// The timeout has passed: stop with the timeout error.
    TimedOut,
    /// Wait this many milliseconds, then ask for the instance's state.
    WaitThenPoll(u64),
}

/// The next step of waiting for an instance, given the time since it
/// started and the timeout: give up once the time exceeds the timeout,
/// otherwise wait the poll interval and poll again.
pub fn poll_action(elapsed_ms: u64, timeout_ms: u64) -> (r: PollAction)
    ensures
        r == if elapsed_ms > timeout_ms {
            PollAction::TimedOut
        } else {
            PollAction::WaitThenPoll(POLL_INTERVAL_MS)
        },
{
    if elapsed_ms > timeout_ms {
        PollAction::TimedOut
    } else {
        PollAction::WaitThenPoll(POLL_INTERVAL_MS)
    }
}

} // verus!
