//! The poll loop's decisions.
//!
//! The loop itself lives with the caller, who takes a snapshot, evaluates
//! the predicate, measures the elapsed time, and hands all three to
//! [`poll_step`]; the decision — stop ready, stop timed out, or sleep and
//! try again — is computed here.

use vstd::prelude::*;

verus! {

/// What the poll loop does next.
#[derive(Debug, Clone, Copy, PartialEq, Eq, Structural)]
pub enum PollDecision {
    /// The network is ready: stop successfully.
    Ready,
    /// Not ready and the deadline has passed: stop with a timeout failure.
    TimedOut,
    /// Not ready: sleep this many milliseconds, then poll again.
    Sleep(u64),
}

/// The deadline in milliseconds that a timeout of `timeout_s` whole seconds
/// denotes, clamped at the largest representable time.
pub open spec fn deadline_ms_spec(timeout_s: u64) -> u64 {
    if timeout_s > u64::MAX as int / 1000 {
        u64::MAX
    } else {
        (timeout_s * 1000) as u64
    }
}

/// Converts a timeout in whole seconds to milliseconds, clamping at the
/// largest representable time. A timeout of 0 stays 0 and means that no
/// deadline is in force.
pub fn deadline_ms(timeout_s: u64) -> (r: u64)
    ensures
        r == deadline_ms_spec(timeout_s),
{
    if timeout_s > u64::MAX / 1000 {
        u64::MAX
    } else {
        timeout_s * 1000
    }
}

/// What [`poll_step`] decides.
///
/// Readiness always wins. A timeout of 0 disables the deadline entirely: the
/// loop then runs until ready, sleeping the configured interval between
/// polls. With a deadline in force, the loop times out once the elapsed time
/// reaches it, and otherwise never sleeps past it: the sleep is the smaller
/// of the interval and the time remaining. An interval of 0 polls again at
/// once, still bounded by the deadline check.
pub open spec fn poll_step_spec(
    online: bool,
    interval_ms: u64,
    timeout_ms: u64,
    elapsed_ms: u64,
) -> PollDecision {
    if online {
        PollDecision::Ready
    } else if timeout_ms == 0 {
        PollDecision::Sleep(interval_ms)
    } else if elapsed_ms >= timeout_ms {
        PollDecision::TimedOut
    } else if interval_ms <= (timeout_ms - elapsed_ms) as u64 {
        PollDecision::Sleep(interval_ms)
    } else {
        PollDecision::Sleep((timeout_ms - elapsed_ms) as u64)
    }
}

/// Decides one tick of the poll loop from the verdict of the snapshot just
/// taken, the configured interval and timeout (both in milliseconds, the
/// timeout 0 when no deadline is in force), and the time elapsed since the
/// run began.
pub fn poll_step(online: bool, interval_ms: u64, timeout_ms: u64, elapsed_ms: u64) -> (r:
    PollDecision)
    ensures
        r == poll_step_spec(online, interval_ms, timeout_ms, elapsed_ms),
        online <==> r == PollDecision::Ready,
        (!online && timeout_ms > 0 && elapsed_ms >= timeout_ms) <==> r == PollDecision::TimedOut,
{
    if online {
        return PollDecision::Ready;
    }
    if timeout_ms == 0 {
        return PollDecision::Sleep(interval_ms);
    }
    if elapsed_ms >= timeout_ms {
        return PollDecision::TimedOut;
    }
    // Sleep for the interval, or until the deadline, whichever is sooner.
    let remaining = timeout_ms - elapsed_ms;
    if interval_ms <= remaining {
        PollDecision::Sleep(interval_ms)
    } else {
        PollDecision::Sleep(remaining)
    }
}

} // verus!
