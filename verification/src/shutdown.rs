//! Ending worker threads in bounded time. Times are nanoseconds of a monotonic
//! clock.

use vstd::prelude::*;

verus! {

/// How long shutting down waits for the history to be written, all in all.
pub const HISTORY_SHUTDOWN_BUDGET: u64 = 500_000_000;

/// How long shutting down waits for the extraction worker.
pub const EXTRACTION_SHUTDOWN_BUDGET: u64 = 150_000_000;

/// How long shutting down waits for the worker of one extractor.
pub const EXTRACTOR_SHUTDOWN_BUDGET: u64 = 100_000_000;

/// How long to sleep before asking again whether a worker has finished.
pub const JOIN_POLL_INTERVAL: u64 = 5_000_000;

/// What is done with a worker that was told to end.
#[derive(Clone, Copy, Debug, PartialEq, Eq, Structural)]
pub enum JoinStep {
    /// Join it: it has finished.
    Join,
    /// Sleep for the interval, then ask again.
    Sleep,
    /// Leave it to itself: the time is up.
    Detach,
}

pub open spec fn join_after(finished: bool, now: u64, deadline: u64) -> JoinStep {
    if finished {
        JoinStep::Join
    } else if now < deadline {
        JoinStep::Sleep
    } else {
        JoinStep::Detach
    }
}

/// A worker that has finished is joined, whatever the time; another one is
/// waited for until the deadline and then detached.
pub fn join_step(finished: bool, now: u64, deadline: u64) -> (step: JoinStep)
    ensures
        step == join_after(finished, now, deadline),
{
    if finished {
        JoinStep::Join
    } else if now < deadline {
        JoinStep::Sleep
    } else {
        JoinStep::Detach
    }
}

/// Shutting down never waits past its deadline, never joins a worker that still
/// runs, and never detaches one that has finished or still has time.
pub proof fn lemma_shutdown_is_bounded(finished: bool, now: u64, deadline: u64)
    ensures
        join_after(finished, now, deadline) == JoinStep::Sleep ==> now < deadline,
        join_after(finished, now, deadline) == JoinStep::Join <==> finished,
        join_after(finished, now, deadline) == JoinStep::Detach <==> !finished && now >= deadline,
{
}

/// A worker is joined only once it has finished and waited for only before the
/// deadline.
pub proof fn lemma_a_worker_is_joined_once_finished(
    finished: bool,
    now: u64,
    deadline: u64,
    step: JoinStep,
)
    requires
        call_ensures(join_step, (finished, now, deadline), step),
    ensures
        step == JoinStep::Join <==> finished,
        step == JoinStep::Sleep <==> !finished && now < deadline,
        step == JoinStep::Detach <==> !finished && deadline <= now,
{
}

} // verus!
