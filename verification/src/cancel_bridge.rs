//! The decisions of running a future under a cancellable context: whether to
//! start it at all, and what each poll of it reports. A run fails closed: once
//! cancellation has been observed, before a poll or right after it, a value the
//! future produced is dropped and the run reports nothing.

use vstd::prelude::*;

verus! {

/// What one poll of the wrapped, cancellation-aware future reported.
#[derive(Debug, Clone, PartialEq, Eq)]
pub enum PollReport<T> {
    /// Not finished yet.
    Pending,
    /// Finished with a value.
    Completed(T),
    /// Finished with a value although cancellation had been requested.
    CancellationIgnored(T),
    /// Stopped by cancellation.
    Cancelled,
}

/// What the bridge reports for one poll.
#[derive(Debug, Clone, PartialEq, Eq)]
pub enum BridgePoll<T> {
    /// Not finished yet.
    Pending,
    /// Finished: the value, or nothing where the run was cancelled.
    Ready(Option<T>),
}

/// Whether a run starts at all: not when cancellation is already requested.
pub fn should_start(cancel_requested: bool) -> (start: bool)
    ensures
        start == !cancel_requested,
{
    !cancel_requested
}

/// Whether to ask the wrapped future to cancel before a poll: exactly when
/// cancellation is visible before that poll.
pub fn should_request_cancel(cancel_before_poll: bool) -> (request: bool)
    ensures
        request == cancel_before_poll,
{
    cancel_before_poll
}

/// The bridge's report for one poll of the wrapped future, given whether
/// cancellation was observed before the poll and right after it.
pub open spec fn bridge_report<T>(report: PollReport<T>, cancel_before_poll: bool, cancel_after_poll: bool) -> BridgePoll<T> {
    match report {
        PollReport::Pending => BridgePoll::Pending,
        PollReport::Completed(v) => BridgePoll::Ready(
            if cancel_before_poll || cancel_after_poll {
                None
            } else {
                Some(v)
            },
        ),
        PollReport::CancellationIgnored(_) => BridgePoll::Ready(None),
        PollReport::Cancelled => BridgePoll::Ready(None),
    }
}

/// The bridge's report for one poll of the wrapped future.
pub fn bridge_poll<T>(report: PollReport<T>, cancel_before_poll: bool, cancel_after_poll: bool) -> (r:
    BridgePoll<T>)
    ensures
        r == bridge_report(report, cancel_before_poll, cancel_after_poll),
{
    match report {
        PollReport::Pending => BridgePoll::Pending,
        PollReport::Completed(v) => {
            if cancel_before_poll || cancel_after_poll {
                BridgePoll::Ready(None)
            } else {
                BridgePoll::Ready(Some(v))
            }
        },
        PollReport::CancellationIgnored(_) => BridgePoll::Ready(None),
        PollReport::Cancelled => BridgePoll::Ready(None),
    }
}

/// A run never hands out a value once cancellation was observed: whatever the
/// future reports, a poll with cancellation seen before or after it yields no
/// value; and a completed poll with no cancellation seen hands out the value.
pub proof fn law_fail_closed<T>(report: PollReport<T>, before: bool, after: bool)
    ensures
        (before || after) ==> !(bridge_report(report, before, after) matches BridgePoll::Ready(Some(_))),
        (!before && !after && report is Completed) ==> bridge_report(report, before, after)
            == BridgePoll::Ready(Some(report->Completed_0)),
{
}

} // verus!
