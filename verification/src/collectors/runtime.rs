//! Messages the event loop sends to collector workers.
use vstd::prelude::*;

verus! {

/// A message to a collector worker.
#[derive(Clone, Copy, Debug, PartialEq, Eq, Structural)]
pub enum Control {
    Refresh,
    Stop,
}

/// What a worker finds when it looks at its control channel.
#[derive(Clone, Copy, Debug, PartialEq, Eq, Structural)]
pub enum ControlPoll {
    Message(Control),
    /// Nothing arrived (or the wait timed out).
    Empty,
    /// The event loop is gone.
    Disconnected,
}

/// Whether what the control channel held ends the worker: a stop request, or the
/// event loop having gone away.
pub fn ends_worker(poll: ControlPoll) -> (r: bool)
    ensures
        r == (poll == ControlPoll::Message(Control::Stop) || poll == ControlPoll::Disconnected),
{
    match poll {
        ControlPoll::Message(Control::Stop) => true,
        ControlPoll::Disconnected => true,
        ControlPoll::Message(Control::Refresh) => false,
        ControlPoll::Empty => false,
    }
}

/// One step of draining the control channel: a stop request or a lost event loop ends
/// the drain with "stop", an empty channel ends it with "go on", and a queued refresh
/// is skipped so that a stop behind it is still seen.
pub fn drain_step(poll: ControlPoll) -> (r: Option<bool>)
    ensures
        r == (match poll {
            ControlPoll::Message(Control::Refresh) => None,
            ControlPoll::Empty => Some(false),
            _ => Some(true),
        }),
{
    if ends_worker(poll) {
        Some(true)
    } else if poll == ControlPoll::Empty {
        Some(false)
    } else {
        None
    }
}

} // verus!
