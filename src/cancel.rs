//! The cancellation flag that a running guest script polls.

use vstd::prelude::*;

verus! {

/// Whether the script that is running, if any, has been asked to stop.
#[derive(Clone, Copy, Debug, PartialEq, Eq, Structural)]
pub enum CancellationFlag {
    Running,
    StopRequested,
}

/// What the periodic hook inside a running script does next.
#[derive(Clone, Copy, Debug, PartialEq, Eq, Structural)]
pub enum HookAction {
    /// Let the guest go on.
    Continue,
    /// Raise an error in the guest so that the execution unwinds.
    Abort,
}

impl CancellationFlag {
    /// The flag as it is before any execution: `Running`.
    pub fn new() -> (r: CancellationFlag)
        ensures
            r == CancellationFlag::Running,
    {
        CancellationFlag::Running
    }

    /// Forces `Running`, whatever the flag held before.
    pub fn start(&mut self)
        ensures
            *final(self) == CancellationFlag::Running,
    {
        *self = CancellationFlag::Running;
    }

    /// Asks the running script to stop; harmless when it already was asked.
    pub fn stop(&mut self)
        ensures
            *final(self) == CancellationFlag::StopRequested,
    {
        *self = CancellationFlag::StopRequested;
    }

    pub fn is_stop_requested(&self) -> (r: bool)
        ensures
            r == (*self == CancellationFlag::StopRequested),
    {
        match self {
            CancellationFlag::Running => false,
            CancellationFlag::StopRequested => true,
        }
    }

    /// The decision the hook takes when it observes this flag.
    pub fn hook(&self) -> (r: HookAction)
        ensures
            r == HookAction::Abort <==> *self == CancellationFlag::StopRequested,
    {
        if self.is_stop_requested() {
            HookAction::Abort
        } else {
            HookAction::Continue
        }
    }
}

/// Resets the flag before a new script starts, so that a stop asked of an
/// earlier run never reaches this one.
pub fn start_file(flag: &mut CancellationFlag)
    ensures
        *final(flag) == CancellationFlag::Running,
{
    flag.start();
}

/// Asks the script that is running to stop at its next hook check.
pub fn stop_file(flag: &mut CancellationFlag)
    ensures
        *final(flag) == CancellationFlag::StopRequested,
{
    flag.stop();
}

} // verus!
