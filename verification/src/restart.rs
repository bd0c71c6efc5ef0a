//! The life of the process around the bridge: a run that failed is tried
//! again after a fixed delay, until a shutdown is requested.

use vstd::prelude::*;
use crate::config::Interval;

verus! {

/// How long the process waits before it starts the bridge again, in
/// seconds.
pub const RESTART_DELAY_SECS: u64 = 60;

/// The delay before a restart.
pub open spec fn restart_delay() -> Interval {
    Interval { secs: RESTART_DELAY_SECS, nanos: 0 }
}

/// What the process has just seen.
#[derive(Clone, Copy, Debug, PartialEq, Eq, Structural)]
pub enum Outcome {
    /// The process came up.
    Boot,
    /// The bridge could not be started, or its run ended with an error.
    Failed,
    /// The run of the bridge ended well.
    Finished,
    /// The delay before a restart is over.
    DelayElapsed,
}

/// What the process does next.
#[derive(Clone, Copy, Debug, PartialEq, Eq, Structural)]
pub enum Directive {
    /// Start the bridge, with a new connection and a new registry.
    Start,
    /// Wait this long, or until a shutdown is requested, whichever is first.
    Wait(Interval),
    /// Leave, with success.
    Exit,
}

/// What follows `outcome`. A requested shutdown ends the process at once,
/// also in the middle of a delay. Else a failure is followed by the delay
/// and the delay by a new start, and a run that ended well ends the process.
pub open spec fn directive(outcome: Outcome, cancelled: bool) -> Directive {
    if cancelled {
        Directive::Exit
    } else {
        match outcome {
            Outcome::Boot => Directive::Start,
            Outcome::Failed => Directive::Wait(restart_delay()),
            Outcome::Finished => Directive::Exit,
            Outcome::DelayElapsed => Directive::Start,
        }
    }
}

/// Tells what the process does after `outcome`, given whether a shutdown
/// has been requested.
pub fn supervise(outcome: Outcome, cancelled: bool) -> (next: Directive)
    ensures
        next == directive(outcome, cancelled),
{
    if cancelled {
        return Directive::Exit;
    }
    match outcome {
        Outcome::Boot => Directive::Start,
        Outcome::Failed => Directive::Wait(Interval { secs: RESTART_DELAY_SECS, nanos: 0 }),
        Outcome::Finished => Directive::Exit,
        Outcome::DelayElapsed => Directive::Start,
    }
}

} // verus!
