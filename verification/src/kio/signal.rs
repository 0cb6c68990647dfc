//! Signals that were received.

use vstd::prelude::*;

verus! {

/// A signal that was received and not yet seen.
#[derive(Clone, Copy, Debug, PartialEq, Eq, Structural)]
pub struct SignalFlag {
    pub fired: bool,
}

impl SignalFlag {
    /// A signal that was not received.
    pub fn new() -> (f: Self)
        ensures
            !f.fired,
    {
        SignalFlag { fired: false }
    }

    /// The signal is received.
    pub fn fire(&mut self)
        ensures
            final(self).fired,
    {
        self.fired = true;
    }
}

/// Whether the signal was received since the last time this was asked. Asking
/// forgets it.
pub fn sigusr1_received(flag: &mut SignalFlag) -> (received: bool)
    ensures
        received == old(flag).fired,
        !final(flag).fired,
{
    let received: bool = flag.fired;
    flag.fired = false;
    received
}

} // verus!
