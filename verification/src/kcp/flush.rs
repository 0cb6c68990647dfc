//! When the protocol is driven: the deadlines of the flush loop.
//!
//! Times are nanoseconds on a clock that only goes forward.

use vstd::prelude::*;

verus! {

/// Nanoseconds of a millisecond.
pub const MS: u64 = 1_000_000;

/// Longest wait, in milliseconds, before the first upkeep after activity.
pub const MAX_IDLE_UPDATE_MS: u64 = 100;

/// Longest wait, in milliseconds, while something is not acknowledged.
pub const ACTIVE_UPDATE_MAX_MS: u64 = 10;

/// How long, in milliseconds, a link stays armed after its last upkeep.
pub const IDLE_PARK_GRACE_MS: u64 = 1000;

/// Times up to which deadlines can be counted.
pub open spec fn clock_ok(now: u64) -> bool {
    now + IDLE_PARK_GRACE_MS * MS <= u64::MAX
}

/// `x`, but no less than `lo` and no more than `hi`.
pub open spec fn clamped(x: u64, lo: u64, hi: u64) -> u64 {
    if x < lo {
        lo
    } else if x > hi {
        hi
    } else {
        x
    }
}

fn clamp(x: u64, lo: u64, hi: u64) -> (r: u64)
    ensures
        r == clamped(x, lo, hi),
{
    if x < lo {
        lo
    } else if x > hi {
        hi
    } else {
        x
    }
}

/// Where the flush loop stands. Without a deadline it waits for activity only.
#[derive(Clone, Copy, Debug, PartialEq, Eq, Structural)]
pub struct FlushState {
    /// When the protocol is driven next.
    pub next_deadline: Option<u64>,
    /// The last upkeep found nothing to do; the deadline is that of the grace
    /// time.
    pub idle_candidate: bool,
}

/// What the flush loop does next.
#[derive(Clone, Copy, Debug, PartialEq, Eq, Structural)]
pub enum FlushStep {
    /// Wait again.
    Wait,
    /// Drive the protocol now, then report with [`FlushState::flushed`].
    Flush,
}

impl FlushState {
    /// The start: the protocol is driven once at once.
    pub fn start(now: u64) -> (s: Self)
        ensures
            s == (FlushState { next_deadline: Some(now), idle_candidate: false }),
    {
        FlushState { next_deadline: Some(now), idle_candidate: false }
    }

    /// How long to wait for activity at most; `None` is without end.
    pub fn wait(&self, now: u64) -> (w: Option<u64>)
        ensures
            w == (match self.next_deadline {
                None => None,
                Some(d) => Some(
                    if d > now {
                        (d - now) as u64
                    } else {
                        0
                    },
                ),
            }),
    {
        match self.next_deadline {
            None => None,
            Some(d) => Some(
                if d > now {
                    d - now
                } else {
                    0
                },
            ),
        }
    }

    /// The wait is over, because of activity or not. Activity ends the grace
    /// time: its deadline says nothing about what was just sent.
    pub fn woken(&mut self, was_notified: bool)
        ensures
            *final(self) == (if was_notified {
                after_activity(*old(self))
            } else {
                *old(self)
            }),
    {
        if was_notified && self.idle_candidate {
            self.next_deadline = None;
        }
        if was_notified {
            self.idle_candidate = false;
        }
    }

    /// Whether the protocol is driven at the time `now`. Without a deadline one
    /// is set, an interval of the protocol ahead.
    pub fn due(&mut self, now: u64, interval_ms: u64) -> (step: FlushStep)
        requires
            clock_ok(now),
        ensures
            *final(self) == after_due(*old(self), now, interval_ms),
            step == (match old(self).next_deadline {
                Some(d) => if now < d {
                    FlushStep::Wait
                } else {
                    FlushStep::Flush
                },
                None => FlushStep::Wait,
            }),
    {
        match self.next_deadline {
            Some(d) => if now < d {
                FlushStep::Wait
            } else {
                FlushStep::Flush
            },
            None => {
                let ms: u64 = clamp(interval_ms, 1, MAX_IDLE_UPDATE_MS);
                self.next_deadline = Some(now + ms * MS);
                FlushStep::Wait
            },
        }
    }

    /// The protocol was driven at the time `now`: it asks to be driven again in
    /// `delay_ms`, and `wait_send` segments are not acknowledged. While there
    /// are any, the next time is near; without any, the loop stays armed for the
    /// grace time, and then waits for activity only.
    pub fn flushed(&mut self, now: u64, delay_ms: u64, wait_send: usize)
        requires
            clock_ok(now),
        ensures
            *final(self) == after_flush(*old(self), now, delay_ms, wait_send),
    {
        if wait_send > 0 {
            self.idle_candidate = false;
            let ms: u64 = clamp(delay_ms, 1, ACTIVE_UPDATE_MAX_MS);
            self.next_deadline = Some(now + ms * MS);
        } else if self.idle_candidate {
            self.idle_candidate = false;
            self.next_deadline = None;
        } else {
            self.idle_candidate = true;
            self.next_deadline = Some(now + IDLE_PARK_GRACE_MS * MS);
        }
    }
}

/// What `due` makes of a state.
pub open spec fn after_due(s: FlushState, now: u64, interval_ms: u64) -> FlushState {
    match s.next_deadline {
        Some(_) => s,
        None => FlushState {
            next_deadline: Some((now + clamped(interval_ms, 1, MAX_IDLE_UPDATE_MS) * MS) as u64),
            ..s
        },
    }
}

/// What `woken` makes of a state when there was activity.
pub open spec fn after_activity(s: FlushState) -> FlushState {
    FlushState {
        next_deadline: if s.idle_candidate {
            None
        } else {
            s.next_deadline
        },
        idle_candidate: false,
    }
}

/// What `flushed` makes of a state.
pub open spec fn after_flush(s: FlushState, now: u64, delay_ms: u64, wait_send: usize) -> FlushState {
    if wait_send > 0 {
        FlushState {
            next_deadline: Some((now + clamped(delay_ms, 1, ACTIVE_UPDATE_MAX_MS) * MS) as u64),
            idle_candidate: false,
        }
    } else if s.idle_candidate {
        FlushState { next_deadline: None, idle_candidate: false }
    } else {
        FlushState {
            next_deadline: Some((now + IDLE_PARK_GRACE_MS * MS) as u64),
            idle_candidate: true,
        }
    }
}

/// Retransmission is never starved: while something is not acknowledged, the
/// protocol is driven again within 10 ms.
pub proof fn law_outstanding_data_keeps_the_loop_armed(
    s: FlushState,
    now: u64,
    delay_ms: u64,
    wait_send: usize,
)
    requires
        clock_ok(now),
        wait_send > 0,
    ensures
        after_flush(s, now, delay_ms, wait_send).next_deadline is Some,
        now < after_flush(s, now, delay_ms, wait_send).next_deadline->0 <= now
            + ACTIVE_UPDATE_MAX_MS * MS,
{
}

/// Sparse traffic is not late: activity during the grace time leads to upkeep
/// within 100 ms, whatever is left of the grace time.
pub proof fn law_activity_ends_the_grace_time(
    s: FlushState,
    at: u64,
    now: u64,
    interval_ms: u64,
)
    requires
        clock_ok(at),
        clock_ok(now),
    ensures
        ({
            let graced = after_flush(s, at, 0, 0);
            graced.idle_candidate ==> {
                let armed = after_due(after_activity(graced), now, interval_ms);
                &&& armed.next_deadline is Some
                &&& now < armed.next_deadline->0 <= now + MAX_IDLE_UPDATE_MS * MS
            }
        }),
{
}

/// A link is parked only after two upkeeps in a row, the grace time apart, that
/// found nothing outstanding and no activity between them.
pub proof fn law_idle_link_parks_after_grace(
    s: FlushState,
    first: u64,
    second: u64,
    delay_ms: u64,
)
    requires
        clock_ok(first),
        clock_ok(second),
        !s.idle_candidate,
    ensures
        after_flush(s, first, delay_ms, 0).next_deadline == Some(
            (first + IDLE_PARK_GRACE_MS * MS) as u64,
        ),
        after_flush(after_flush(s, first, delay_ms, 0), second, delay_ms, 0).next_deadline is None,
{
}

} // verus!
