//! The pool of connections: who takes the next stream, when a connection is
//! redialed, and when an idle one expires.

use vstd::prelude::*;

verus! {

/// A connection whose last activity lies more than the expiry time and the
/// grace time back, both in seconds; times are in milliseconds.
pub open spec fn expired(last_activity: u64, autoexpire: u64, scavengettl: u64, now: u64) -> bool {
    now > last_activity + (autoexpire + scavengettl) * 1000
}

/// Whether a connection has been idle longer than it may be.
pub fn is_expired(last_activity: u64, autoexpire_secs: u64, scavengettl_secs: u64, now: u64) -> (b:
    bool)
    requires
        last_activity + (autoexpire_secs + scavengettl_secs) * 1000 <= u64::MAX,
    ensures
        b == expired(last_activity, autoexpire_secs, scavengettl_secs, now),
{
    let deadline: u64 = last_activity + (autoexpire_secs + scavengettl_secs) * 1000;
    now > deadline
}

/// Whether the scavenger closes a connection: it is alive, and expired. Where
/// the deadline lies beyond all time, it is not expired.
pub fn scavenge(
    dead: bool,
    last_activity: u64,
    autoexpire_secs: u64,
    scavengettl_secs: u64,
    now: u64,
) -> (close: bool)
    ensures
        close == (!dead && expired(last_activity, autoexpire_secs, scavengettl_secs, now)),
{
    if dead {
        return false;
    }
    let window: u128 = (autoexpire_secs as u128 + scavengettl_secs as u128) * 1000;
    let deadline: u128 = last_activity as u128 + window;
    if deadline > u64::MAX as u128 {
        return false;
    }
    is_expired(last_activity, autoexpire_secs, scavengettl_secs, now)
}

/// Takes turns among connections.
#[derive(Clone, Copy, Debug, PartialEq, Eq, Structural)]
pub struct RoundRobin {
    pub next: usize,
}

impl RoundRobin {
    /// The connection whose turn it is, of `count`; then it is the next one's
    /// turn.
    pub fn pick(&mut self, count: usize) -> (idx: usize)
        requires
            count > 0,
        ensures
            idx == old(self).next as nat % count as nat,
            idx < count,
            final(self).next == (if old(self).next == usize::MAX {
                0
            } else {
                old(self).next + 1
            }),
    {
        let idx: usize = self.next % count;
        self.next = if self.next == usize::MAX {
            0
        } else {
            self.next + 1
        };
        idx
    }
}

/// Turns go round: until the counter wraps, `count` picks in a row reach each
/// connection exactly once.
pub proof fn law_round_robin_is_fair(start: nat, count: nat, i: nat, j: nat)
    requires
        count > 0,
        i < count,
        j < count,
        i != j,
    ensures
        (start + i) % count != (start + j) % count,
{
    if (start + i) % count == (start + j) % count {
        let a = (start + i) as int;
        let b = (start + j) as int;
        let c = count as int;
        vstd::arithmetic::div_mod::lemma_fundamental_div_mod(a, c);
        vstd::arithmetic::div_mod::lemma_fundamental_div_mod(b, c);
        let d = a / c - b / c;
        assert(a - b == c * d) by (nonlinear_arith)
            requires
                a == c * (a / c) + a % c,
                b == c * (b / c) + b % c,
                a % c == b % c,
                d == a / c - b / c,
        ;
        assert(d == 0) by (nonlinear_arith)
            requires
                a - b == c * d,
                -c < a - b < c,
                c > 0,
        ;
        assert(c * d == 0) by (nonlinear_arith)
            requires
                d == 0,
        ;
    }
}

/// What to do next to open a stream on a connection that may have died.
#[derive(Clone, Copy, Debug, PartialEq, Eq, Structural)]
pub enum OpenStep {
    /// Look whether the connection is dead.
    Probe { attempt: u8 },
    /// Dial it again.
    Reconnect { attempt: u8 },
    /// Open a stream on it.
    Open { attempt: u8 },
    /// A stream is open.
    Opened,
    /// Leave the caller without a stream.
    GiveUp,
}

/// How often opening a stream is tried.
pub const OPEN_ATTEMPTS: u8 = 2;

impl OpenStep {
    /// No more attempts than there are.
    pub open spec fn wf(self) -> bool {
        match self {
            OpenStep::Probe { attempt } => attempt < OPEN_ATTEMPTS,
            OpenStep::Reconnect { attempt } => attempt < OPEN_ATTEMPTS,
            OpenStep::Open { attempt } => attempt < OPEN_ATTEMPTS,
            _ => true,
        }
    }

    /// Steps that may still follow.
    pub open spec fn steps_left(self) -> int {
        match self {
            OpenStep::Probe { attempt } => 3 * (OPEN_ATTEMPTS - attempt),
            OpenStep::Reconnect { attempt } => 3 * (OPEN_ATTEMPTS - attempt) - 1,
            OpenStep::Open { attempt } => 3 * (OPEN_ATTEMPTS - attempt) - 2,
            _ => 0,
        }
    }

    /// The first step.
    pub fn start() -> (s: Self)
        ensures
            s == (OpenStep::Probe { attempt: 0 }),
            s.wf(),
    {
        OpenStep::Probe { attempt: 0 }
    }

    /// The step after this one, where `ok` is its outcome: the connection is
    /// alive, the dialing succeeded, the stream opened. A dead connection is
    /// redialed; where that fails the caller gets no stream; where the stream
    /// does not open, the connection is looked at again, if an attempt is left.
    pub fn next(self, ok: bool) -> (s: Self)
        requires
            self.wf(),
        ensures
            s == (match self {
                OpenStep::Probe { attempt } => if ok {
                    OpenStep::Open { attempt }
                } else {
                    OpenStep::Reconnect { attempt }
                },
                OpenStep::Reconnect { attempt } => if ok {
                    OpenStep::Open { attempt }
                } else {
                    OpenStep::GiveUp
                },
                OpenStep::Open { attempt } => if ok {
                    OpenStep::Opened
                } else if attempt + 1 < OPEN_ATTEMPTS {
                    OpenStep::Probe { attempt: (attempt + 1) as u8 }
                } else {
                    OpenStep::GiveUp
                },
                OpenStep::Opened => OpenStep::Opened,
                OpenStep::GiveUp => OpenStep::GiveUp,
            }),
            s.wf(),
            self.steps_left() > 0 ==> s.steps_left() < self.steps_left(),
    {
        match self {
            OpenStep::Probe { attempt } => if ok {
                OpenStep::Open { attempt }
            } else {
                OpenStep::Reconnect { attempt }
            },
            OpenStep::Reconnect { attempt } => if ok {
                OpenStep::Open { attempt }
            } else {
                OpenStep::GiveUp
            },
            OpenStep::Open { attempt } => if ok {
                OpenStep::Opened
            } else if attempt + 1 < OPEN_ATTEMPTS {
                OpenStep::Probe { attempt: attempt + 1 }
            } else {
                OpenStep::GiveUp
            },
            OpenStep::Opened => OpenStep::Opened,
            OpenStep::GiveUp => OpenStep::GiveUp,
        }
    }
}

} // verus!
