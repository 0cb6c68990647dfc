//! Writing to a stream of a multiplexed connection, held back while the send
//! window underneath is full.

use vstd::prelude::*;

verus! {

/// How long the waiter waits for a signal before it looks at the window by
/// itself, in milliseconds.
pub const WAITER_MS: u64 = 2;

/// How long a writer that finds a waiter waits before it looks again, in
/// milliseconds.
pub const RECHECK_MS: u64 = 1;

/// What came of handing data to the stream.
#[derive(Clone, Copy, Debug, PartialEq, Eq, Structural)]
pub enum StreamWrite {
    /// So many bytes were taken.
    Wrote(usize),
    /// The stream is closed.
    Closed,
    /// Something else went wrong.
    Failed,
}

/// Why a write failed.
#[derive(Clone, Copy, Debug, PartialEq, Eq, Structural)]
pub enum SmuxIoError {
    BrokenPipe,
    ConnectionReset,
}

/// How a writer that is held back gets going again.
#[derive(Clone, Copy, Debug, PartialEq, Eq, Structural)]
pub enum Parked {
    /// A waiter is started for it.
    Waiter,
    /// There is a waiter: look again in a moment.
    Recheck,
}

/// Whether a writer is held back while `wait_send` packets wait.
pub open spec fn holds_back(window: Option<usize>, wait_send: usize) -> bool {
    match window {
        Some(w) => wait_send >= w,
        None => false,
    }
}

/// Whether a second look wakes the writer: there is room, or the waiter is gone.
pub open spec fn second_look_wakes(window: Option<usize>, armed: bool, wait_send: usize) -> bool {
    !holds_back(window, wait_send) || !armed
}

/// The writing end of a stream.
pub struct SmuxIo {
    snd_wnd: Option<usize>,
    armed: bool,
}

impl SmuxIo {
    /// The send window that holds writers back, if any does.
    pub closed spec fn window(&self) -> Option<usize> {
        self.snd_wnd
    }

    /// Whether a waiter is there.
    pub closed spec fn armed(&self) -> bool {
        self.armed
    }

    /// A stream whose writers are never held back.
    pub fn new() -> (s: Self)
        ensures
            s.window() is None,
            !s.armed(),
    {
        SmuxIo { snd_wnd: None, armed: false }
    }

    /// A stream whose writers are held back while `snd_wnd` packets or more
    /// wait to be sent.
    pub fn with_backpressure(snd_wnd: usize) -> (s: Self)
        ensures
            s.window() == Some(snd_wnd),
            !s.armed(),
    {
        SmuxIo { snd_wnd: Some(snd_wnd), armed: false }
    }

    /// Whether a writer is held back while `wait_send` packets wait, and how it
    /// gets going again. There is at most one waiter.
    pub fn hold_back(&mut self, wait_send: usize) -> (p: Option<Parked>)
        ensures
            p == (if !holds_back(old(self).window(), wait_send) {
                None
            } else if old(self).armed() {
                Some(Parked::Recheck)
            } else {
                Some(Parked::Waiter)
            }),
            final(self).window() == old(self).window(),
            final(self).armed() == (old(self).armed() || p is Some),
    {
        let held: bool = match self.snd_wnd {
            Some(w) => wait_send >= w,
            None => false,
        };
        if !held {
            return None;
        }
        if self.armed {
            return Some(Parked::Recheck);
        }
        self.armed = true;
        Some(Parked::Waiter)
    }

    /// The waiter has had its signal or its time: whether it wakes the writer
    /// and is done.
    pub fn waiter_done(&mut self, wait_send: usize) -> (wake: bool)
        ensures
            wake == !holds_back(old(self).window(), wait_send),
            final(self).window() == old(self).window(),
            final(self).armed() == (old(self).armed() && !wake),
    {
        let wake: bool = match self.snd_wnd {
            Some(w) => wait_send < w,
            None => true,
        };
        if wake {
            self.armed = false;
        }
        wake
    }

    /// The moment after which a held-back writer looks again is over: whether
    /// it is woken.
    pub fn recheck(&self, wait_send: usize) -> (wake: bool)
        ensures
            wake == second_look_wakes(self.window(), self.armed(), wait_send),
    {
        let room: bool = match self.snd_wnd {
            Some(w) => wait_send < w,
            None => true,
        };
        room || !self.armed
    }

    /// What the writer gets once the stream was asked. Where bytes were taken
    /// the driver of the connection is woken.
    pub fn wrote(r: StreamWrite) -> (w: Result<usize, SmuxIoError>)
        ensures
            w == (match r {
                StreamWrite::Wrote(n) => Ok::<usize, SmuxIoError>(n),
                StreamWrite::Closed => Err::<usize, SmuxIoError>(SmuxIoError::BrokenPipe),
                StreamWrite::Failed => Err::<usize, SmuxIoError>(SmuxIoError::ConnectionReset),
            }),
    {
        match r {
            StreamWrite::Wrote(n) => Ok(n),
            StreamWrite::Closed => Err(SmuxIoError::BrokenPipe),
            StreamWrite::Failed => Err(SmuxIoError::ConnectionReset),
        }
    }
}

/// A writer that found a waiter there is not forgotten: its second look wakes it
/// where the window has room, and also where the waiter has gone in the
/// meantime. So it stays held back only while the window is full and a waiter
/// watches it.
pub proof fn law_held_back_writer_is_woken(window: Option<usize>, armed: bool, wait_send: usize)
    ensures
        !second_look_wakes(window, armed, wait_send) ==> holds_back(window, wait_send) && armed,
        !holds_back(window, wait_send) ==> second_look_wakes(window, armed, wait_send),
{
}

} // verus!
