//! Drives a multiplexed connection: reading, writing what the streams have
//! queued, keeping the connection alive and clearing away dead streams.
//!
//! A stream's end is announced by a FIN frame. It counts as announced only once
//! the bytes that carry it have been written.

use vstd::prelude::*;

verus! {

/// How long a pass waits for the transport, in milliseconds.
pub const RUN_POLL_MS: u64 = 10;

/// How many passes lie between two looks at the health of the connection.
pub const HEALTH_INTERVAL: u32 = 100;

/// How long a stream that was closed here may wait for its other end, in
/// seconds.
pub const REAP_LINGER: u64 = 30;

/// The settings of a multiplexed session.
#[derive(Clone, Copy, Debug, PartialEq, Eq, Structural)]
pub struct SmuxConfig {
    pub version: u8,
    pub max_receive_buffer: usize,
    pub max_stream_buffer: usize,
    pub max_frame_size: usize,
    pub keepalive_interval: u64,
    pub keepalive_timeout: u64,
}

/// Why a stream cannot be opened or accepted.
#[derive(Clone, Copy, Debug, PartialEq, Eq, Structural)]
pub enum SessionError {
    /// The session is closed, or something else drives it.
    SessionClosed,
}

/// A multiplexed connection and whether something drives it.
pub struct SmuxConn {
    client: bool,
    driven: bool,
}

/// What becomes of a wait for an incoming stream.
#[derive(Clone, Copy, Debug, PartialEq, Eq, Structural)]
pub enum AcceptStep {
    /// The session is closed.
    Closed,
    /// This stream was accepted.
    Stream(u32),
    /// The stream is gone already: look for the next one.
    Again,
    /// None is there: wait until one comes in.
    Wait,
}

/// What came of reading from the transport.
#[derive(Clone, Copy, Debug, PartialEq, Eq, Structural)]
pub enum ReadEvent {
    /// The transport has ended.
    Eof,
    /// The transport failed.
    Failed,
    /// Nothing came in time.
    TimedOut,
    /// Data came; the flag says whether the session could make sense of it.
    Data(bool),
}

/// What follows on a read.
#[derive(Clone, Copy, Debug, PartialEq, Eq, Structural)]
pub enum AfterRead {
    /// Write what is queued.
    Flush,
    /// Close the session and end.
    Close,
    /// End with an error, and leave the session as it is.
    Fail,
}

/// What the health of a connection asks for.
#[derive(Clone, Copy, Debug, PartialEq, Eq, Structural)]
pub enum Health {
    /// Nothing.
    Fine,
    /// Send a keepalive frame.
    Keepalive,
    /// The other side is gone: close the session and end.
    TimedOut,
}

/// Bytes that are written in one go, and the streams whose FIN frames are among
/// them.
pub struct Batch {
    pub bytes: Vec<u8>,
    pub fins: Vec<u32>,
}

/// What follows on a write.
pub struct AfterWrite {
    /// The streams whose end is announced now.
    pub announced: Vec<u32>,
    /// Close the session and end.
    pub end: bool,
}

impl SmuxConn {
    /// Whether this is the side that opens streams.
    pub closed spec fn is_client(&self) -> bool {
        self.client
    }

    /// Whether something drives the connection.
    pub closed spec fn is_driven(&self) -> bool {
        self.driven
    }

    /// A connection that nothing drives yet.
    pub fn new(is_client: bool) -> (c: Self)
        ensures
            c.is_client() == is_client,
            !c.is_driven(),
    {
        SmuxConn { client: is_client, driven: false }
    }

    /// Whether incoming streams are queued for accepting: at the side that does
    /// not open any.
    pub fn queues_accepts(&self) -> (b: bool)
        ensures
            b == !self.is_client(),
    {
        !self.client
    }

    /// Takes up driving the connection; only one may.
    pub fn drive(&mut self) -> (r: Result<(), SessionError>)
        ensures
            r == (if old(self).is_driven() {
                Err::<(), SessionError>(SessionError::SessionClosed)
            } else {
                Ok::<(), SessionError>(())
            }),
            final(self).is_driven(),
            final(self).is_client() == old(self).is_client(),
    {
        if self.driven {
            return Err(SessionError::SessionClosed);
        }
        self.driven = true;
        Ok(())
    }

    /// The next step of a wait for an incoming stream: `first` is the stream
    /// that was taken off the queue, and `live` says whether it still exists.
    pub fn accept(closed: bool, first: Option<u32>, live: bool) -> (s: AcceptStep)
        ensures
            s == (if closed {
                AcceptStep::Closed
            } else {
                match first {
                    Some(id) => if live {
                        AcceptStep::Stream(id)
                    } else {
                        AcceptStep::Again
                    },
                    None => AcceptStep::Wait,
                }
            }),
    {
        if closed {
            return AcceptStep::Closed;
        }
        match first {
            Some(id) => if live {
                AcceptStep::Stream(id)
            } else {
                AcceptStep::Again
            },
            None => AcceptStep::Wait,
        }
    }
}

/// The bytes of several headers, one after the other.
pub open spec fn all_headers(headers: Seq<Vec<u8>>) -> Seq<u8>
    decreases headers.len(),
{
    if headers.len() == 0 {
        Seq::empty()
    } else {
        all_headers(headers.drop_last()) + headers.last()@
    }
}

impl Batch {
    /// Adds the FIN frames of the streams in `reaped`; `headers` holds one frame
    /// for each of them.
    pub fn add_fins(&mut self, reaped: &Vec<u32>, headers: &Vec<Vec<u8>>)
        requires
            reaped@.len() == headers@.len(),
        ensures
            final(self).bytes@ == old(self).bytes@ + all_headers(headers@),
            final(self).fins@ == old(self).fins@ + reaped@,
    {
        let ghost bytes0 = self.bytes@;
        let ghost fins0 = self.fins@;
        let mut i: usize = 0;
        assert(headers@.take(0) =~= Seq::empty());
        assert(bytes0 + all_headers(headers@.take(0)) =~= bytes0);
        assert(fins0 + reaped@.take(0) =~= fins0);
        while i < headers.len()
            invariant
                i <= headers@.len(),
                reaped@.len() == headers@.len(),
                self.bytes@ == bytes0 + all_headers(headers@.take(i as int)),
                self.fins@ == fins0 + reaped@.take(i as int),
            decreases headers@.len() - i,
        {
            crate::wire::push_slice(&mut self.bytes, headers[i].as_slice());
            self.fins.push(reaped[i]);
            proof {
                let h = headers@.take(i + 1);
                assert(h.drop_last() =~= headers@.take(i as int));
                assert(bytes0 + (all_headers(h.drop_last()) + h.last()@) =~= (bytes0 + all_headers(
                    h.drop_last(),
                )) + h.last()@);
                assert(fins0 + reaped@.take(i + 1) =~= (fins0 + reaped@.take(i as int)).push(
                    reaped@[i as int],
                ));
            }
            i = i + 1;
        }
        assert(headers@.take(headers@.len() as int) =~= headers@);
        assert(reaped@.take(reaped@.len() as int) =~= reaped@);
    }
}

/// The streams whose end is announced by a batch: all that it carries where it
/// was written, none where it was empty or the write failed.
pub open spec fn announced_by(bytes: Seq<u8>, fins: Seq<u32>, written: bool) -> Seq<u32> {
    if bytes.len() > 0 && written {
        fins
    } else {
        Seq::empty()
    }
}

/// The single driver of a connection: each pass reads, writes, and now and then
/// looks at the health of the connection.
#[derive(Clone, Copy, Debug, PartialEq, Eq, Structural)]
pub struct RunLoop {
    /// How many passes it is until the next look.
    pub health: u32,
}

impl RunLoop {
    /// A driver at its first pass, which looks at the health.
    pub fn start() -> (l: Self)
        ensures
            l.health == 0,
    {
        RunLoop { health: 0 }
    }

    /// What follows on the read of this pass.
    pub fn read_done(&self, event: ReadEvent) -> (next: AfterRead)
        ensures
            next == (match event {
                ReadEvent::Eof => AfterRead::Close,
                ReadEvent::Failed => AfterRead::Close,
                ReadEvent::TimedOut => AfterRead::Flush,
                ReadEvent::Data(true) => AfterRead::Flush,
                ReadEvent::Data(false) => AfterRead::Fail,
            }),
    {
        match event {
            ReadEvent::Eof => AfterRead::Close,
            ReadEvent::Failed => AfterRead::Close,
            ReadEvent::TimedOut => AfterRead::Flush,
            ReadEvent::Data(ok) => if ok {
                AfterRead::Flush
            } else {
                AfterRead::Fail
            },
        }
    }

    /// Whether this pass clears away dead streams and looks at the health.
    pub fn looks(&self) -> (b: bool)
        ensures
            b == (self.health == 0),
    {
        self.health == 0
    }

    /// What follows on the write of this pass. An empty batch is not written.
    pub fn write_done(&self, batch: Batch, written: bool) -> (next: AfterWrite)
        ensures
            next.announced@ == announced_by(batch.bytes@, batch.fins@, written),
            next.end == (batch.bytes@.len() > 0 && !written),
    {
        if batch.bytes.len() == 0 {
            return AfterWrite { announced: Vec::new(), end: false };
        }
        if !written {
            return AfterWrite { announced: Vec::new(), end: true };
        }
        AfterWrite { announced: batch.fins, end: false }
    }

    /// Ends the pass. In a pass that looks, `timed_out` and `due` say what was
    /// seen: that the other side is gone, and that a keepalive frame is due.
    pub fn end_pass(&mut self, timed_out: bool, due: bool) -> (h: Health)
        requires
            old(self).health <= HEALTH_INTERVAL,
        ensures
            final(self).health <= HEALTH_INTERVAL,
            h == health_of(old(self).health == 0, timed_out, due),
            final(self).health == (if h == Health::TimedOut {
                HEALTH_INTERVAL
            } else {
                next_health(old(self).health)
            }),
    {
        let mut h = Health::Fine;
        if self.health == 0 {
            self.health = HEALTH_INTERVAL;
            if timed_out {
                return Health::TimedOut;
            }
            if due {
                h = Health::Keepalive;
            }
        }
        self.health = self.health - 1;
        h
    }
}

/// What the health asks for.
pub open spec fn health_of(looks: bool, timed_out: bool, due: bool) -> Health {
    if !looks {
        Health::Fine
    } else if timed_out {
        Health::TimedOut
    } else if due {
        Health::Keepalive
    } else {
        Health::Fine
    }
}

/// The count of passes after a pass.
pub open spec fn next_health(health: u32) -> u32 {
    if health == 0 {
        (HEALTH_INTERVAL - 1) as u32
    } else {
        (health - 1) as u32
    }
}

/// The writing driver of a connection whose reads run by themselves: it looks at
/// the health before it writes, and a write that fails does not end it.
#[derive(Clone, Copy, Debug, PartialEq, Eq, Structural)]
pub struct FlushLoop {
    /// How many passes it is until the next look.
    pub health: u32,
}

impl FlushLoop {
    /// A driver at its first pass, which looks at the health.
    pub fn start() -> (l: Self)
        ensures
            l.health == 0,
    {
        FlushLoop { health: 0 }
    }

    /// Whether this pass clears away dead streams and looks at the health.
    pub fn looks(&self) -> (b: bool)
        ensures
            b == (self.health == 0),
    {
        self.health == 0
    }

    /// Looks at the health, before the write: see [`RunLoop::end_pass`].
    pub fn begin_write(&mut self, timed_out: bool, due: bool) -> (h: Health)
        requires
            old(self).health <= HEALTH_INTERVAL,
        ensures
            final(self).health <= HEALTH_INTERVAL,
            h == health_of(old(self).health == 0, timed_out, due),
            final(self).health == (if h == Health::TimedOut {
                HEALTH_INTERVAL
            } else {
                next_health(old(self).health)
            }),
    {
        let mut count = RunLoop { health: self.health };
        let h = count.end_pass(timed_out, due);
        self.health = count.health;
        h
    }

    /// The streams whose end is announced by the write of this pass.
    pub fn write_done(&self, batch: Batch, written: bool) -> (announced: Vec<u32>)
        ensures
            announced@ == announced_by(batch.bytes@, batch.fins@, written),
    {
        if batch.bytes.len() == 0 || !written {
            return Vec::new();
        }
        batch.fins
    }
}

/// What follows on a read of the reading driver: data that the session cannot
/// make sense of does not end it.
pub fn read_task_done(event: ReadEvent) -> (next: AfterRead)
    ensures
        next == (match event {
            ReadEvent::Eof => AfterRead::Close,
            ReadEvent::Failed => AfterRead::Close,
            ReadEvent::TimedOut => AfterRead::Flush,
            ReadEvent::Data(_) => AfterRead::Flush,
        }),
{
    match event {
        ReadEvent::Eof => AfterRead::Close,
        ReadEvent::Failed => AfterRead::Close,
        ReadEvent::TimedOut => AfterRead::Flush,
        ReadEvent::Data(_) => AfterRead::Flush,
    }
}

/// The count of passes after `n` passes.
pub open spec fn health_after(health: u32, n: nat) -> u32
    decreases n,
{
    if n == 0 {
        health
    } else {
        next_health(health_after(health, (n - 1) as nat))
    }
}

/// A driver looks at the health in its first pass and in every hundredth after
/// it, and in no other.
pub proof fn law_health_is_looked_at_regularly(n: nat)
    ensures
        (health_after(0, n) == 0) == (n % HEALTH_INTERVAL as nat == 0),
        health_after(0, n) <= HEALTH_INTERVAL,
{
    lemma_health_after(n);
}

proof fn lemma_health_after(n: nat)
    ensures
        health_after(0, n) == (if n % 100 == 0 {
            0
        } else {
            100 - n % 100
        }),
    decreases n,
{
    if n > 0 {
        lemma_health_after((n - 1) as nat);
        assert(n % 100 == (if (n - 1) % 100 == 99 {
            0
        } else {
            (n - 1) % 100 + 1
        }));
    }
}

/// No FIN frame is lost: the end of a stream is announced only where the write
/// of the bytes that carry its frame succeeded, and then all of them are.
pub proof fn law_fins_are_announced_with_their_bytes(
    bytes: Seq<u8>,
    fins: Seq<u32>,
    written: bool,
    id: u32,
)
    ensures
        announced_by(bytes, fins, written).contains(id) ==> written && bytes.len() > 0
            && fins.contains(id),
        written && bytes.len() > 0 && fins.contains(id) ==> announced_by(
            bytes,
            fins,
            written,
        ).contains(id),
        !written ==> announced_by(bytes, fins, written).len() == 0,
{
}

} // verus!
