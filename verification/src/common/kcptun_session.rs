//! A session above the encrypted transport: streams that share one connection,
//! with or without compression.

use crate::common::ratelimit::RateLimiter;
use crate::common::snappy_frame::{SnappyStreamDecoder, SnappyStreamEncoder};
use crate::kcp::config::KcpConfig;
use crate::smux::conn::{AcceptStep, SmuxConfig, SmuxConn};
use vstd::prelude::*;
use vstd::slice::slice_to_vec;

verus! {

/// How long the writer waits for something to write, in milliseconds.
pub const IDLE_WAKE_MS: u64 = 10;

/// How many bytes of frames are taken from the streams for one packet.
pub const MAX_DRAIN_BYTES: usize = 65536;

/// How many passes of the writer lie between two looks at the health of the
/// session.
pub const HEALTH_PASSES: u32 = 50;

/// How long a stream that was closed here, and has nothing left to send, may
/// wait for its other end, in nanoseconds.
pub const STREAM_LINGER: u64 = 30_000_000_000;

/// What the session sees of a stream.
#[derive(Clone, Copy, Debug, PartialEq, Eq, Structural)]
pub struct StreamState {
    pub id: u32,
    pub local_closed: bool,
    pub remote_closed: bool,
    /// Its end was announced to the other side.
    pub fin_sent: bool,
    /// Bytes that wait to be sent.
    pub pending_send: usize,
    /// Bytes that the other side would take.
    pub peer_send_window: usize,
    /// How long it has been closed here, in nanoseconds.
    pub local_closed_elapsed: Option<u64>,
}

impl StreamState {
    /// The stream has come to its end: both sides closed it and were told so, or
    /// this side closed it and the other has not answered for too long.
    pub open spec fn stale(self) -> bool {
        ||| self.local_closed && self.remote_closed && self.fin_sent
        ||| {
            &&& self.local_closed
            &&& self.pending_send == 0
            &&& self.local_closed_elapsed matches Some(e)
            &&& e >= STREAM_LINGER
        }
    }

    /// Whether the stream has come to its end: see [`StreamState::stale`].
    pub fn is_stale(&self) -> (b: bool)
        ensures
            b == self.stale(),
    {
        if self.local_closed && self.remote_closed && self.fin_sent {
            return true;
        }
        if self.local_closed && self.pending_send == 0 {
            if let Some(e) = self.local_closed_elapsed {
                return e >= STREAM_LINGER;
            }
        }
        false
    }
}

/// The numbers of the streams that have come to their end, in their order.
pub open spec fn stale_ids(streams: Seq<StreamState>) -> Seq<u32>
    decreases streams.len(),
{
    if streams.len() == 0 {
        Seq::empty()
    } else if streams.last().stale() {
        stale_ids(streams.drop_last()).push(streams.last().id)
    } else {
        stale_ids(streams.drop_last())
    }
}

/// The streams that are to be removed.
pub fn stale_streams(streams: &Vec<StreamState>) -> (ids: Vec<u32>)
    ensures
        ids@ == stale_ids(streams@),
{
    let mut ids: Vec<u32> = Vec::new();
    let mut i: usize = 0;
    while i < streams.len()
        invariant
            i <= streams@.len(),
            ids@ == stale_ids(streams@.take(i as int)),
        decreases streams@.len() - i,
    {
        assert(streams@.take(i + 1).drop_last() =~= streams@.take(i as int));
        if streams[i].is_stale() {
            ids.push(streams[i].id);
        }
        i = i + 1;
    }
    assert(streams@.take(i as int) =~= streams@);
    ids
}

/// Whether a stream has bytes to send.
pub fn has_pending(streams: &Vec<StreamState>) -> (b: bool)
    ensures
        b == !nothing_pending(streams@),
{
    let mut i: usize = 0;
    while i < streams.len()
        invariant
            i <= streams@.len(),
            forall|j: int| 0 <= j < i ==> (#[trigger] streams@[j]).pending_send == 0,
        decreases streams@.len() - i,
    {
        if streams[i].pending_send > 0 {
            return true;
        }
        i = i + 1;
    }
    false
}

/// Whether a stream has bytes to send that the other side would take.
pub fn can_send(streams: &Vec<StreamState>) -> (b: bool)
    ensures
        b == (exists|i: int|
            0 <= i < streams@.len() && (#[trigger] streams@[i]).pending_send > 0
                && streams@[i].peer_send_window > 0),
{
    let mut i: usize = 0;
    while i < streams.len()
        invariant
            i <= streams@.len(),
            forall|j: int|
                0 <= j < i ==> !((#[trigger] streams@[j]).pending_send > 0
                    && streams@[j].peer_send_window > 0),
        decreases streams@.len() - i,
    {
        if streams[i].pending_send > 0 && streams[i].peer_send_window > 0 {
            return true;
        }
        i = i + 1;
    }
    false
}

/// Whether ends of streams may be announced: not before all data has gone out
/// and was acknowledged.
pub fn allow_fin(streams: &Vec<StreamState>, wait_send: usize) -> (b: bool)
    ensures
        b == (wait_send == 0 && nothing_pending(streams@)),
{
    !has_pending(streams) && wait_send == 0
}

/// What the health of a session asks for.
#[derive(Clone, Copy, Debug, PartialEq, Eq, Structural)]
pub enum SessionHealth {
    /// Nothing.
    Fine,
    /// Send a keepalive frame.
    Keepalive,
    /// The session is dead: close it.
    Dead,
}

/// Says in which passes the writer looks at the health of the session.
#[derive(Clone, Copy, Debug, PartialEq, Eq, Structural)]
pub struct HealthCheck {
    /// Passes until the next look.
    pub left: u32,
}

impl HealthCheck {
    /// At the first pass, which looks.
    pub fn new() -> (h: Self)
        ensures
            h.left == 0,
    {
        HealthCheck { left: 0 }
    }

    /// One pass: `seen` is what is seen where it looks.
    pub fn pass(&mut self, seen: Seen) -> (h: SessionHealth)
        ensures
            h == health_seen(old(self).left, seen),
            final(self).left == next_left(old(self).left),
    {
        if self.left > 0 {
            self.left = self.left - 1;
            return SessionHealth::Fine;
        }
        self.left = HEALTH_PASSES;
        if seen.link_dead || seen.timed_out {
            return SessionHealth::Dead;
        }
        if seen.due {
            return SessionHealth::Keepalive;
        }
        SessionHealth::Fine
    }
}

/// What the health asks for in a pass with `left` passes until the next look.
pub open spec fn health_seen(left: u32, seen: Seen) -> SessionHealth {
    if left > 0 {
        SessionHealth::Fine
    } else if seen.link_dead || seen.timed_out {
        SessionHealth::Dead
    } else if seen.due {
        SessionHealth::Keepalive
    } else {
        SessionHealth::Fine
    }
}

/// The passes until the next look, after a pass.
pub open spec fn next_left(left: u32) -> u32 {
    if left > 0 {
        (left - 1) as u32
    } else {
        HEALTH_PASSES
    }
}

/// The passes until the next look, after `n` passes from the first on.
pub open spec fn left_after(n: nat) -> u32
    decreases n,
{
    if n == 0 {
        0
    } else {
        next_left(left_after((n - 1) as nat))
    }
}

/// The health is looked at in the first pass and then after every fifty passes
/// that do not look, and in no other.
pub proof fn law_every_fifty_first_pass_looks(n: nat)
    ensures
        (left_after(n) == 0) == (n % 51 == 0),
{
    lemma_left_after(n);
}

proof fn lemma_left_after(n: nat)
    ensures
        left_after(n) == (if n % 51 == 0 {
            0
        } else {
            51 - n % 51
        }),
    decreases n,
{
    if n > 0 {
        lemma_left_after((n - 1) as nat);
        assert(n % 51 == (if (n - 1) % 51 == 50 {
            0
        } else {
            (n - 1) % 51 + 1
        }));
    }
}

/// What came of reading from the connection.
#[derive(Clone, Copy, Debug, PartialEq, Eq, Structural)]
pub enum SessionRead {
    /// So many bytes came; 0 at the end.
    Data(usize),
    /// The read failed.
    Failed,
}

/// What follows on a read.
#[derive(Clone, Copy, Debug, PartialEq, Eq, Structural)]
pub enum AfterSessionRead {
    /// Take the data in.
    TakeIn,
    /// Read again.
    Again,
    /// Close the session and end.
    End,
}

/// What is seen of the connection and the streams' session in a pass that looks
/// at the health.
#[derive(Clone, Copy, Debug, PartialEq, Eq, Structural)]
pub struct Seen {
    /// The connection does not get through.
    pub link_dead: bool,
    /// The other side has been silent for too long.
    pub timed_out: bool,
    /// A keepalive frame is due.
    pub due: bool,
}

/// How a pass of the writer begins.
#[derive(Clone, Copy, Debug, PartialEq, Eq, Structural)]
pub enum PassStart {
    /// The session is dead: close it and end.
    Dead,
    /// Take frames from the streams: before them a keepalive frame where one is
    /// due, and FIN frames among them only where they are allowed.
    Go { keepalive: bool, allow_fin: bool },
}

/// What a pass of the writer makes of the frames.
pub struct PassOut {
    /// Streams that have come to their end and are removed.
    pub remove: Vec<u32>,
    /// The packet that is sent, if there is one.
    pub packet: Option<Vec<u8>>,
}

/// What follows on a write.
pub struct AfterSessionWrite {
    /// The streams whose end is announced now.
    pub announced: Vec<u32>,
    /// Close the session and end.
    pub end: bool,
    /// More waits to be sent: make the next pass at once.
    pub again: bool,
}

/// What a session is made with.
#[derive(Clone, Copy, Debug, PartialEq, Eq, Structural)]
pub struct KcptunConfig {
    /// The settings of the connection underneath.
    pub kcp: KcpConfig,
    /// The settings of the streams' session.
    pub smux: SmuxConfig,
    /// Nothing is compressed.
    pub nocomp: bool,
    /// Bytes that are sent per second at most; 0 is no limit.
    pub rate_limit: u32,
}

/// A session: whether it was given up, where its compressed streams stand, and
/// what its writer keeps from one step to the next.
pub struct KcptunSession {
    dead: bool,
    nocomp: bool,
    decoder: SnappyStreamDecoder,
    encoder: SnappyStreamEncoder,
    health: HealthCheck,
    limiter: RateLimiter,
    fins: Vec<u32>,
    accepts: bool,
}

/// One end of a session as far as its data goes.
pub struct Codec {
    pub nocomp: bool,
    /// Something was sent.
    pub sent: bool,
    /// The start of the other side's stream was seen.
    pub seen: bool,
    /// Bytes that came in and are not complete yet.
    pub rest: Seq<u8>,
}

/// The writer of a session between its steps.
pub struct Writer {
    /// Passes until the next look at the health.
    pub left: u32,
    /// The rate limit.
    pub bucket: crate::common::ratelimit::Bucket,
    /// The streams whose FIN frames are in the packet that is being sent.
    pub fins: Seq<u32>,
}

impl View for KcptunSession {
    type V = Codec;

    closed spec fn view(&self) -> Codec {
        Codec {
            nocomp: self.nocomp,
            sent: self.encoder.started(),
            seen: self.decoder.started(),
            rest: self.decoder.pending(),
        }
    }
}

/// The data of a session that has just begun.
pub open spec fn fresh_codec(nocomp: bool) -> Codec {
    Codec { nocomp, sent: false, seen: false, rest: Seq::empty() }
}

/// The writer of a session that has just begun.
pub open spec fn fresh_writer(rate_limit: u32, now: u64) -> Writer {
    Writer {
        left: 0,
        bucket: crate::common::ratelimit::Bucket {
            rate: rate_limit as nat,
            tokens: rate_limit as nat * crate::common::ratelimit::BYTE as nat,
            last: now as nat,
        },
        fins: Seq::empty(),
    }
}

/// What comes of bytes that come in.
pub open spec fn taken_in(c: Codec, data: Seq<u8>) -> (Codec, Seq<u8>) {
    if c.nocomp {
        (c, data)
    } else {
        let d = crate::common::snappy_frame::decoded(c.seen, c.rest + data);
        (Codec { seen: d.hdr_ok, rest: d.rest, ..c }, d.out)
    }
}

/// The bytes that carry the frames `out`.
pub open spec fn packed(c: Codec, out: Seq<u8>) -> Seq<u8> {
    if c.nocomp {
        out
    } else if c.sent {
        crate::common::snappy_frame::snappy_stream(out).skip(10)
    } else {
        crate::common::snappy_frame::snappy_stream(out)
    }
}

/// Where a side stands after it has sent the frames `out`.
pub open spec fn after_packing(c: Codec, out: Seq<u8>) -> Codec {
    Codec { sent: c.sent || (out.len() > 0 && !c.nocomp), ..c }
}

/// No stream has bytes to send.
pub open spec fn nothing_pending(streams: Seq<StreamState>) -> bool {
    forall|i: int| 0 <= i < streams.len() ==> (#[trigger] streams[i]).pending_send == 0
}

impl KcptunSession {
    /// Whether the session was given up.
    pub closed spec fn given_up(&self) -> bool {
        self.dead
    }

    /// Where the writer stands.
    pub closed spec fn writer(&self) -> Writer {
        Writer { left: self.health.left, bucket: self.limiter@, fins: self.fins@ }
    }

    /// Whether the other side opens the streams.
    pub closed spec fn accepting(&self) -> bool {
        self.accepts
    }

    /// The session of the side that opens streams, at the time `now`, in
    /// nanoseconds.
    pub fn client(config: &KcptunConfig, now: u64) -> (s: Self)
        ensures
            !s.accepting(),
            !s.given_up(),
            s@ == fresh_codec(config.nocomp),
            s.writer() == fresh_writer(config.rate_limit, now),
    {
        Self::new(config.nocomp, config.rate_limit, now)
    }

    /// The session of the side that accepts streams.
    pub fn server(config: &KcptunConfig, now: u64) -> (s: Self)
        ensures
            s.accepting(),
            !s.given_up(),
            s@ == fresh_codec(config.nocomp),
            s.writer() == fresh_writer(config.rate_limit, now),
    {
        let mut s = Self::new(config.nocomp, config.rate_limit, now);
        s.accepts = true;
        s
    }

    /// Whether streams that the other side opens are queued for accepting.
    pub fn queues_accepts(&self) -> (b: bool)
        ensures
            b == self.accepting(),
    {
        self.accepts
    }

    /// The next step of a wait for a stream of the other side: see
    /// [`SmuxConn::accept`].
    pub fn accept(closed: bool, first: Option<u32>, live: bool) -> (s: AcceptStep)
        ensures
            s == (if closed {
                AcceptStep::Closed
            } else {
                match first {
                    Some(id) => if live {
                        AcceptStep::Stream(id)
                    } else {
                        AcceptStep::Again
                    },
                    None => AcceptStep::Wait,
                }
            }),
    {
        SmuxConn::accept(closed, first, live)
    }

    /// A session that begins at the time `now`, in nanoseconds, opens streams,
    /// and sends no more than `rate_limit` bytes per second; 0 is no limit.
    pub fn new(nocomp: bool, rate_limit: u32, now: u64) -> (s: Self)
        ensures
            !s.accepting(),
            !s.given_up(),
            s@ == fresh_codec(nocomp),
            s.writer() == fresh_writer(rate_limit, now),
    {
        KcptunSession {
            dead: false,
            nocomp,
            decoder: SnappyStreamDecoder::new(),
            encoder: SnappyStreamEncoder::new(),
            health: HealthCheck::new(),
            limiter: RateLimiter::new(rate_limit, now),
            fins: Vec::new(),
            accepts: false,
        }
    }

    /// Whether the session has failed or timed out.
    pub fn is_dead(
        &self,
        link_dead: bool,
        link_closed: bool,
        smux_closed: bool,
        timed_out: bool,
    ) -> (b: bool)
        ensures
            b == (self.given_up() || link_dead || link_closed || smux_closed || timed_out),
    {
        self.dead || link_dead || link_closed || smux_closed || timed_out
    }

    /// Whether reading and writing go on.
    pub fn goes_on(&self, link_closed: bool, smux_closed: bool) -> (b: bool)
        ensures
            b == (!self.given_up() && !link_closed && !smux_closed),
    {
        !self.dead && !smux_closed && !link_closed
    }

    /// Gives the session up.
    pub fn close(&mut self)
        ensures
            final(self).given_up(),
            final(self).accepting() == old(self).accepting(),
            final(self)@ == old(self)@,
            final(self).writer() == old(self).writer(),
    {
        self.dead = true;
    }

    /// What follows on a read.
    pub fn read_done(r: SessionRead, link_closed: bool) -> (next: AfterSessionRead)
        ensures
            next == (match r {
                SessionRead::Data(n) => if n == 0 {
                    AfterSessionRead::End
                } else {
                    AfterSessionRead::TakeIn
                },
                SessionRead::Failed => if link_closed {
                    AfterSessionRead::End
                } else {
                    AfterSessionRead::Again
                },
            }),
    {
        match r {
            SessionRead::Data(n) => if n == 0 {
                AfterSessionRead::End
            } else {
                AfterSessionRead::TakeIn
            },
            SessionRead::Failed => if link_closed {
                AfterSessionRead::End
            } else {
                AfterSessionRead::Again
            },
        }
    }

    /// Takes bytes in that came from the other side, and returns the frames that
    /// they make complete.
    pub fn take_in(&mut self, data: &[u8]) -> (frames: Vec<u8>)
        ensures
            (final(self)@, frames@) == taken_in(old(self)@, data@),
            final(self).given_up() == old(self).given_up(),
            final(self).accepting() == old(self).accepting(),
            final(self).writer() == old(self).writer(),
    {
        if self.nocomp {
            return slice_to_vec(data);
        }
        match self.decoder.feed(data) {
            Ok(frames) => frames,
            Err(_) => Vec::new(),
        }
    }

    /// How long the writer waits for something to write, in milliseconds; none
    /// where it was woken already.
    pub fn wait_ms(wake_pending: bool) -> (ms: Option<u64>)
        ensures
            ms == (if wake_pending {
                None
            } else {
                Some(IDLE_WAKE_MS)
            }),
    {
        if wake_pending {
            None
        } else {
            Some(IDLE_WAKE_MS)
        }
    }

    /// Begins a pass of the writer: now and then it looks at the health, with
    /// what is `seen` then. `wait_send` is what the connection has not had
    /// acknowledged.
    pub fn begin_pass(&mut self, seen: Seen, streams: &Vec<StreamState>, wait_send: usize) -> (start:
        PassStart)
        ensures
            final(self)@ == old(self)@,
            final(self).writer() == (Writer {
                left: next_left(old(self).writer().left),
                ..old(self).writer()
            }),
            start == (match health_seen(old(self).writer().left, seen) {
                SessionHealth::Dead => PassStart::Dead,
                h => PassStart::Go {
                    keepalive: h == SessionHealth::Keepalive,
                    allow_fin: nothing_pending(streams@) && wait_send == 0,
                },
            }),
            final(self).given_up() == (old(self).given_up() || start == PassStart::Dead),
            final(self).accepting() == old(self).accepting(),
    {
        let mut health: HealthCheck = self.health;
        let h = health.pass(seen);
        self.health = health;
        if h == SessionHealth::Dead {
            self.dead = true;
            return PassStart::Dead;
        }
        PassStart::Go {
            keepalive: h == SessionHealth::Keepalive,
            allow_fin: allow_fin(streams, wait_send),
        }
    }

    /// The packet for the frames `out`: none where there are none.
    pub fn packet(&mut self, out: &[u8]) -> (packet: Option<Vec<u8>>)
        ensures
            packet is Some == (out@.len() > 0),
            packet matches Some(p) ==> p@ == packed(old(self)@, out@) && packs(
                old(self)@.nocomp,
                old(self)@.sent,
                out@,
                p@,
            ),
            final(self)@ == after_packing(old(self)@, out@),
            final(self).given_up() == old(self).given_up(),
            final(self).accepting() == old(self).accepting(),
            final(self).writer() == old(self).writer(),
    {
        if out.len() == 0 {
            return None;
        }
        if self.nocomp {
            return Some(slice_to_vec(out));
        }
        let p: Vec<u8> = self.encoder.encode(out);
        Some(p)
    }

    /// Goes on with the frames `out` that were taken from the streams, among
    /// them the FIN frames of the streams `fins`.
    pub fn pack(&mut self, out: &[u8], fins: Vec<u32>, streams: &Vec<StreamState>) -> (r: PassOut)
        ensures
            r.remove@ == stale_ids(streams@),
            r.packet is Some == (out@.len() > 0),
            r.packet matches Some(p) ==> p@ == packed(old(self)@, out@) && packs(
                old(self)@.nocomp,
                old(self)@.sent,
                out@,
                p@,
            ),
            final(self)@ == after_packing(old(self)@, out@),
            final(self).given_up() == old(self).given_up(),
            final(self).accepting() == old(self).accepting(),
            final(self).writer() == (Writer { fins: fins@, ..old(self).writer() }),
    {
        let remove: Vec<u32> = stale_streams(streams);
        let packet: Option<Vec<u8>> = self.packet(out);
        self.fins = fins;
        PassOut { remove, packet }
    }

    /// How many nanoseconds a packet of `len` bytes has to wait at the time
    /// `now`: see [`RateLimiter::acquire`].
    pub fn pace(&mut self, len: usize, now: u64) -> (wait: u128)
        ensures
            paced(old(self).writer().bucket, final(self).writer().bucket, len as nat, now as nat, wait),
            final(self).writer() == (Writer {
                bucket: final(self).writer().bucket,
                ..old(self).writer()
            }),
            final(self)@ == old(self)@,
            final(self).given_up() == old(self).given_up(),
            final(self).accepting() == old(self).accepting(),
    {
        let mut limiter: RateLimiter = self.limiter;
        let wait: u128 = limiter.acquire(len, now);
        self.limiter = limiter;
        wait
    }

    /// The packet has waited: see [`RateLimiter::settle`].
    pub fn waited(&mut self, len: usize, now: u64)
        ensures
            final(self).writer() == (Writer {
                bucket: old(self).writer().bucket.refilled(now as nat).taken(len as nat),
                ..old(self).writer()
            }),
            final(self)@ == old(self)@,
            final(self).given_up() == old(self).given_up(),
            final(self).accepting() == old(self).accepting(),
    {
        let mut limiter: RateLimiter = self.limiter;
        limiter.settle(len, now);
        self.limiter = limiter;
    }

    /// What follows on the write of the packet. The ends of streams whose FIN
    /// frames it carried are announced if, and only if, it was written; a
    /// failed write ends the session.
    pub fn written(&mut self, ok: bool, streams: &Vec<StreamState>) -> (next: AfterSessionWrite)
        ensures
            next.announced@ == (if ok {
                old(self).writer().fins
            } else {
                Seq::empty()
            }),
            next.end == !ok,
            next.again == (ok && !nothing_pending(streams@)),
            final(self)@ == old(self)@,
            final(self).given_up() == (old(self).given_up() || !ok),
            final(self).accepting() == old(self).accepting(),
            final(self).writer() == (Writer { fins: Seq::empty(), ..old(self).writer() }),
    {
        let mut fins: Vec<u32> = Vec::new();
        std::mem::swap(&mut fins, &mut self.fins);
        if !ok {
            self.dead = true;
            return AfterSessionWrite { announced: Vec::new(), end: true, again: false };
        }
        AfterSessionWrite { announced: fins, end: false, again: has_pending(streams) }
    }
}

/// What asking a rate limit for `n` bytes makes of it, and the answer.
pub open spec fn paced(
    before: crate::common::ratelimit::Bucket,
    after: crate::common::ratelimit::Bucket,
    n: nat,
    now: nat,
    wait: u128,
) -> bool {
    let b = before.refilled(now);
    if n == 0 || before.rate == 0 {
        wait == 0 && after == before
    } else {
        &&& wait == b.wait_for(n)
        &&& after == (if wait == 0 {
            b.taken(n)
        } else {
            b
        })
    }
}

/// `packet` carries the frames `out`, for a side that has sent before or not.
pub open spec fn packs(nocomp: bool, sent: bool, out: Seq<u8>, packet: Seq<u8>) -> bool {
    if nocomp {
        packet == out
    } else {
        crate::common::snappy_frame::decoded(sent, packet)
            == (crate::common::snappy_frame::Decoded { out, hdr_ok: true, rest: Seq::empty() })
    }
}

/// Each packet carries the frames of its place, one packet after the other.
pub open spec fn all_pack(
    nocomp: bool,
    sent: bool,
    outs: Seq<Seq<u8>>,
    packets: Seq<Seq<u8>>,
) -> bool {
    &&& outs.len() == packets.len()
    &&& forall|i: int|
        0 <= i < outs.len() ==> packs(nocomp, sent || i > 0, outs[i], #[trigger] packets[i])
}

/// Pieces of data put together.
pub open spec fn joined(pieces: Seq<Seq<u8>>) -> Seq<u8>
    decreases pieces.len(),
{
    if pieces.len() == 0 {
        Seq::empty()
    } else {
        joined(pieces.drop_last()) + pieces.last()
    }
}

/// Where a side stands after it has taken in all pieces, and what it put out.
pub open spec fn all_taken_in(c: Codec, pieces: Seq<Seq<u8>>) -> (Codec, Seq<u8>)
    decreases pieces.len(),
{
    if pieces.len() == 0 {
        (c, Seq::empty())
    } else {
        let before = all_taken_in(c, pieces.drop_last());
        let now = taken_in(before.0, pieces.last());
        (now.0, before.1 + now.1)
    }
}

proof fn lemma_taken_in_all_at_once(c: Codec, pieces: Seq<Seq<u8>>)
    requires
        !c.nocomp,
        c.rest == Seq::<u8>::empty(),
    ensures
        ({
            let d = crate::common::snappy_frame::decoded(c.seen, joined(pieces));
            let end = all_taken_in(c, pieces);
            &&& end.1 == d.out
            &&& end.0 == (Codec { seen: d.hdr_ok, rest: d.rest, ..c })
        }),
    decreases pieces.len(),
{
    if pieces.len() > 0 {
        lemma_taken_in_all_at_once(c, pieces.drop_last());
        crate::common::snappy_frame::law_decode_in_pieces(
            c.seen,
            joined(pieces.drop_last()),
            pieces.last(),
        );
    }
}

proof fn lemma_packets_decode(sent: bool, outs: Seq<Seq<u8>>, packets: Seq<Seq<u8>>)
    requires
        all_pack(false, sent, outs, packets),
    ensures
        crate::common::snappy_frame::decoded(sent, joined(packets))
            == (crate::common::snappy_frame::Decoded {
            out: joined(outs),
            hdr_ok: sent || packets.len() > 0,
            rest: Seq::empty(),
        }),
    decreases packets.len(),
{
    if packets.len() > 0 {
        let n = packets.len() - 1;
        let before = packets.drop_last();
        assert forall|i: int| 0 <= i < n implies packs(
            false,
            sent || i > 0,
            outs.drop_last()[i],
            #[trigger] before[i],
        ) by {
            assert(before[i] == packets[i]);
        }
        lemma_packets_decode(sent, outs.drop_last(), before);
        crate::common::snappy_frame::law_decode_in_pieces(sent, joined(before), packets.last());
        assert(packs(false, sent || n > 0, outs[n], packets[n]));
        assert(Seq::<u8>::empty() + packets.last() =~= packets.last());
    }
}

/// What one side sends is what the other side gets: where the pieces that come
/// in are the packets of the sender put together, however they are cut, the
/// receiver puts out the frames of the sender, in order and complete. Both begin
/// at the start of the session.
pub proof fn law_frames_come_through(
    nocomp: bool,
    receiver: Codec,
    outs: Seq<Seq<u8>>,
    packets: Seq<Seq<u8>>,
    pieces: Seq<Seq<u8>>,
)
    requires
        all_pack(nocomp, false, outs, packets),
        joined(pieces) == joined(packets),
        receiver.nocomp == nocomp,
        !receiver.seen,
        receiver.rest == Seq::<u8>::empty(),
    ensures
        all_taken_in(receiver, pieces).1 == joined(outs),
        all_taken_in(receiver, pieces).0.rest == Seq::<u8>::empty(),
{
    if nocomp {
        assert forall|i: int| 0 <= i < outs.len() implies outs[i] == packets[i] by {
            assert(packs(nocomp, false || i > 0, outs[i], packets[i]));
        }
        assert(outs =~= packets);
        lemma_plain_taken_in(receiver, pieces);
    } else {
        lemma_packets_decode(false, outs, packets);
        lemma_taken_in_all_at_once(receiver, pieces);
    }
}

proof fn lemma_plain_taken_in(c: Codec, pieces: Seq<Seq<u8>>)
    requires
        c.nocomp,
    ensures
        all_taken_in(c, pieces) == (c, joined(pieces)),
    decreases pieces.len(),
{
    if pieces.len() > 0 {
        lemma_plain_taken_in(c, pieces.drop_last());
    }
}

} // verus!
