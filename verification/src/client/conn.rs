//! A client's connection: what it makes of datagrams that come in, and when and
//! in which pieces it sends.

use crate::common::kcptun_session::{
    can_send, stale_streams, HealthCheck, KcptunSession, PassOut, Seen, SessionHealth, StreamState,
};
use crate::kcp::inbound::{FEC_HDR, FEC_TYPE_DATA, FEC_TYPE_PARITY, KCP_MIN_SEGMENT};
use vstd::prelude::*;
use vstd::slice::{slice_subrange, slice_to_vec};

verus! {

/// The longest wait between two passes of the sender, in milliseconds.
pub const KCP_UPDATE_INTERVAL_MS: u64 = 2;

/// How long the receiver rests after the socket failed, in milliseconds.
pub const RECV_REST_MS: u64 = 100;

/// The mark of a packet outside the stream, which is passed over.
pub const FEC_TYPE_OOB: u16 = 0x00f3;

/// The KCP packets that a datagram brings. With error correction, `recovered`
/// are those that it completes: a data shard brings its own and those, a parity
/// shard those only, a packet outside the stream and one too short for a mark
/// none, and any other is a packet as it is. Without, a datagram that is long
/// enough is a packet.
pub open spec fn packets_in(
    has_fec: bool,
    input: Seq<u8>,
    recovered: Seq<Seq<u8>>,
) -> Seq<Seq<u8>> {
    let mark = crate::kcp::inbound::shard_mark(input);
    if !has_fec {
        crate::kcp::inbound::one_if(input.len() >= KCP_MIN_SEGMENT, input)
    } else if input.len() < 6 || mark == FEC_TYPE_OOB {
        Seq::empty()
    } else if mark == FEC_TYPE_DATA {
        crate::kcp::inbound::one_if(input.len() > FEC_HDR, input.skip(FEC_HDR as int)) + recovered
    } else if mark == FEC_TYPE_PARITY {
        recovered
    } else {
        seq![input]
    }
}

/// The KCP packets that a datagram brings: see [`packets_in`].
pub fn client_packets(has_fec: bool, input: &[u8], recovered: Vec<Vec<u8>>) -> (packets: Vec<
    Vec<u8>,
>)
    ensures
        crate::wire::byte_rows(packets@) == packets_in(
            has_fec,
            input@,
            crate::wire::byte_rows(recovered@),
        ),
{
    let n: usize = input.len();
    let mut packets: Vec<Vec<u8>> = Vec::new();
    assert(crate::wire::byte_rows(packets@) =~= Seq::<Seq<u8>>::empty());
    if !has_fec {
        if n >= KCP_MIN_SEGMENT {
            packets.push(slice_to_vec(input));
            assert(crate::wire::byte_rows(packets@) =~= seq![input@]);
        }
        return packets;
    }
    if n < 6 {
        return packets;
    }
    let mark: u16 = input[4] as u16 + input[5] as u16 * 256;
    if mark == FEC_TYPE_OOB {
        return packets;
    }
    if mark == FEC_TYPE_DATA {
        let mut recovered: Vec<Vec<u8>> = recovered;
        let ghost rows = crate::wire::byte_rows(recovered@);
        if n > FEC_HDR {
            packets.push(slice_to_vec(slice_subrange(input, FEC_HDR, n)));
            assert(packets@[0]@ =~= input@.skip(FEC_HDR as int));
        }
        let ghost own = crate::kcp::inbound::one_if(
            input@.len() > FEC_HDR,
            input@.skip(FEC_HDR as int),
        );
        assert(crate::wire::byte_rows(packets@) =~= own);
        packets.append(&mut recovered);
        assert(crate::wire::byte_rows(packets@) =~= own + rows);
        return packets;
    }
    if mark == FEC_TYPE_PARITY {
        return recovered;
    }
    packets.push(slice_to_vec(input));
    assert(crate::wire::byte_rows(packets@) =~= seq![input@]);
    packets
}

/// What the receiver does next.
#[derive(Clone, Copy, Debug, PartialEq, Eq, Structural)]
pub enum ReceiverStep {
    /// Take in a datagram of so many bytes.
    TakeIn(usize),
    /// Wait for a datagram.
    Wait,
    /// Rest for so many milliseconds, and then wait for a datagram.
    Rest(u64),
}

/// What follows on waiting for a datagram: `got` is its length, none where the
/// socket failed.
pub fn received(got: Option<usize>) -> (s: ReceiverStep)
    ensures
        s == (match got {
            Some(n) => if n > 0 {
                ReceiverStep::TakeIn(n)
            } else {
                ReceiverStep::Wait
            },
            None => ReceiverStep::Rest(RECV_REST_MS),
        }),
{
    match got {
        Some(n) => if n > 0 {
            ReceiverStep::TakeIn(n)
        } else {
            ReceiverStep::Wait
        },
        None => ReceiverStep::Rest(RECV_REST_MS),
    }
}

/// What follows on a datagram that was taken in or did not check out: the next
/// one, where `ready` says that one is there and how long it is.
pub fn taken_in(ready: Option<usize>) -> (s: ReceiverStep)
    ensures
        s == (match ready {
            Some(n) => if n > 0 {
                ReceiverStep::TakeIn(n)
            } else {
                ReceiverStep::Wait
            },
            None => ReceiverStep::Wait,
        }),
{
    match ready {
        Some(n) => if n > 0 {
            ReceiverStep::TakeIn(n)
        } else {
            ReceiverStep::Wait
        },
        None => ReceiverStep::Wait,
    }
}

/// The longest piece that the protocol takes at once: one fragment less than it
/// allows, and at least one.
pub open spec fn piece_len(mss: nat, max_frag: nat) -> nat {
    crate::kcp::conn::plan_chunk(mss, max_frag)
}

/// Where the piece with number `i` begins and ends.
pub open spec fn piece_at(len: nat, piece: nat, i: int) -> (usize, usize) {
    (
        (i * piece) as usize,
        if (i + 1) * piece <= len {
            ((i + 1) * piece) as usize
        } else {
            len as usize
        },
    )
}

/// How many pieces `len` bytes make.
pub open spec fn piece_count(len: nat, piece: nat) -> nat {
    if len == 0 {
        0
    } else {
        ((len - 1) / piece as int + 1) as nat
    }
}

/// The pieces in which `len` bytes are handed to the protocol, for segments of
/// `mss` bytes: all but the last have the greatest length.
pub fn send_pieces(len: usize, mss: usize, max_frag: usize) -> (bounds: Vec<(usize, usize)>)
    requires
        mss > 0,
    ensures
        ({
            let piece = piece_len(mss as nat, max_frag as nat);
            &&& bounds@.len() == piece_count(len as nat, piece)
            &&& forall|i: int|
                0 <= i < bounds@.len() ==> #[trigger] bounds@[i] == piece_at(len as nat, piece, i)
        }),
{
    let frags: usize = if max_frag > 0 {
        max_frag - 1
    } else {
        0
    };
    let many: usize = match frags.checked_mul(mss) {
        Some(b) => b,
        None => usize::MAX,
    };
    let piece: usize = if many < mss {
        mss
    } else {
        many
    };
    assert(piece == piece_len(mss as nat, max_frag as nat));
    let mut bounds: Vec<(usize, usize)> = Vec::new();
    let mut offset: usize = 0;
    while offset < len
        invariant
            piece > 0,
            offset <= len,
            offset == bounds@.len() * piece || offset == len,
            bounds@.len() <= piece_count(len as nat, piece as nat),
            offset == len ==> bounds@.len() == piece_count(len as nat, piece as nat),
            forall|i: int|
                0 <= i < bounds@.len() ==> #[trigger] bounds@[i] == piece_at(
                    len as nat,
                    piece as nat,
                    i,
                ),
        decreases len - offset,
    {
        let end: usize = if len - offset <= piece {
            len
        } else {
            offset + piece
        };
        proof {
            lemma_next_piece(len as nat, piece as nat, bounds@.len());
        }
        bounds.push((offset, end));
        offset = end;
    }
    bounds
}

proof fn lemma_next_piece(len: nat, piece: nat, i: nat)
    requires
        piece > 0,
        i * piece < len,
    ensures
        (i + 1) * piece == i * piece + piece,
        i + 1 <= piece_count(len, piece),
        (i + 1) * piece >= len ==> i + 1 == piece_count(len, piece),
{
    let q = (len - 1) / piece as int;
    let r = (len - 1) % piece as int;
    assert((i + 1) * piece == i * piece + piece) by (nonlinear_arith);
    vstd::arithmetic::div_mod::lemma_fundamental_div_mod(len - 1, piece as int);
    assert(piece * q + r == len - 1);
    assert(q >= i) by (nonlinear_arith)
        requires
            piece > 0,
            piece * q + r == len - 1,
            0 <= r < piece,
            i * piece <= len - 1,
    ;
    if (i + 1) * piece >= len {
        assert(q <= i) by (nonlinear_arith)
            requires
                piece > 0,
                piece * q + r == len - 1,
                0 <= r < piece,
                (i + 1) * piece >= len,
        ;
    }
}

/// The pieces of `data`.
pub open spec fn pieces_of(data: Seq<u8>, piece: nat, count: nat) -> Seq<Seq<u8>> {
    Seq::new(
        count,
        |i: int|
            data.subrange(
                piece_at(data.len(), piece, i).0 as int,
                piece_at(data.len(), piece, i).1 as int,
            ),
    )
}

/// The pieces in which data is sent make up the data: put together in their
/// order they give it back, and none is longer than the protocol takes.
pub proof fn law_pieces_make_up_the_data(data: Seq<u8>, piece: nat)
    requires
        piece > 0,
        data.len() <= usize::MAX,
    ensures
        crate::common::kcptun_session::joined(
            pieces_of(data, piece, piece_count(data.len(), piece)),
        ) == data,
        forall|i: int|
            0 <= i < piece_count(data.len(), piece) ==> 0 < (#[trigger] pieces_of(
                data,
                piece,
                piece_count(data.len(), piece),
            )[i]).len() <= piece,
{
    let count = piece_count(data.len(), piece);
    lemma_pieces_joined(data, piece, count);
    if data.len() > 0 {
        lemma_piece_bounds(data.len(), piece, (count - 1) as nat);
    }
    assert(data.take(data.len() as int) =~= data);
    assert forall|i: int| 0 <= i < count implies 0 < (#[trigger] pieces_of(data, piece, count)[i]).len()
        <= piece by {
        lemma_piece_bounds(data.len(), piece, i as nat);
    }
    if data.len() == 0 {
        assert(data =~= Seq::empty());
    }
}

/// Where the piece with number `i` stands.
pub proof fn lemma_piece_bounds(len: nat, piece: nat, i: nat)
    requires
        piece > 0,
        i < piece_count(len, piece),
        len <= usize::MAX,
    ensures
        i * piece < len,
        (i + 1) * piece == i * piece + piece,
        (i + 1) * piece >= len <==> i + 1 == piece_count(len, piece),
        piece_at(len, piece, i as int).0 == i * piece,
        piece_at(len, piece, i as int).1 == (if (i + 1) * piece <= len {
            (i + 1) * piece
        } else {
            len
        }),
{
    let q = (len - 1) / piece as int;
    let r = (len - 1) % piece as int;
    vstd::arithmetic::div_mod::lemma_fundamental_div_mod(len - 1, piece as int);
    assert(i * piece <= len - 1) by (nonlinear_arith)
        requires
            piece > 0,
            piece * q + r == len - 1,
            0 <= r,
            i <= q,
    ;
    assert(0 <= i * piece) by (nonlinear_arith);
    lemma_next_piece(len, piece, i);
    if i + 1 == piece_count(len, piece) {
        assert((i + 1) * piece >= len) by (nonlinear_arith)
            requires
                piece > 0,
                piece * q + r == len - 1,
                r < piece,
                i == q,
        ;
    }
}

proof fn lemma_pieces_joined(data: Seq<u8>, piece: nat, count: nat)
    requires
        piece > 0,
        data.len() <= usize::MAX,
        count <= piece_count(data.len(), piece),
    ensures
        crate::common::kcptun_session::joined(pieces_of(data, piece, count)) == data.take(
            if count == 0 {
                0
            } else {
                piece_at(data.len(), piece, count - 1).1 as int
            },
        ),
    decreases count,
{
    let all = pieces_of(data, piece, count);
    if count == 0 {
        assert(data.take(0) =~= Seq::empty());
    } else {
        let before = (count - 1) as nat;
        lemma_pieces_joined(data, piece, before);
        lemma_piece_bounds(data.len(), piece, before);
        if before > 0 {
            lemma_piece_bounds(data.len(), piece, (before - 1) as nat);
        }
        assert(all.drop_last() =~= pieces_of(data, piece, before));
        let p = piece_at(data.len(), piece, before as int);
        assert(data.take(p.0 as int) + data.subrange(p.0 as int, p.1 as int) =~= data.take(
            p.1 as int,
        ));
    }
}

/// What follows on sending the datagrams of a pass.
#[derive(Clone, Copy, Debug, PartialEq, Eq, Structural)]
pub enum SendResult {
    Sent,
    /// Nobody listens at the other end.
    Refused,
    /// It failed in another way.
    Failed,
}

/// How a pass of the sender begins.
#[derive(Clone, Copy, Debug, PartialEq, Eq, Structural)]
pub enum SenderStart {
    /// The connection was closed: end.
    End,
    /// The connection is found dead: close it and end.
    Dead,
    /// Take frames from the streams, behind a keepalive frame where one is due.
    Go { keepalive: bool },
}

/// How long the sender waits when the protocol asks for `flush_ms`.
pub open spec fn next_wait(sent: bool, wait_send: usize, flush_ms: u64) -> u64 {
    if sent || wait_send > 0 || flush_ms < 1 {
        1
    } else if flush_ms > KCP_UPDATE_INTERVAL_MS {
        KCP_UPDATE_INTERVAL_MS
    } else {
        flush_ms
    }
}

/// A stream has data that the other side would take.
pub open spec fn sendable(streams: Seq<StreamState>) -> bool {
    exists|i: int|
        0 <= i < streams.len() && (#[trigger] streams[i]).pending_send > 0
            && streams[i].peer_send_window > 0
}

/// A connection of a client: what its receiver and its sender share, and what
/// the sender keeps from one step to the next.
pub struct ClientConn {
    /// It was given up.
    pub dead: bool,
    /// What its streams send and receive, compressed or not.
    pub codec: KcptunSession,
    /// Error correction is on.
    pub has_fec: bool,
    pub snd_wnd: usize,
    /// What the protocol has not had acknowledged, at the last look.
    pub wait_send: usize,
    /// When a packet came in last, in milliseconds.
    pub last_activity: u64,
    /// How long the sender waits for the next pass, in milliseconds.
    pub next_update: u64,
    /// When the sender looks at the health.
    pub health: HealthCheck,
    /// The streams whose FIN frames are in the data that is handed over.
    pub fins: Vec<u32>,
    /// Data was handed over in this pass.
    pub outbound: bool,
}

impl ClientConn {
    /// A connection that begins at the time `now_ms`.
    pub fn new(
        nocomp: bool,
        has_fec: bool,
        snd_wnd: u32,
        ratelimit: u32,
        now_ms: u64,
        now_ns: u64,
    ) -> (c: Self)
        ensures
            !c.dead,
            c.codec@ == crate::common::kcptun_session::fresh_codec(nocomp),
            c.codec.writer() == crate::common::kcptun_session::fresh_writer(ratelimit, now_ns),
            c.has_fec == has_fec,
            c.snd_wnd == snd_wnd,
            c.wait_send == 0,
            c.last_activity == now_ms,
            c.next_update == KCP_UPDATE_INTERVAL_MS,
            c.health.left == 0,
            c.fins@ == Seq::<u32>::empty(),
            !c.outbound,
    {
        ClientConn {
            dead: false,
            codec: KcptunSession::new(nocomp, ratelimit, now_ns),
            has_fec,
            snd_wnd: snd_wnd as usize,
            wait_send: 0,
            last_activity: now_ms,
            next_update: KCP_UPDATE_INTERVAL_MS,
            health: HealthCheck::new(),
            fins: Vec::new(),
            outbound: false,
        }
    }

    /// Takes in a datagram that was decrypted: the packets for the protocol. With
    /// error correction, `recovered` are those that it completes. Packets are
    /// activity.
    pub fn datagram(&mut self, input: &[u8], recovered: Vec<Vec<u8>>, now_ms: u64) -> (packets: Vec<
        Vec<u8>,
    >)
        ensures
            crate::wire::byte_rows(packets@) == packets_in(
                old(self).has_fec,
                input@,
                crate::wire::byte_rows(recovered@),
            ),
            *final(self) == (ClientConn {
                last_activity: if packets@.len() > 0 {
                    now_ms
                } else {
                    old(self).last_activity
                },
                ..*old(self)
            }),
    {
        let packets: Vec<Vec<u8>> = client_packets(self.has_fec, input, recovered);
        if packets.len() > 0 {
            self.last_activity = now_ms;
        }
        packets
    }

    /// Takes in data that the protocol delivers: the frames that it completes.
    pub fn message(&mut self, data: &[u8]) -> (frames: Vec<u8>)
        ensures
            (final(self).codec@, frames@) == crate::common::kcptun_session::taken_in(
                old(self).codec@,
                data@,
            ),
            final(self).codec.writer() == old(self).codec.writer(),
            *final(self) == (ClientConn { codec: final(self).codec, ..*old(self) }),
    {
        self.codec.take_in(data)
    }

    /// Acknowledgements came in: whether writers that are held back are woken,
    /// because the send window has room.
    pub fn acked(&mut self, wait_send: usize) -> (wake: bool)
        ensures
            wake == (wait_send < old(self).snd_wnd),
            *final(self) == (ClientConn { wait_send, ..*old(self) }),
    {
        self.wait_send = wait_send;
        wait_send < self.snd_wnd
    }

    /// Begins a pass of the sender.
    pub fn begin_pass(&mut self, smux_closed: bool, seen: Seen) -> (start: SenderStart)
        ensures
            start == (if old(self).dead || smux_closed {
                SenderStart::End
            } else {
                match crate::common::kcptun_session::health_seen(old(self).health.left, seen) {
                    SessionHealth::Dead => SenderStart::Dead,
                    SessionHealth::Keepalive => SenderStart::Go { keepalive: true },
                    SessionHealth::Fine => SenderStart::Go { keepalive: false },
                }
            }),
            *final(self) == (ClientConn {
                dead: old(self).dead || start == SenderStart::Dead,
                health: final(self).health,
                outbound: if start == SenderStart::End {
                    old(self).outbound
                } else {
                    false
                },
                ..*old(self)
            }),
            final(self).health.left == (if start == SenderStart::End {
                old(self).health.left
            } else {
                crate::common::kcptun_session::next_left(old(self).health.left)
            }),
    {
        if self.dead || smux_closed {
            return SenderStart::End;
        }
        self.outbound = false;
        let mut health: HealthCheck = self.health;
        let h = health.pass(seen);
        self.health = health;
        match h {
            SessionHealth::Dead => {
                self.dead = true;
                SenderStart::Dead
            },
            SessionHealth::Keepalive => SenderStart::Go { keepalive: true },
            SessionHealth::Fine => SenderStart::Go { keepalive: false },
        }
    }

    /// Goes on with the frames `out` that were taken from the streams, among
    /// them the FIN frames of the streams `fins`: the streams to remove, and the
    /// data for the protocol.
    pub fn pack(&mut self, out: &[u8], fins: Vec<u32>, streams: &Vec<StreamState>) -> (r: PassOut)
        ensures
            r.remove@ == crate::common::kcptun_session::stale_ids(streams@),
            r.packet is Some == (out@.len() > 0),
            r.packet matches Some(p) ==> p@ == crate::common::kcptun_session::packed(
                old(self).codec@,
                out@,
            ) && crate::common::kcptun_session::packs(
                old(self).codec@.nocomp,
                old(self).codec@.sent,
                out@,
                p@,
            ),
            final(self).codec@ == crate::common::kcptun_session::after_packing(
                old(self).codec@,
                out@,
            ),
            final(self).codec.writer() == old(self).codec.writer(),
            *final(self) == (ClientConn {
                codec: final(self).codec,
                fins,
                outbound: out@.len() > 0,
                ..*old(self)
            }),
    {
        let remove: Vec<u32> = stale_streams(streams);
        let packet: Option<Vec<u8>> = self.codec.packet(out);
        self.fins = fins;
        self.outbound = packet.is_some();
        PassOut { remove, packet }
    }

    /// The data was handed to the protocol, which took all of it or not: the
    /// streams whose end is announced now.
    pub fn handed_over(&mut self, all_taken: bool) -> (announced: Vec<u32>)
        ensures
            announced@ == (if old(self).outbound && all_taken {
                old(self).fins@
            } else {
                Seq::empty()
            }),
            final(self).fins@ == Seq::<u32>::empty(),
            *final(self) == (ClientConn { fins: final(self).fins, ..*old(self) }),
    {
        let mut fins: Vec<u32> = Vec::new();
        std::mem::swap(&mut fins, &mut self.fins);
        if self.outbound && all_taken {
            fins
        } else {
            Vec::new()
        }
    }

    /// The protocol was flushed: it wants to be called again in `flush_ms`, and
    /// `wait_send` is what it has not had acknowledged.
    pub fn flushed(&mut self, flush_ms: u64, wait_send: usize)
        ensures
            *final(self) == (ClientConn {
                next_update: next_wait(old(self).outbound, wait_send, flush_ms),
                wait_send,
                ..*old(self)
            }),
    {
        self.next_update = if self.outbound || wait_send > 0 || flush_ms < 1 {
            1
        } else if flush_ms > KCP_UPDATE_INTERVAL_MS {
            KCP_UPDATE_INTERVAL_MS
        } else {
            flush_ms
        };
        self.wait_send = wait_send;
    }

    /// The datagrams of the pass were sent or not: whether the connection is
    /// closed, because nobody listens to it.
    pub fn sent(&mut self, r: SendResult) -> (end: bool)
        ensures
            end == (r == SendResult::Refused),
            *final(self) == (ClientConn { dead: old(self).dead || end, ..*old(self) }),
    {
        if r == SendResult::Refused {
            self.dead = true;
            return true;
        }
        false
    }

    /// Ends a pass: whether the next one follows at once, because streams have
    /// data that the other side would take.
    pub fn end_pass(&mut self, streams: &Vec<StreamState>) -> (again: bool)
        ensures
            again == sendable(streams@),
            *final(self) == (ClientConn {
                next_update: if again {
                    1
                } else {
                    old(self).next_update
                },
                ..*old(self)
            }),
    {
        if can_send(streams) {
            self.next_update = 1;
            return true;
        }
        false
    }

    /// Whether the connection is dead. One whose link is found dead is given up.
    pub fn is_dead(&mut self, smux_closed: bool, link_dead: bool) -> (b: bool)
        ensures
            b == (old(self).dead || smux_closed || link_dead),
            *final(self) == (ClientConn {
                dead: old(self).dead || (!smux_closed && link_dead),
                ..*old(self)
            }),
    {
        if self.dead || smux_closed {
            return true;
        }
        if link_dead {
            self.dead = true;
            return true;
        }
        false
    }

    /// Whether the connection has been idle longer than it may be.
    pub fn is_expired(&self, autoexpire_secs: u64, scavengettl_secs: u64, now_ms: u64) -> (b: bool)
        requires
            self.last_activity + (autoexpire_secs + scavengettl_secs) * 1000 <= u64::MAX,
        ensures
            b == crate::client::pool::expired(
                self.last_activity,
                autoexpire_secs,
                scavengettl_secs,
                now_ms,
            ),
    {
        crate::client::pool::is_expired(self.last_activity, autoexpire_secs, scavengettl_secs, now_ms)
    }
}

/// While data is on its way the sender never rests for longer than a
/// millisecond, and at no time for longer than its interval; but it does rest.
pub proof fn law_sender_rests_briefly(sent: bool, wait_send: usize, flush_ms: u64)
    ensures
        1 <= next_wait(sent, wait_send, flush_ms) <= KCP_UPDATE_INTERVAL_MS,
        sent || wait_send > 0 ==> next_wait(sent, wait_send, flush_ms) == 1,
{
}

} // verus!
