//! What connections are for, stated over what calls take and give: packets and
//! their conversation, reading, writing, deadlines, and when the protocol is
//! driven.

use crate::kcp::buffers::{read_available, RawPacketQueue, ReadBuffer};
use crate::kcp::config::{KcpConfig, KcpMode, KCP};
use crate::kcp::conn::{
    burst_pool_end, Burst, ConnError, ConnectStart, Connecting, InboundWakes, InputEvent, InputStep,
    KcpConn, KcpConnBuilder, PollRead, PollStep, ReadRound, ReadStep, SendPlan, Shutdown, Step,
    TransportPlan, WriteAll, WriteStep,
};
use crate::kcp::flush::{FlushState, FlushStep};
use crate::kcp::inbound::{inbound_packets, prefetch, ConvState};
use bytes::Bytes;
use std::collections::VecDeque;
use vstd::prelude::*;

verus! {

/// The conversation of a segment is the number whose bytes, lowest first, are
/// its first four: a connection that adopts is offered the packet under it. Any
/// other is offered it under its own, and what is shorter than a segment not at
/// all.
pub proof fn law_segment_names_its_conversation(
    s: &ConvState,
    input: &[u8],
    r: Option<u32>,
    c: u32,
)
    requires
        call_ensures(ConvState::candidate, (s, input), r),
        input@.len() >= 4,
        input@[0] == c % 256,
        input@[1] == c / 256 % 256,
        input@[2] == c / 65536 % 256,
        input@[3] == c / 16777216,
    ensures
        input@.len() >= 24 && s.adopting ==> r == Some(c),
        input@.len() >= 24 && !s.adopting ==> r == Some(s.conv),
        input@.len() < 24 ==> r is None,
{
}

/// The same of a connection.
pub proof fn law_connection_is_offered_the_named_conversation(
    conn: &KcpConn,
    input: &[u8],
    r: Option<u32>,
    c: u32,
)
    requires
        call_ensures(KcpConn::conv_candidate, (conn, input), r),
        input@.len() >= 4,
        input@[0] == c % 256,
        input@[1] == c / 256 % 256,
        input@[2] == c / 65536 % 256,
        input@[3] == c / 16777216,
    ensures
        input@.len() >= 24 && conn.conv.adopting ==> r == Some(c),
        input@.len() >= 24 && !conn.conv.adopting ==> r == Some(conn.conv.conv),
        input@.len() < 24 ==> r is None,
{
}

/// The conversation of the first packet that is accepted is adopted, once; the
/// protocol runs under it.
pub proof fn law_accepted_conversation_is_adopted(
    s: &mut ConvState,
    conn: &mut KcpConn,
    candidate: u32,
    accepted: bool,
)
    ensures
        call_ensures(ConvState::settle, (s, candidate, accepted), ()) ==> {
            &&& accepted && old(s).adopting ==> final(s).conv == candidate && !final(s).adopting
            &&& !accepted || !old(s).adopting ==> *final(s) == *old(s)
        },
        call_ensures(KcpConn::conv_settled, (conn, candidate, accepted), ()) && old(conn).kcp.conv
            == old(conn).conv.conv ==> {
            &&& accepted && old(conn).conv.adopting ==> final(conn).conv.conv == candidate
                && final(conn).kcp.conv == candidate && !final(conn).conv.adopting
            &&& !accepted || !old(conn).conv.adopting ==> *final(conn) == *old(conn)
        },
{
}

/// A datagram under error correction: the mark in its fifth and sixth byte, lowest
/// first, says what it is. A data shard is a packet behind eight bytes, and the
/// packets that it completes; a parity shard is only what it completes; with
/// another mark it is a packet by itself, where it is long enough for one.
pub proof fn law_shards_bring_their_packets(
    front: Seq<u8>,
    low: u8,
    high: u8,
    back: Seq<u8>,
    recovered: Seq<Seq<u8>>,
)
    requires
        front.len() == 4,
    ensures
        ({
            let input = front + seq![low, high] + back;
            let got = crate::kcp::inbound::shard_packets(input, recovered);
            &&& low == 0xf1 && high == 0 && back.len() > 2 ==> got == seq![back.skip(2)] + recovered
            &&& low == 0xf1 && high == 0 && back.len() <= 2 ==> got == recovered
            &&& low == 0xf2 && high == 0 ==> got == recovered
            &&& !((low == 0xf1 || low == 0xf2) && high == 0) && back.len() >= 18 ==> got == seq![
                input,
            ]
            &&& !((low == 0xf1 || low == 0xf2) && high == 0) && back.len() < 18 ==> got
                == Seq::<Seq<u8>>::empty()
        }),
{
    let input = front + seq![low, high] + back;
    assert(input[4] == low && input[5] == high);
    if back.len() >= 2 {
        assert(input.skip(8) =~= back.skip(2));
    }
    assert(Seq::<Seq<u8>>::empty() + recovered =~= recovered);
}

/// The packets of datagrams come in the order of the datagrams; a datagram too
/// short for a mark brings none. Without error correction the datagrams are the
/// packets.
pub proof fn law_packets_come_in_the_order_of_datagrams(
    a: Seq<Seq<u8>>,
    ra: Seq<Seq<Seq<u8>>>,
    d: Seq<u8>,
    rd: Seq<Seq<u8>>,
    datagrams: &Vec<Vec<u8>>,
    recovered: &Vec<Vec<Vec<u8>>>,
    has_fec: bool,
    packets: Vec<Vec<u8>>,
)
    requires
        call_ensures(inbound_packets, (has_fec, datagrams, recovered), packets),
    ensures
        crate::kcp::inbound::all_shard_packets(a.push(d), ra.push(rd))
            == crate::kcp::inbound::all_shard_packets(a, ra) + crate::kcp::inbound::shard_packets(
            d,
            rd,
        ),
        crate::kcp::inbound::all_shard_packets(Seq::empty(), Seq::empty()) == Seq::<
            Seq<u8>,
        >::empty(),
        d.len() < 6 ==> crate::kcp::inbound::shard_packets(d, rd) == Seq::<Seq<u8>>::empty(),
        !has_fec ==> crate::wire::byte_rows(packets@) == crate::wire::byte_rows(datagrams@),
        has_fec ==> crate::wire::byte_rows(packets@) == crate::kcp::inbound::all_shard_packets(
            crate::wire::byte_rows(datagrams@),
            crate::kcp::inbound::row_lists(recovered@),
        ),
{
    assert(a.push(d).drop_last() =~= a);
    assert(ra.push(rd).drop_last() =~= ra);
}

/// As much is moved ahead of being read as the bounds allow, which are 32768
/// bytes and 32 messages: what stays behind begins with a message that is empty
/// or does not fit any more.
pub proof fn law_prefetch_takes_all_that_fits(bytes: nat, count: nat, messages: Seq<Seq<u8>>)
    ensures
        ({
            let k = crate::kcp::inbound::prefetch_count(bytes, count, messages);
            let ahead = crate::kcp::buffers::flat(messages.take(k as int)).len();
            &&& k <= messages.len()
            &&& k < messages.len() ==> messages[k as int].len() == 0 || bytes + ahead + messages[
                k as int].len() > 32768 || count + k >= 32
            &&& k > 0 ==> bytes + ahead <= 32768 && count + k <= 32
            &&& forall|i: int| 0 <= i < k ==> (#[trigger] messages[i]).len() > 0
        }),
    decreases messages.len(),
{
    let k = crate::kcp::inbound::prefetch_count(bytes, count, messages);
    if k > 0 {
        let later = messages.skip(1);
        law_prefetch_takes_all_that_fits(bytes + messages[0].len(), count + 1, later);
        let j = (k - 1) as int;
        assert(messages.take(k as int).skip(1) =~= later.take(j));
        assert(messages.take(k as int)[0] == messages[0]);
        assert(crate::kcp::buffers::flat(messages.take(k as int)).len() == messages[0].len()
            + crate::kcp::buffers::flat(later.take(j)).len());
        if k < messages.len() {
            assert(messages[k as int] == later[j]);
        }
        assert forall|i: int| 0 <= i < k implies (#[trigger] messages[i]).len() > 0 by {
            if i > 0 {
                assert(later[i - 1].len() > 0);
            }
        }
        if j == 0 {
            assert(later.take(0) =~= Seq::<Seq<u8>>::empty());
        }
    } else {
        assert(messages.take(0) =~= Seq::<Seq<u8>>::empty());
    }
}

/// Moving ahead only moves: the messages there and those that stay behind are
/// those that there were, in order; and something can be read where there is one.
pub proof fn law_prefetch_only_moves(
    rb: &mut ReadBuffer,
    kcp: &mut VecDeque<Bytes>,
    ready: bool,
)
    requires
        call_ensures(prefetch, (rb, kcp), ready),
    ensures
        final(rb).messages() + crate::kcp::buffers::all_contents(final(kcp)@) == old(rb).messages() + crate::kcp::buffers::all_contents(old(kcp)@),
        ready == (final(rb).messages().len() + final(kcp)@.len() > 0),
{
    let ms = crate::kcp::buffers::all_contents(old(kcp)@);
    let k = crate::kcp::inbound::prefetch_count(
        crate::kcp::buffers::flat(old(rb).messages()).len(),
        old(rb).messages().len(),
        ms,
    ) as int;
    assert(ms.take(k) + ms.skip(k) =~= ms);
    assert(old(rb).messages() + ms.take(k) + ms.skip(k) =~= old(rb).messages() + ms);
    assert(crate::kcp::buffers::all_contents(final(kcp)@).len() == final(kcp)@.len());
}

proof fn lemma_readable(queue: Seq<Seq<u8>>, room: nat)
    ensures
        room > crate::kcp::buffers::readable(queue) ==> {
            let k = crate::kcp::buffers::taken(queue, room) as int;
            &&& crate::kcp::buffers::cut_rest(queue, room) == Seq::<Seq<u8>>::empty()
            &&& crate::kcp::buffers::readable(queue) == crate::kcp::buffers::flat(queue).len() && k
                == queue.len() || (0 < k <= queue.len() && queue[k - 1].len() == 0
                && crate::kcp::buffers::readable(queue) == crate::kcp::buffers::flat(
                queue.take(k - 1),
            ).len())
        },
    decreases queue.len(),
{
    if room > crate::kcp::buffers::readable(queue) && queue.len() > 0 {
        if queue[0].len() == 0 {
            assert(queue.take(0) =~= Seq::<Seq<u8>>::empty());
        } else {
            let later = queue.skip(1);
            let rest = (room - queue[0].len()) as nat;
            lemma_readable(later, rest);
            let k = crate::kcp::buffers::taken(queue, room) as int;
            let j = crate::kcp::buffers::taken(later, rest) as int;
            assert(k == j + 1);
            if j > 0 && later[j - 1].len() == 0 {
                assert(queue[k - 1] == later[j - 1]);
                assert(queue.take(k - 1).skip(1) =~= later.take(j - 1));
                assert(queue.take(k - 1)[0] == queue[0]);
            }
        }
    }
}

/// A read takes all that it can: where it does not fill the buffer, nothing that
/// was moved ahead is left, and of the protocol's messages either none is left,
/// or an empty one was met, behind which the read ended.
pub proof fn law_read_takes_all_it_can(
    rb: &mut ReadBuffer,
    kcp: &mut VecDeque<Bytes>,
    out: &mut [u8],
    r: (usize, bool),
)
    requires
        call_ensures(read_available, (rb, kcp, out), r),
    ensures
        ({
            let ahead = crate::kcp::buffers::flat(old(rb).messages());
            let queue = crate::kcp::buffers::all_contents(old(kcp)@);
            let after = crate::kcp::buffers::all_contents(final(kcp)@);
            let stream = ahead + crate::kcp::buffers::flat(queue);
            &&& r.0 <= old(out)@.len() && r.0 <= stream.len()
            &&& final(out)@ == stream.take(r.0 as int) + old(out)@.skip(r.0 as int)
            &&& crate::kcp::buffers::flat(final(rb).messages()) + crate::kcp::buffers::flat(after)
                == stream.skip(r.0 as int)
            &&& r.1 == (r.0 > ahead.len())
            &&& r.0 < old(out)@.len() ==> {
                &&& final(rb).messages().len() == 0
                &&& r.0 == stream.len() && after.len() == 0 || exists|j: int|
                    0 <= j < queue.len() && (#[trigger] queue[j]).len() == 0 && r.0 == ahead.len()
                        + crate::kcp::buffers::flat(queue.take(j)).len() && after == queue.skip(
                        j + 1,
                    )
            }
        }),
{
    let rb0 = old(rb).messages();
    let queue = crate::kcp::buffers::all_contents(old(kcp)@);
    let after = crate::kcp::buffers::all_contents(final(kcp)@);
    let ahead = crate::kcp::buffers::flat(rb0).len();
    let len = old(out)@.len();
    crate::kcp::buffers::law_read_leaves_the_rest(
        rb0,
        queue,
        old(out)@,
        final(rb).messages(),
        after,
        final(out)@,
        r.0 as int,
        r.1,
    );
    if r.0 < len {
        let room = (len - ahead) as nat;
        lemma_readable(queue, room);
        lemma_unread_all(rb0, len);
        let k = crate::kcp::buffers::taken(queue, room) as int;
        if !(crate::kcp::buffers::readable(queue) == crate::kcp::buffers::flat(queue).len() && k
            == queue.len()) {
            assert(queue[k - 1].len() == 0);
        } else {
            assert(after =~= Seq::<Seq<u8>>::empty());
        }
    }
}

proof fn lemma_unread_all(messages: Seq<Seq<u8>>, room: nat)
    ensures
        room > crate::kcp::buffers::flat(messages).len() ==> crate::kcp::buffers::unread(
            messages,
            room,
        ).len() == 0,
    decreases messages.len(),
{
    if messages.len() > 0 {
        lemma_unread_all(messages.skip(1), (room - messages[0].len()) as nat);
    }
}

/// A message that is read in part is not broken up further: its rest is one
/// message, before those that follow it.
pub proof fn law_rest_of_a_message_stays_whole(
    rb: &mut ReadBuffer,
    kcp: &mut VecDeque<Bytes>,
    out: &mut [u8],
    r: (usize, bool),
    m: Seq<u8>,
)
    requires
        call_ensures(read_available, (rb, kcp, out), r),
        old(out)@.len() < m.len(),
        old(out)@.len() > 0,
    ensures
        old(rb).messages().len() > 0 && old(rb).messages()[0] == m ==> final(rb).messages()
            == seq![m.skip(old(out)@.len() as int)] + old(rb).messages().skip(1) && final(kcp)@.len()
            == old(kcp)@.len(),
        old(rb).messages().len() == 0 && old(kcp)@.len() > 0 && crate::kcp::buffers::contents(
            old(kcp)@[0],
        ) == m ==> final(rb).messages() == seq![m.skip(old(out)@.len() as int)]
            && final(kcp)@.len() == old(kcp)@.len() - 1,
{
    let queue = crate::kcp::buffers::all_contents(old(kcp)@);
    let after = crate::kcp::buffers::all_contents(final(kcp)@);
    assert(after.len() == final(kcp)@.len());
    assert(queue.len() == old(kcp)@.len());
    let ms = old(rb).messages();
    let n = old(out)@.len();
    if ms.len() > 0 && ms[0] == m {
        assert(crate::kcp::buffers::flat(ms).len() >= m.len());
        let left = seq![m.skip(n as int)] + ms.skip(1);
        assert(crate::kcp::buffers::unread(ms, n) =~= left);
        assert(left + Seq::<Seq<u8>>::empty() =~= left);
        assert(queue.skip(0) =~= queue);
    }
    if ms.len() == 0 && queue.len() > 0 && crate::kcp::buffers::contents(old(kcp)@[0]) == m {
        assert(queue[0] == m);
        assert(ms + seq![m.skip(n as int)] =~= seq![m.skip(n as int)]);
    }
}

/// Waiting until a deadline: the operation fails at the deadline and after it,
/// and before it waits just so long that the two together make the deadline.
/// Without a deadline it waits without end.
pub proof fn law_waits_end_at_the_deadline(
    conn: &KcpConn,
    deadline: Option<u64>,
    now: u64,
    s: Step,
)
    requires
        call_ensures(KcpConn::readable_step, (conn, false, deadline, now), s),
        !conn.read_closed,
        !conn.closed,
        conn.read_buf.messages().len() == 0,
    ensures
        deadline is None ==> s == Step::Wait(None),
        deadline matches Some(d) ==> (now >= d ==> s == Step::Fail(ConnError::TimedOut)),
        deadline matches Some(d) ==> (now < d ==> (s matches Step::Wait(Some(w)) && now + w == d)),
{
}

/// What can be read is ready whatever the deadline; a closed half or connection
/// that has nothing left is at its end.
pub proof fn law_readable_once_there_is_something(
    conn: &KcpConn,
    has_message: bool,
    deadline: Option<u64>,
    now: u64,
    s: Step,
)
    requires
        call_ensures(KcpConn::readable_step, (conn, has_message, deadline, now), s),
    ensures
        conn.read_closed ==> s == Step::Fail(ConnError::UnexpectedEof),
        !conn.read_closed && (has_message || conn.read_buf.messages().len() > 0) ==> s
            == Step::Ready,
        !conn.read_closed && !has_message && conn.read_buf.messages().len() == 0 && conn.closed
            ==> s == Step::Fail(ConnError::UnexpectedEof),
{
}

/// There is room to write while fewer segments are unacknowledged than the
/// window takes; a closed half or connection takes nothing; and waiting for room
/// ends at the deadline.
pub proof fn law_writable_while_the_window_has_room(
    conn: &KcpConn,
    deadline: Option<u64>,
    now: u64,
    s: Step,
)
    requires
        call_ensures(KcpConn::writable_step, (conn, deadline, now), s),
    ensures
        conn.closed || conn.write_closed ==> s == Step::Fail(ConnError::BrokenPipe),
        !conn.closed && !conn.write_closed && conn.wait_send < conn.snd_wnd ==> s == Step::Ready,
        !conn.closed && !conn.write_closed && conn.wait_send >= conn.snd_wnd ==> {
            &&& deadline is None ==> s == Step::Wait(None)
            &&& deadline matches Some(d) ==> (now >= d ==> s == Step::Fail(ConnError::TimedOut))
            &&& deadline matches Some(d) ==> (now < d ==> (s matches Step::Wait(Some(w)) && now + w == d))
        },
{
}

/// A timeout counts from now, and one too long to count ends with the clock.
pub proof fn law_deadline_lies_a_timeout_ahead(timeout: Option<u64>, now: u64, d: Option<u64>)
    requires
        call_ensures(KcpConn::deadline_after, (timeout, now), d),
    ensures
        timeout is None ==> d is None,
        timeout matches Some(ms) ==> d is Some && now <= d->0 && (d->0 - now == ms || (d->0
            == 0xFFFF_FFFF_FFFF_FFFF && d->0 - now < ms)),
{
}

/// A round of reading: bytes that are there are read before anything else is
/// looked at; a read half that is closed is at its end at once, a connection
/// that is closed once it is empty; and an open one waits until its deadline.
pub proof fn law_reading_comes_before_waiting(
    conn: &mut KcpConn,
    kcp: &mut VecDeque<Bytes>,
    buf: &mut [u8],
    deadline: Option<u64>,
    now: u64,
    r: ReadRound,
)
    requires
        call_ensures(KcpConn::read_step, (conn, kcp, buf, deadline, now), r),
        old(buf)@.len() > 0,
    ensures
        ({
            let ahead = crate::kcp::buffers::flat(old(conn).read_buf.messages()).len();
            let there = ahead + crate::kcp::buffers::readable(
                crate::kcp::buffers::all_contents(old(kcp)@),
            );
            &&& old(conn).read_closed ==> r.step == ReadStep::Done(0)
            &&& !old(conn).read_closed && 0 < there <= old(buf)@.len() ==> r.step == ReadStep::Done(
                there as usize,
            )
            &&& !old(conn).read_closed && there > old(buf)@.len() ==> r.step == ReadStep::Done(
                old(buf)@.len() as usize,
            )
            &&& !old(conn).read_closed && there == 0 && old(conn).closed ==> r.step
                == ReadStep::Done(0)
            &&& !old(conn).read_closed && there == 0 && !old(conn).closed ==> {
                &&& deadline is None ==> r.step == ReadStep::Wait(None)
                &&& deadline matches Some(d) ==> (now >= d ==> r.step == ReadStep::Fail(
                    ConnError::TimedOut,
                ))
                &&& deadline matches Some(d) ==> (now < d ==> (r.step matches ReadStep::Wait(Some(w)) && now + w == d))
            }
            &&& r.step matches ReadStep::Done(n) ==> (n > 0 ==> final(conn).last_activity_ms == now)
        }),
{
}

/// A polled read that finds nothing is armed a timeout ahead, once; it fails
/// when it is polled at that time or later, and not before; and what comes in
/// meanwhile is read.
pub proof fn law_polled_read_times_out_in_time(
    conn: &mut KcpConn,
    kcp: &mut VecDeque<Bytes>,
    buf: &mut [u8],
    changed: bool,
    now: u64,
    r: PollRead,
)
    requires
        call_ensures(KcpConn::poll_read_into, (conn, kcp, buf, changed, now), r),
        old(buf)@.len() > 0,
        !old(conn).read_closed,
    ensures
        ({
            let there = crate::kcp::buffers::flat(old(conn).read_buf.messages()).len()
                + crate::kcp::buffers::readable(crate::kcp::buffers::all_contents(old(kcp)@));
            let armed = !changed && old(conn).read_deadline is Some;
            &&& armed && now >= old(conn).read_deadline->0 ==> r.step == PollStep::Fail(
                ConnError::TimedOut,
            ) && final(conn).read_deadline is None
            &&& !(armed && now >= old(conn).read_deadline->0) ==> {
                &&& there > 0 ==> r.step is Ready && r.step->Ready_0 > 0
                    && final(conn).read_deadline is None
                &&& there == 0 && old(conn).closed ==> r.step == PollStep::Ready(0)
                &&& there == 0 && !old(conn).closed ==> r.step is Pending
                &&& there == 0 && !old(conn).closed && armed && old(conn).read_timeout is Some
                    ==> final(conn).read_deadline == old(conn).read_deadline
                &&& there == 0 && !old(conn).closed && !armed && old(conn).read_timeout is Some && now
                    + old(conn).read_timeout->0 <= u64::MAX ==> final(conn).read_deadline is Some
                    && final(conn).read_deadline->0 - now == old(conn).read_timeout->0
                &&& there == 0 && !old(conn).closed && old(conn).read_timeout is None
                    ==> final(conn).read_deadline is None
            }
        }),
{
}

/// What one write hands over is the most that all three bounds allow: what there
/// is, 65536 bytes, and a segment for each free place of the window.
pub proof fn law_write_takes_what_the_window_has_room_for(
    conn: &KcpConn,
    mss: usize,
    queued: usize,
    len: usize,
    max_frag: usize,
    p: SendPlan,
)
    requires
        call_ensures(KcpConn::send_plan, (conn, mss, queued, len, max_frag), p),
    ensures
        p.total <= len,
        p.total <= 65536,
        queued < conn.snd_wnd ==> p.total <= (conn.snd_wnd - queued) * mss,
        queued >= conn.snd_wnd ==> p.total == 0,
        p.total == len || p.total == 65536 || p.total == 0 || p.total == (conn.snd_wnd - queued)
            * mss,
        p.total == 0 ==> len == 0 || mss == 0 || queued >= conn.snd_wnd,
        1 < max_frag && (max_frag - 1) * mss <= usize::MAX ==> p.max_chunk == (max_frag - 1) * mss,
        max_frag <= 1 ==> p.max_chunk == mss,
{
    assert(0 * mss == 0) by (nonlinear_arith);
    if queued < conn.snd_wnd {
        let free = conn.snd_wnd - queued;
        assert(free * mss >= mss) by (nonlinear_arith)
            requires
                free >= 1,
                mss >= 0,
        ;
    }
    if max_frag > 1 {
        let f = max_frag - 1;
        assert(f * mss >= mss) by (nonlinear_arith)
            requires
                f >= 1,
                mss >= 0,
        ;
    }
}

/// Pieces follow each other up to the end: each is as long as may be but the
/// last, and what was taken is that of the pieces that were.
pub proof fn law_pieces_run_to_the_end(
    p: &SendPlan,
    offset: usize,
    end: usize,
    pieces: usize,
    n: usize,
)
    ensures
        call_ensures(SendPlan::chunk_end, (p, offset), end) && offset <= p.total ==> offset <= end
            <= p.total && (end == p.total || end - offset == p.max_chunk) && end - offset
            <= p.max_chunk,
        call_ensures(SendPlan::accepted, (p, pieces), n) ==> n <= p.total && (n == p.total || n
            == pieces * p.max_chunk) && (pieces * p.max_chunk <= p.total ==> n == pieces
            * p.max_chunk),
{
}

/// A polled write: closed halves take nothing; no data is done at once; while
/// the window has room data is handed over; and a full window arms the timeout
/// once, at which the write fails.
pub proof fn law_polled_write_waits_for_room(
    conn: &mut KcpConn,
    len: usize,
    changed: bool,
    queued: usize,
    now: u64,
    s: WriteStep,
)
    requires
        call_ensures(KcpConn::poll_write_step, (conn, len, changed, queued, now), s),
    ensures
        ({
            let open = !old(conn).closed && !old(conn).write_closed;
            let armed = !changed && old(conn).write_deadline is Some;
            let late = armed && now >= old(conn).write_deadline->0;
            &&& !open ==> s == WriteStep::Fail(ConnError::BrokenPipe)
            &&& open && len == 0 ==> s == WriteStep::Done(0)
            &&& open && len > 0 && late ==> s == WriteStep::Fail(ConnError::TimedOut)
                && final(conn).write_deadline is None
            &&& open && len > 0 && !late && queued < old(conn).snd_wnd ==> s == WriteStep::Send
            &&& open && len > 0 && !late && queued >= old(conn).snd_wnd ==> s is Pending
            &&& open && len > 0 && !late && queued >= old(conn).snd_wnd && armed && old(conn).write_timeout is Some ==> final(conn).write_deadline == old(conn).write_deadline
            &&& open && len > 0 && !late && queued >= old(conn).snd_wnd && !armed && old(conn).write_timeout is Some && now + old(conn).write_timeout->0 <= u64::MAX ==> final(conn).write_deadline is Some && final(conn).write_deadline->0 - now == old(conn).write_timeout->0
        }),
{
}

/// A whole write is done once all its bytes were taken, and not before; until
/// then it is handed over while the window has room.
pub proof fn law_whole_write_ends_with_its_last_byte(
    w: &WriteAll,
    conn: &KcpConn,
    len: usize,
    queued: usize,
    s: WriteStep,
)
    requires
        call_ensures(WriteAll::next, (w, conn, len, queued), s),
    ensures
        (s is Done) == (w.offset >= len),
        w.offset < len && (conn.closed || conn.write_closed) ==> s == WriteStep::Fail(
            ConnError::BrokenPipe,
        ),
        w.offset < len && !conn.closed && !conn.write_closed ==> (s == WriteStep::Send) == (queued
            < conn.snd_wnd),
{
}

/// A blocked write waits its timeout from when it was blocked first, and gives
/// up then only where the window is still full.
pub proof fn law_blocked_write_gives_up_in_time(
    w: &mut WriteAll,
    conn: &KcpConn,
    now: u64,
    s: Step,
)
    requires
        call_ensures(WriteAll::blocked, (w, conn, now), s),
    ensures
        conn.write_timeout is None ==> s == Step::Wait(None),
        conn.write_timeout matches Some(ms) ==> {
            &&& old(w).blocked_deadline is None && ms > 0 && now + ms <= u64::MAX ==> s
                == Step::Wait(Some(ms)) && final(w).blocked_deadline is Some
                && final(w).blocked_deadline->0 - now == ms
            &&& old(w).blocked_deadline matches Some(d) ==> (now < d ==> (s matches Step::Wait(Some(k))
                && now + k == d && final(w).blocked_deadline == Some(d)))
            &&& old(w).blocked_deadline matches Some(d) ==> (now >= d && conn.wait_send
                >= conn.snd_wnd ==> s == Step::Fail(ConnError::TimedOut))
            &&& old(w).blocked_deadline matches Some(d) ==> (now >= d && conn.wait_send
                < conn.snd_wnd ==> s == Step::Ready && final(w).blocked_deadline is None)
        },
        final(w).offset == old(w).offset,
{
}

/// Each piece that is taken moves a write on by its bytes, and ends its being
/// blocked.
pub proof fn law_pieces_move_a_write_on(
    w: &mut WriteAll,
    conn: &mut KcpConn,
    sent: usize,
    queued: usize,
    now: u64,
    notify: bool,
)
    requires
        call_ensures(WriteAll::sent, (w, conn, sent, queued, now), notify),
        old(w).offset + sent <= usize::MAX,
    ensures
        final(w).offset - old(w).offset == sent,
        notify == (sent > 0),
        final(conn).wait_send == queued,
        sent > 0 ==> final(w).blocked_deadline is None && final(conn).last_activity_ms == now,
        sent == 0 ==> *final(w) == *old(w) && final(conn).last_activity_ms == old(conn).last_activity_ms,
        final(conn).snd_wnd == old(conn).snd_wnd && final(conn).closed == old(conn).closed,
{
}

/// A peek shows the front of what the next read would give, and takes nothing.
pub proof fn law_peek_shows_the_front(
    conn: &KcpConn,
    front: Option<&[u8]>,
    buf: &mut [u8],
    r: Result<usize, ConnError>,
    m: Seq<u8>,
)
    requires
        call_ensures(KcpConn::peek, (conn, front, buf), r),
        !conn.read_closed,
        old(buf)@.len() > 0,
    ensures
        (conn.read_buf.messages().len() > 0 && conn.read_buf.messages()[0] == m) || (
        conn.read_buf.messages().len() == 0 && front is Some && front->0@ == m) ==> {
            &&& r is Ok
            &&& r->Ok_0 <= old(buf)@.len() && r->Ok_0 <= m.len()
            &&& r->Ok_0 == old(buf)@.len() || r->Ok_0 == m.len()
            &&& final(buf)@ == m.take(r->Ok_0 as int) + old(buf)@.skip(r->Ok_0 as int)
        },
        conn.read_buf.messages().len() == 0 && front is None ==> r == Err::<usize, ConnError>(
            ConnError::WouldBlock,
        ) && final(buf)@ == old(buf)@,
{
    let b = old(buf)@;
    assert(b.len() == old(buf).len());
    if m.len() >= b.len() {
        assert(m.take(b.len() as int) + b.skip(b.len() as int) =~= m.take(b.len() as int));
    } else {
        assert(m.take(m.len() as int) =~= m);
    }
}

/// Shutting one half down leaves the other and the connection open; both
/// together are the connection.
pub proof fn law_halves_are_shut_one_by_one(conn: &mut KcpConn, how: Shutdown, closed_now: bool)
    requires
        call_ensures(KcpConn::shutdown, (conn, how), closed_now),
    ensures
        how == Shutdown::Read ==> final(conn).read_closed && final(conn).write_closed == old(conn).write_closed && final(conn).closed == old(conn).closed && !closed_now && final(conn).read_buf.messages().len() == 0,
        how == Shutdown::Write ==> final(conn).write_closed && final(conn).read_closed == old(conn).read_closed && final(conn).closed == old(conn).closed && !closed_now,
        how == Shutdown::Both ==> final(conn).read_closed && final(conn).write_closed && final(conn).closed && closed_now == !old(conn).closed,
{
}

/// The input loop: a datagram is taken in and is activity, an empty one is not;
/// a failure is kept and rested after, for 10 milliseconds; a closed connection
/// ends it.
pub proof fn law_input_loop(conn: &mut KcpConn, event: InputEvent, now: u64, s: InputStep)
    requires
        call_ensures(KcpConn::input_step, (conn, event, now), s),
    ensures
        event matches InputEvent::Got(n) ==> {
            &&& n > 0 ==> s == InputStep::Collect && final(conn).last_activity_ms == now
            &&& n == 0 ==> s == InputStep::Again && *final(conn) == *old(conn)
        },
        event matches InputEvent::Failed(e) ==> {
            &&& !old(conn).closed ==> s == InputStep::Rest(10) && final(conn).last_error == Some(e)
            &&& old(conn).closed ==> s == InputStep::End && *final(conn) == *old(conn)
        },
        event is Cancelled ==> s == InputStep::End && *final(conn) == *old(conn),
{
}

/// Input that was accepted makes the connection, and wakes whoever waits for it,
/// the first time; writers are woken while the window has room, and readers
/// where there is something to read.
pub proof fn law_input_wakes_those_who_wait(
    conn: &mut KcpConn,
    had_input: bool,
    queued: usize,
    kcp: &mut VecDeque<Bytes>,
    w: InboundWakes,
)
    requires
        call_ensures(KcpConn::inbound_done, (conn, had_input, queued, kcp), w),
    ensures
        w.connecting == (had_input && !old(conn).first_inbound),
        had_input ==> final(conn).first_inbound,
        !had_input ==> final(conn).first_inbound == old(conn).first_inbound,
        w.writer == (queued < old(conn).snd_wnd),
        final(conn).wait_send == queued,
        old(conn).read_closed ==> !w.reader,
        !old(conn).read_closed ==> w.reader == (final(conn).read_buf.messages().len()
            + final(kcp)@.len() > 0),
        final(conn).read_buf.messages() + crate::kcp::buffers::all_contents(final(kcp)@) == old(conn).read_buf.messages() + crate::kcp::buffers::all_contents(old(kcp)@),
{
    let ms = crate::kcp::buffers::all_contents(old(kcp)@);
    let k = crate::kcp::inbound::prefetch_count(
        crate::kcp::buffers::flat(old(conn).read_buf.messages()).len(),
        old(conn).read_buf.messages().len(),
        ms,
    ) as int;
    law_prefetch_takes_all_that_fits(
        crate::kcp::buffers::flat(old(conn).read_buf.messages()).len(),
        old(conn).read_buf.messages().len(),
        ms,
    );
    assert(ms.take(k) + ms.skip(k) =~= ms);
    assert(old(conn).read_buf.messages() + ms.take(k) + ms.skip(k)
        =~= old(conn).read_buf.messages() + ms);
    assert(crate::kcp::buffers::all_contents(final(kcp)@).len() == final(kcp)@.len());
}

/// Only one sends at a time, and takes all packets, in their order; packets that
/// come meanwhile are not lost, and the flush loop is woken for them.
pub proof fn law_one_sender_takes_all_packets(
    conn: &mut KcpConn,
    batch: Option<Vec<Bytes>>,
    done: &mut KcpConn,
    sent: Vec<Bytes>,
    notify: bool,
)
    ensures
        call_ensures(KcpConn::try_start_sending, (conn,), batch) ==> {
            &&& batch is Some == !old(conn).is_sending
            &&& final(conn).is_sending
            &&& batch is Some ==> crate::kcp::buffers::all_contents(batch->0@) == old(conn).raw_packets.packets() && final(conn).raw_packets.packets().len() == 0
            &&& batch is None ==> *final(conn) == *old(conn)
        },
        call_ensures(KcpConn::finish_sending, (done, sent), notify) ==> {
            &&& !final(done).is_sending
            &&& final(done).raw_packets.packets() == old(done).raw_packets.packets()
            &&& notify == (old(done).raw_packets.packets().len() > 0)
        },
{
}

/// A burst grows by 16 slots at a time, up to 64 datagrams.
pub proof fn law_bursts_grow_in_steps(len: usize, end: Option<usize>, b: &mut Burst, got: usize, more: bool)
    ensures
        call_ensures(burst_pool_end, (len,), end) ==> {
            &&& len >= 64 ==> end is None
            &&& len < 64 ==> end is Some && len < end->0 <= 64 && (end->0 - len == 16 || (end->0
                == 64 && end->0 - len < 16))
        },
        call_ensures(Burst::grown, (b, got), more) ==> {
            &&& final(b).len - old(b).len == got
            &&& more == (got > 0 && final(b).len < 64)
        },
{
}

/// A connection is as its builder was told: each setting arrives where it is
/// used.
pub proof fn law_settings_arrive(b: KcpConnBuilder, now: u64, r: Result<Connecting, ConnError>)
    requires
        call_ensures(KcpConnBuilder::build, (b, now), r),
        r is Ok,
    ensures
        ({
            let c = r->Ok_0.conn;
            &&& c.kcp.conv == b.config.conv && c.conv.conv == b.config.conv
            &&& c.kcp.token == b.config.token
            &&& c.kcp.mtu == b.config.mtu
            &&& c.kcp.snd_wnd == b.config.sndwnd && c.snd_wnd == b.config.sndwnd
            &&& c.kcp.rcv_wnd == b.config.rcvwnd
            &&& c.kcp.stream == b.config.stream
            &&& c.acknodelay == b.config.acknodelay
            &&& c.conv.adopting == b.adopt_conv
            &&& c.background_input == b.background_input
            &&& c.fec == (b.config.datashard > 0 && b.config.parityshard > 0)
            &&& c.connected == (b.connected || !b.has_transport)
            &&& b.config.mode == KcpMode::Manual ==> c.kcp.nodelay == b.config.nodelay
                && c.kcp.interval == b.config.interval && c.kcp.resend == b.config.resend
                && c.kcp.nc == b.config.nc && c.nodelay == (b.config.nodelay != 0)
            &&& b.config.mode == KcpMode::Normal ==> c.kcp.interval == 40 && c.kcp.nodelay == 0
                && !c.nodelay
            &&& b.config.mode == KcpMode::Fast ==> c.kcp.interval == 30 && c.kcp.nodelay == 0
                && !c.nodelay
            &&& b.config.mode == KcpMode::Fast2 ==> c.kcp.interval == 20 && c.kcp.nodelay == 1
                && c.nodelay
            &&& b.config.mode == KcpMode::Fast3 ==> c.kcp.interval == 10 && c.kcp.nodelay == 1
                && c.nodelay
            &&& b.config.mode != KcpMode::Manual ==> c.kcp.resend == 2 && c.kcp.nc == 1
            &&& c.last_activity_ms == now
            &&& !c.closed && !c.read_closed && !c.write_closed && !c.first_inbound && !c.is_sending
            &&& c.wait_send == 0
            &&& c.read_buf.messages().len() == 0 && c.raw_packets.packets().len() == 0
            &&& b.has_transport ==> r->Ok_0.transport == TransportPlan::Given
            &&& !b.has_transport ==> r->Ok_0.transport == TransportPlan::Dial(b.dial)
            &&& r->Ok_0.wait == b.connect_timeout
        }),
{
}

/// A connection is made where there is an address, and where the peer is waited
/// for, only one that reads its transport itself.
pub proof fn law_builders_that_cannot_wait_are_refused(
    b: KcpConnBuilder,
    now: u64,
    r: Result<Connecting, ConnError>,
)
    requires
        call_ensures(KcpConnBuilder::build, (b, now), r),
    ensures
        r is Err <==> (b.remote is None || (b.connect_timeout is Some && !b.background_input)),
        r is Err ==> r->Err_0 == ConnError::InvalidInput,
{
}

/// Where the peer is waited for, it is asked at once; the connection is handed
/// over once a packet of it came in, and not where the time was up before.
pub proof fn law_connecting_waits_for_the_peer(
    c: &Connecting,
    start: ConnectStart,
    d: &mut Connecting,
    timed_out: bool,
    s: Step,
    e: Connecting,
    r: Result<KcpConn, ConnError>,
)
    ensures
        call_ensures(Connecting::begin, (c,), start) ==> start.wait == c.wait && start.probe == (
        c.wait is Some) && start.wake_flush == (c.wait is Some),
        call_ensures(Connecting::step, (d, timed_out), s) && old(d).wait is Some && !old(d).timed_out ==> {
            &&& timed_out ==> s == Step::Fail(ConnError::TimedOut) && final(d).conn.closed
                && final(d).timed_out
            &&& !timed_out && old(d).conn.first_inbound ==> s == Step::Ready
            &&& !timed_out && !old(d).conn.first_inbound && old(d).conn.closed ==> s == Step::Fail(
                ConnError::NotConnected,
            )
            &&& !timed_out && !old(d).conn.first_inbound && !old(d).conn.closed ==> s
                == Step::Wait(None)
            &&& !timed_out ==> *final(d) == *old(d)
        },
        call_ensures(Connecting::finish, (e,), r) ==> {
            &&& e.wait is None ==> r is Ok
            &&& e.wait is Some ==> (r is Ok == (e.conn.first_inbound && !e.timed_out))
            &&& r is Ok ==> r->Ok_0 == e.conn
            &&& e.wait is Some && e.timed_out ==> r->Err_0 == ConnError::TimedOut
            &&& e.wait is Some && !e.timed_out && r is Err ==> r->Err_0 == ConnError::NotConnected
        },
{
}

/// The profiles: the faster, the shorter the interval; the two fastest without
/// delay; all resend after two skips and without congestion control.
pub proof fn law_profiles(m: KcpMode, p: Option<(u32, u32, u32, u32)>)
    requires
        call_ensures(KcpMode::nodelay_params, (m,), p),
    ensures
        p is None == (m == KcpMode::Manual),
        p matches Some(t) ==> t.2 == 2 && t.3 == 1,
        p matches Some(t) ==> (m == KcpMode::Normal ==> t.0 == 0 && t.1 == 40),
        p matches Some(t) ==> (m == KcpMode::Fast ==> t.0 == 0 && t.1 == 30),
        p matches Some(t) ==> (m == KcpMode::Fast2 ==> t.0 == 1 && t.1 == 20),
        p matches Some(t) ==> (m == KcpMode::Fast3 ==> t.0 == 1 && t.1 == 10),
{
}

/// An endpoint takes over all that a configuration sets, and keeps its
/// conversation.
pub proof fn law_configuration_is_taken_over(k: &mut KCP, config: &KcpConfig)
    requires
        call_ensures(KCP::apply, (k, config), ()),
    ensures
        final(k).conv == old(k).conv && final(k).token == old(k).token,
        final(k).mtu == config.mtu,
        final(k).snd_wnd == config.sndwnd,
        final(k).rcv_wnd == config.rcvwnd,
        final(k).stream == config.stream,
        final(k).mode == config.mode,
        config.mode == KcpMode::Manual ==> final(k).nodelay == config.nodelay && final(k).interval
            == config.interval && final(k).resend == config.resend && final(k).nc == config.nc,
        config.mode == KcpMode::Fast3 ==> final(k).nodelay == 1 && final(k).interval == 10
            && final(k).resend == 2 && final(k).nc == 1,
        config.mode == KcpMode::Fast2 ==> final(k).nodelay == 1 && final(k).interval == 20
            && final(k).resend == 2 && final(k).nc == 1,
        config.mode == KcpMode::Fast ==> final(k).nodelay == 0 && final(k).interval == 30
            && final(k).resend == 2 && final(k).nc == 1,
        config.mode == KcpMode::Normal ==> final(k).nodelay == 0 && final(k).interval == 40
            && final(k).resend == 2 && final(k).nc == 1,
{
}

/// Settings that are changed later: each changes what it names and nothing else.
pub proof fn law_settings_change_what_they_name(
    conn: &mut KcpConn,
    on: bool,
    snd: u32,
    rcv: u32,
    wake: bool,
    t: (u32, u32, u32, u32),
)
    ensures
        call_ensures(KcpConn::set_nodelay, (conn, on), ()) ==> {
            &&& final(conn).nodelay == on
            &&& on ==> final(conn).kcp.nodelay == 1 && final(conn).kcp.interval == 10
            &&& !on ==> final(conn).kcp.nodelay == 0 && final(conn).kcp.interval == 40
            &&& final(conn).kcp.resend == 2 && final(conn).kcp.nc == 1
            &&& final(conn).kcp.snd_wnd == old(conn).kcp.snd_wnd && final(conn).kcp.conv == old(conn).kcp.conv
        },
        call_ensures(KcpConn::set_kcp_window_size, (conn, snd, rcv), wake) ==> {
            &&& final(conn).kcp.snd_wnd == snd && final(conn).snd_wnd == snd
            &&& final(conn).kcp.rcv_wnd == rcv
            &&& wake == (old(conn).wait_send < snd)
            &&& final(conn).wait_send == old(conn).wait_send
        },
        call_ensures(KcpConn::set_kcp_nodelay, (conn, t.0, t.1, t.2, t.3), ()) ==> final(conn).kcp.nodelay == t.0 && final(conn).kcp.interval == t.1 && final(conn).kcp.resend == t.2
            && final(conn).kcp.nc == t.3 && final(conn).kcp.mode == KcpMode::Manual,
{
}

/// The flush loop waits until its deadline, drives the protocol at it and not
/// before, and without one waits for activity, after which it is armed one
/// interval of the protocol ahead, of 1 to 100 milliseconds.
pub proof fn law_flush_comes_at_its_deadline(
    s: &FlushState,
    now: u64,
    w: Option<u64>,
    t: &mut FlushState,
    interval_ms: u64,
    step: FlushStep,
)
    requires
        now + 1_000_000_000 <= u64::MAX,
    ensures
        call_ensures(FlushState::wait, (s, now), w) ==> {
            &&& s.next_deadline is None ==> w is None
            &&& s.next_deadline matches Some(d) ==> w is Some && (now <= d ==> now + w->0 == d)
            &&& s.next_deadline matches Some(d) ==> (now > d ==> w == Some(0u64))
        },
        call_ensures(FlushState::due, (t, now, interval_ms), step) ==> {
            &&& old(t).next_deadline matches Some(d) ==> (step == FlushStep::Flush) == (now >= d)
                && *final(t) == *old(t)
            &&& old(t).next_deadline is None ==> step == FlushStep::Wait && final(t).next_deadline is Some && final(t).idle_candidate == old(t).idle_candidate
            &&& old(t).next_deadline is None && 1 <= interval_ms <= 100 ==> final(t).next_deadline->0 - now == interval_ms * 1_000_000
            &&& old(t).next_deadline is None && interval_ms < 1 ==> final(t).next_deadline->0 - now
                == 1_000_000
            &&& old(t).next_deadline is None && interval_ms > 100 ==> final(t).next_deadline->0
                - now == 100_000_000
        },
{
}

/// While something is unacknowledged the protocol is driven again when it asks
/// for it, within 1 to 10 milliseconds; otherwise a second later, and if there is
/// still nothing, on activity only. Activity ends the second.
pub proof fn law_flush_rests_when_nothing_is_outstanding(
    s: &mut FlushState,
    now: u64,
    delay_ms: u64,
    wait_send: usize,
    t: &mut FlushState,
    notified: bool,
)
    requires
        now + 1_000_000_000 <= u64::MAX,
    ensures
        call_ensures(FlushState::flushed, (s, now, delay_ms, wait_send), ()) ==> {
            &&& wait_send > 0 ==> final(s).next_deadline is Some && !final(s).idle_candidate
            &&& wait_send > 0 && 1 <= delay_ms <= 10 ==> final(s).next_deadline->0 - now == delay_ms
                * 1_000_000
            &&& wait_send > 0 && delay_ms < 1 ==> final(s).next_deadline->0 - now == 1_000_000
            &&& wait_send > 0 && delay_ms > 10 ==> final(s).next_deadline->0 - now == 10_000_000
            &&& wait_send == 0 && !old(s).idle_candidate ==> final(s).next_deadline is Some
                && final(s).next_deadline->0 - now == 1_000_000_000 && final(s).idle_candidate
            &&& wait_send == 0 && old(s).idle_candidate ==> final(s).next_deadline is None && !final(s).idle_candidate
        },
        call_ensures(FlushState::woken, (t, notified), ()) ==> {
            &&& !notified ==> *final(t) == *old(t)
            &&& notified ==> !final(t).idle_candidate
            &&& notified && old(t).idle_candidate ==> final(t).next_deadline is None
            &&& notified && !old(t).idle_candidate ==> final(t).next_deadline == old(t).next_deadline
        },
{
}

/// Packets that are produced wait in order, all are taken at once, and storage
/// that comes back is kept unless it has more than 256 places.
pub proof fn law_raw_packets_wait_in_order(
    q: &mut RawPacketQueue,
    data: Bytes,
    batch: Vec<Bytes>,
    capacity: usize,
)
    ensures
        call_ensures(RawPacketQueue::push, (q, data), ()) ==> final(q).packets() == old(q).packets()
            + seq![crate::kcp::buffers::contents(data)],
        call_ensures(RawPacketQueue::drain, (q,), batch) ==> final(q).packets().len() == 0
            && batch@.len() == old(q).packets().len() && forall|i: int|
            0 <= i < batch@.len() ==> crate::kcp::buffers::contents(#[trigger] batch@[i]) == old(q).packets()[i],
        call_ensures(RawPacketQueue::take_back, (q, batch, capacity), ()) ==> {
            &&& final(q).packets() == old(q).packets()
            &&& capacity <= 256 ==> final(q).spare_slots() == capacity
            &&& capacity > 256 ==> final(q).spare_slots() == old(q).spare_slots()
        },
{
    if call_ensures(RawPacketQueue::push, (q, data), ()) {
        assert(old(q).packets().push(crate::kcp::buffers::contents(data)) =~= old(q).packets()
            + seq![crate::kcp::buffers::contents(data)]);
    }
    if call_ensures(RawPacketQueue::drain, (q,), batch) {
        let all = crate::kcp::buffers::all_contents(batch@);
        assert(all.len() == batch@.len());
        assert forall|i: int| 0 <= i < batch@.len() implies crate::kcp::buffers::contents(
            #[trigger] batch@[i],
        ) == old(q).packets()[i] by {
            assert(all[i] == crate::kcp::buffers::contents(batch@[i]));
        }
    }
}

} // verus!
