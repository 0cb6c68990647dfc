//! What the queues of peers and the listener are for, stated over what calls
//! take and give.

use crate::kcp::listener::{
    sweep_due, AcceptError, BuildResult, Drain, KcpListener, KcpListenerLimits, ListenerStatsSnapshot,
    PendingAccept, Session,
};
use crate::kcp::transport::{PeerQueue, RecvError, RecvStep};
use vstd::prelude::*;

verus! {

/// A queue takes a packet behind all others while it has room, and else counts
/// it as dropped and stays as it is. Either way there is a buffer of 2048 bytes
/// for the next one.
pub proof fn law_queue_takes_what_it_has_room_for(
    q: &mut PeerQueue,
    pkt: Vec<u8>,
    r: (Vec<u8>, bool),
)
    requires
        call_ensures(PeerQueue::push_and_reuse, (q, pkt), r),
    ensures
        r.0@.len() == 2048,
        old(q)@.max_packets == 0 || old(q)@.packets.len() < old(q)@.max_packets ==> r.1
            && final(q)@.packets == old(q)@.packets + seq![pkt@] && final(q)@.drops == old(q)@.drops,
        0 < old(q)@.max_packets <= old(q)@.packets.len() ==> !r.1 && final(q)@.packets
            == old(q)@.packets && final(q)@.spare == old(q)@.spare && (old(q)@.drops < u64::MAX
            ==> final(q)@.drops - old(q)@.drops == 1),
        final(q)@.closed == old(q)@.closed,
{
    assert(old(q)@.packets.push(pkt@) =~= old(q)@.packets + seq![pkt@]);
}

/// Packets come out as they went in: what is taken out and what stays are what
/// there was.
pub proof fn law_queue_keeps_its_order(
    q: &mut PeerQueue,
    p: Option<Vec<u8>>,
    r: &mut PeerQueue,
    buf: &mut Vec<u8>,
    n: Option<usize>,
)
    requires
        call_ensures(PeerQueue::pop, (q,), p),
        call_ensures(PeerQueue::pop_into, (r, buf), n),
    ensures
        p is Some == (old(q)@.packets.len() > 0),
        p is Some ==> old(q)@.packets == seq![p->0@] + final(q)@.packets,
        p is None ==> final(q)@ == old(q)@,
        n is Some == (old(r)@.packets.len() > 0),
        n is Some ==> old(r)@.packets == seq![final(buf)@] + final(r)@.packets && n->0
            == final(buf)@.len(),
        n is None ==> final(r)@ == old(r)@ && final(buf)@ == old(buf)@,
        n is Some && old(r)@.spare.len() < 64 ==> final(r)@.spare.len() == old(r)@.spare.len() + 1
            && final(r)@.spare.last().len() == 2048,
        n is Some && old(r)@.spare.len() >= 64 ==> final(r)@.spare == old(r)@.spare,
{
    let a = old(q)@.packets;
    if a.len() > 0 {
        assert(a =~= seq![a[0]] + a.skip(1));
    }
    let b = old(r)@.packets;
    if b.len() > 0 {
        assert(b =~= seq![b[0]] + b.skip(1));
    }
}

proof fn lemma_batch_leaves_the_rest(
    q: crate::kcp::transport::PeerQueueState,
    pool: Seq<Seq<u8>>,
    n: nat,
)
    requires
        n <= q.packets.len(),
    ensures
        crate::kcp::transport::batch_popped(q, pool, n).packets == q.packets.skip(n as int),
        crate::kcp::transport::batch_popped(q, pool, n).closed == q.closed,
        crate::kcp::transport::batch_popped(q, pool, n).drops == q.drops,
    decreases n,
{
    if n > 0 {
        lemma_batch_leaves_the_rest(q, pool, (n - 1) as nat);
        assert(q.packets.skip(n - 1).skip(1) =~= q.packets.skip(n as int));
    } else {
        assert(q.packets.skip(0) =~= q.packets);
    }
}

/// A batch takes as many packets as there are buffers and packets, in order: the
/// buffers that were filled and what stays are what there was.
pub proof fn law_batch_takes_packets_in_order(
    q: &mut PeerQueue,
    pool: &mut Vec<Vec<u8>>,
    r: Result<usize, RecvError>,
)
    requires
        call_ensures(PeerQueue::pop_batch, (q, pool), r),
    ensures
        old(q)@.packets.len() == 0 ==> r == Err::<usize, RecvError>(RecvError::WouldBlock)
            && final(q)@.packets == old(q)@.packets,
        old(q)@.packets.len() > 0 ==> {
            &&& r is Ok
            &&& r->Ok_0 <= final(pool)@.len()
            &&& r->Ok_0 == final(pool)@.len() || final(q)@.packets.len() == 0
            &&& crate::wire::byte_rows(final(pool)@.take(r->Ok_0 as int)) + final(q)@.packets == old(q)@.packets
        },
        final(pool)@.len() == old(pool)@.len(),
        final(q)@.closed == old(q)@.closed,
{
    let ps = old(q)@.packets;
    let n = if ps.len() <= old(pool)@.len() {
        ps.len()
    } else {
        old(pool)@.len()
    };
    lemma_batch_leaves_the_rest(old(q)@, crate::wire::byte_rows(old(pool)@), n);
    assert(old(pool)@.len() == old(pool).len());
    if ps.len() > 0 {
        assert(r->Ok_0 == n);
        let rows = crate::wire::byte_rows(final(pool)@.take(n as int));
        assert(rows =~= ps.take(n as int)) by {
            assert forall|i: int| 0 <= i < n implies rows[i] == ps[i] by {
                assert(rows[i] == final(pool)@[i]@);
            }
        }
        assert(ps.take(n as int) + ps.skip(n as int) =~= ps);
    }
}

/// A receiver gets the first packet, cut to its buffer; a closed queue ends only
/// once it is empty.
pub proof fn law_receiver_gets_the_first_packet(
    q: &mut PeerQueue,
    buf: &mut [u8],
    s: RecvStep,
    p: Seq<u8>,
    rest: Seq<Seq<u8>>,
)
    requires
        call_ensures(PeerQueue::recv_step, (q, buf), s),
    ensures
        old(q)@.packets == seq![p] + rest ==> {
            &&& s is Ready
            &&& s->Ready_0 <= p.len() && s->Ready_0 <= old(buf)@.len()
            &&& s->Ready_0 == p.len() || s->Ready_0 == old(buf)@.len()
            &&& final(buf)@ == p.take(s->Ready_0 as int) + old(buf)@.skip(s->Ready_0 as int)
            &&& final(q)@.packets == rest
        },
        old(q)@.packets.len() == 0 && old(q)@.closed ==> s == RecvStep::Closed,
        old(q)@.packets.len() == 0 && !old(q)@.closed ==> s == RecvStep::Wait,
        old(q)@.packets.len() == 0 ==> final(buf)@ == old(buf)@ && final(q)@ == old(q)@,
{
    let b = old(buf)@;
    assert(b.len() == old(buf).len());
    if old(q)@.packets == seq![p] + rest {
        assert(old(q)@.packets[0] == p);
        assert((seq![p] + rest).skip(1) =~= rest);
        if p.len() >= b.len() {
            assert(p.take(b.len() as int) + b.skip(b.len() as int) =~= p.take(b.len() as int));
        } else {
            assert(p.take(p.len() as int) =~= p);
        }
    }
}

/// A datagram of a peer whose session is open goes into its queue, behind what
/// is there; the session stays, nothing more is to be built, and the peer is
/// among those to be woken.
pub proof fn law_datagram_joins_its_session(
    l: &mut KcpListener,
    peer: u64,
    data: Vec<u8>,
    now: u64,
    spare: Vec<u8>,
    g: u64,
)
    requires
        call_ensures(KcpListener::route_inner, (l, peer, data, now), spare),
        old(l)@.sessions.contains_key(peer),
        old(l)@.sessions[peer].generation == g,
        !old(l)@.queues[g].closed,
    ensures
        final(l)@.sessions == old(l)@.sessions,
        final(l)@.build_work == old(l)@.build_work,
        final(l)@.pending == old(l)@.pending,
        final(l)@.next_generation == old(l)@.next_generation,
        old(l)@.queues[g].max_packets == 0 || old(l)@.queues[g].packets.len() < old(l)@.queues[g].max_packets ==> {
            &&& final(l)@.queues[g].packets == old(l)@.queues[g].packets + seq![data@]
            &&& final(l)@.counters.queue_drops == old(l)@.counters.queue_drops
            &&& exists|i: int|
                0 <= i < final(l)@.affected.len() && (#[trigger] final(l)@.affected[i]).0 == peer
        },
        0 < old(l)@.queues[g].max_packets <= old(l)@.queues[g].packets.len() ==> {
            &&& final(l)@.queues[g].packets == old(l)@.queues[g].packets
            &&& final(l)@.affected == old(l)@.affected
            &&& old(l)@.counters.queue_drops < u64::MAX ==> final(l)@.counters.queue_drops - old(l)@.counters.queue_drops == 1
            &&& old(l)@.queues[g].drops < u64::MAX ==> final(l)@.queues[g].drops - old(l)@.queues[g].drops == 1
        },
        old(l)@.counters.affected_comparisons < u64::MAX ==> final(l)@.counters.affected_comparisons - old(l)@.counters.affected_comparisons == 1,
        final(l)@.counters.session_drops == old(l)@.counters.session_drops,
        !final(l)@.queues[g].closed,
{
    let a = old(l)@.affected;
    let ps = old(l)@.queues[g].packets;
    assert(ps.push(data@) =~= ps + seq![data@]);
    if !old(l)@.queues[g].full() {
        if crate::kcp::listener::peers_of(a).contains(peer) {
            let i = choose|i: int| 0 <= i < a.len() && (#[trigger] a[i]).0 == peer;
            assert(final(l)@.affected[i].0 == peer);
        } else {
            assert(final(l)@.affected[a.len() as int].0 == peer);
        }
    }
}

/// A datagram of a peer without a session opens one, where there is room for it:
/// of the next generation, to be built behind all others, with the datagram in
/// its queue. Where there is none, it is counted as dropped, and nothing is
/// opened.
pub proof fn law_first_datagram_opens_a_session(
    l: &mut KcpListener,
    peer: u64,
    data: Vec<u8>,
    now: u64,
    spare: Vec<u8>,
)
    requires
        call_ensures(KcpListener::route_inner, (l, peer, data, now), spare),
        !old(l)@.sessions.contains_key(peer),
        old(l)@.next_generation < u64::MAX,
    ensures
        old(l)@.limits.max_sessions == 0 || old(l)@.sessions.len() < old(l)@.limits.max_sessions
            ==> {
            let g = old(l)@.next_generation;
            &&& final(l)@.sessions.contains_key(peer)
            &&& final(l)@.sessions[peer] == (Session {
                generation: g,
                building: true,
                created_at: now,
            })
            &&& final(l)@.queues[g].packets == seq![data@]
            &&& !final(l)@.queues[g].closed
            &&& final(l)@.queues[g].max_packets == old(l)@.limits.max_peer_queue_packets
            &&& final(l)@.build_work == old(l)@.build_work + seq![(peer, g)]
            &&& final(l)@.next_generation - old(l)@.next_generation == 1
            &&& final(l)@.counters.session_drops == old(l)@.counters.session_drops
        },
        0 < old(l)@.limits.max_sessions <= old(l)@.sessions.len() ==> {
            &&& final(l)@.sessions == old(l)@.sessions
            &&& final(l)@.queues == old(l)@.queues
            &&& final(l)@.build_work == old(l)@.build_work
            &&& final(l)@.affected == old(l)@.affected
            &&& final(l)@.next_generation == old(l)@.next_generation
            &&& old(l)@.counters.session_drops < u64::MAX ==> final(l)@.counters.session_drops
                - old(l)@.counters.session_drops == 1
        },
        final(l)@.pending == old(l)@.pending,
{
    let w = old(l)@.build_work;
    let g = old(l)@.next_generation;
    assert(w.push((peer, g)) =~= w + seq![(peer, g)]);
    assert(Seq::<Seq<u8>>::empty().push(data@) =~= seq![data@]);
}

/// A peer whose queue was closed is taken in afresh: its next datagram opens a
/// session of a new generation.
pub proof fn law_closed_session_is_replaced(
    l: &mut KcpListener,
    peer: u64,
    data: Vec<u8>,
    now: u64,
    spare: Vec<u8>,
)
    requires
        call_ensures(KcpListener::route_inner, (l, peer, data, now), spare),
        old(l)@.sessions.contains_key(peer),
        old(l)@.queues[old(l)@.sessions[peer].generation].closed,
        old(l)@.sessions.dom().finite(),
        old(l)@.limits.max_sessions == 0 || old(l)@.sessions.len()
            <= old(l)@.limits.max_sessions,
        old(l)@.next_generation < u64::MAX,
        old(l)@.sessions[peer].generation < old(l)@.next_generation,
    ensures
        final(l)@.sessions[peer] == (Session {
            generation: old(l)@.next_generation,
            building: true,
            created_at: now,
        }),
        final(l)@.queues[old(l)@.next_generation].packets == seq![data@],
        !final(l)@.queues.contains_key(old(l)@.sessions[peer].generation),
{
    assert(Seq::<Seq<u8>>::empty().push(data@) =~= seq![data@]);
    assert(old(l)@.sessions.remove(peer).len() < old(l)@.sessions.len());
}

/// No peer is woken twice for one wakeup.
pub proof fn law_affected_peers_are_noted_once(
    l: &mut KcpListener,
    peer: u64,
    data: Vec<u8>,
    now: u64,
    spare: Vec<u8>,
)
    requires
        call_ensures(KcpListener::route_inner, (l, peer, data, now), spare),
        forall|i: int, j: int|
            0 <= i < j < old(l)@.affected.len() ==> (#[trigger] old(l)@.affected[i]).0 != (
            #[trigger] old(l)@.affected[j]).0,
    ensures
        forall|i: int, j: int|
            0 <= i < j < final(l)@.affected.len() ==> (#[trigger] final(l)@.affected[i]).0 != (
            #[trigger] final(l)@.affected[j]).0,
        final(l)@.affected.take(old(l)@.affected.len() as int) == old(l)@.affected,
        final(l)@.affected.len() <= old(l)@.affected.len() + 1,
        final(l)@.affected.len() > old(l)@.affected.len() ==> final(l)@.affected.last() == (
            peer,
            final(l)@.sessions[peer].generation,
        ),
{
    let a = old(l)@.affected;
    let b = final(l)@.affected;
    assert forall|i: int, j: int| 0 <= i < j < b.len() implies (#[trigger] b[i]).0 != (
    #[trigger] b[j]).0 by {
        if j == a.len() && b[i].0 == b[j].0 {
            assert(a[i].0 == peer);
            assert(crate::kcp::listener::peers_of(a).contains(peer));
        }
    }
    assert(b.take(a.len() as int) =~= a);
}

/// The datagrams of one peer among those of all.
pub open spec fn of_peer(peers: Seq<u64>, data: Seq<Seq<u8>>, peer: u64) -> Seq<Seq<u8>>
    decreases peers.len(),
{
    if peers.len() == 0 {
        Seq::empty()
    } else if peers.last() == peer {
        of_peer(peers.drop_last(), data.drop_last(), peer) + seq![data.last()]
    } else {
        of_peer(peers.drop_last(), data.drop_last(), peer)
    }
}

proof fn lemma_routed_all(
    m: crate::kcp::listener::ListenerModel,
    peers: Seq<u64>,
    data: Seq<Seq<u8>>,
    now: u64,
    peer: u64,
    g: u64,
)
    requires
        peers.len() == data.len(),
        m.sessions.contains_key(peer),
        m.sessions[peer].generation == g,
        !m.queues[g].closed,
        m.queues[g].max_packets == 0,
        g < m.next_generation,
        m.next_generation + peers.len() <= u64::MAX,
        forall|p: u64| #[trigger]
            m.sessions.contains_key(p) && p != peer ==> m.sessions[p].generation != g
                && m.sessions[p].generation < m.next_generation,
    ensures
        ({
            let n = crate::kcp::listener::routed_all(m, peers, data, now);
            &&& n.sessions.contains_key(peer)
            &&& n.sessions[peer] == m.sessions[peer]
            &&& !n.queues[g].closed
            &&& n.queues[g].max_packets == 0
            &&& n.next_generation <= m.next_generation + peers.len()
            &&& n.next_generation >= m.next_generation
            &&& forall|p: u64| #[trigger]
                n.sessions.contains_key(p) && p != peer ==> n.sessions[p].generation != g
                    && n.sessions[p].generation < n.next_generation
            &&& n.queues[g].packets == m.queues[g].packets + of_peer(peers, data, peer)
        }),
    decreases peers.len(),
{
    if peers.len() == 0 {
        assert(m.queues[g].packets + Seq::<Seq<u8>>::empty() =~= m.queues[g].packets);
    } else {
        lemma_routed_all(m, peers.drop_last(), data.drop_last(), now, peer, g);
        let a = crate::kcp::listener::routed_all(m, peers.drop_last(), data.drop_last(), now);
        let n = a.routed(peers.last(), data.last(), now);
        let own = of_peer(peers.drop_last(), data.drop_last(), peer);
        assert((m.queues[g].packets + own).push(data.last()) =~= m.queues[g].packets + (own + seq![
            data.last(),
        ]));
        assert(n.queues[g].packets == m.queues[g].packets + of_peer(peers, data, peer)) by {
            if peers.last() != peer && a.sessions.contains_key(peers.last()) {
                assert(a.sessions[peers.last()].generation != g);
            }
        }
        assert forall|p: u64| #[trigger] n.sessions.contains_key(p) && p != peer implies n.sessions[p].generation
            != g && n.sessions[p].generation < n.next_generation by {
            if a.sessions.contains_key(p) {
            }
        }
    }
}

/// Of a batch of datagrams, each connection gets those of its own peer, all of
/// them, in the order in which they came.
pub proof fn law_batch_is_sorted_by_peer(
    l: &mut KcpListener,
    peers: &Vec<u64>,
    slots: &mut Vec<Vec<u8>>,
    got: usize,
    now: u64,
    peer: u64,
    g: u64,
)
    requires
        call_ensures(KcpListener::route_batch, (l, peers, slots, got, now), ()),
        got <= peers@.len(),
        got <= old(slots)@.len(),
        old(l)@.wf(),
        old(l)@.next_generation + got <= u64::MAX,
        old(l)@.sessions.contains_key(peer),
        old(l)@.sessions[peer].generation == g,
        !old(l)@.queues[g].closed,
        old(l)@.limits.max_peer_queue_packets == 0,
    ensures
        final(l)@.queues[g].packets == old(l)@.queues[g].packets + of_peer(
            peers@.take(got as int),
            crate::wire::byte_rows(old(slots)@.take(got as int)),
            peer,
        ),
        final(l)@.sessions[peer] == old(l)@.sessions[peer],
{
    assert(old(l)@.queues.contains_key(g));
    assert forall|p: u64| #[trigger] old(l)@.sessions.contains_key(p) && p != peer implies old(l)@.sessions[p].generation != g && old(l)@.sessions[p].generation
        < old(l)@.next_generation by {
        assert(old(l)@.sessions[peer].generation == g);
        assert(old(l)@.queues.contains_key(old(l)@.sessions[p].generation));
    }
    lemma_routed_all(
        old(l)@,
        peers@.take(got as int),
        crate::wire::byte_rows(old(slots)@.take(got as int)),
        now,
        peer,
        g,
    );
}

/// Sessions are built in the order in which they were opened, no more at a time
/// than the limit says; what is not taken stays, and what is taken is built
/// unless its session is not there any more.
pub proof fn law_builds_come_in_order(l: &mut KcpListener, todo: Vec<(u64, u64)>)
    requires
        call_ensures(KcpListener::collect_builds, (l,), todo),
    ensures
        ({
            let work = old(l)@.build_work;
            let left = final(l)@.build_work;
            let n = work.len() - left.len();
            &&& 0 <= n
            &&& left == work.skip(n)
            &&& old(l)@.limits.max_builds_per_wakeup == 0 ==> n == work.len()
            &&& old(l)@.limits.max_builds_per_wakeup > 0 ==> n <= old(l)@.limits.max_builds_per_wakeup && (n == old(l)@.limits.max_builds_per_wakeup || n
                == work.len())
            &&& todo@ == work.take(n).filter(
                |e: (u64, u64)|
                    old(l)@.sessions.contains_key(e.0) && old(l)@.sessions[e.0].building && old(l)@.sessions[e.0].generation == e.1,
            )
        }),
        final(l)@.sessions == old(l)@.sessions,
        final(l)@.queues == old(l)@.queues,
        final(l)@.pending == old(l)@.pending,
{
    let m = old(l)@;
    let work = m.build_work;
    let n = work.len() - final(l)@.build_work.len();
    assert(n == m.build_budget());
    assert((|e: (u64, u64)| m.still_building(e.0, e.1)) =~= (|e: (u64, u64)|
        m.sessions.contains_key(e.0) && m.sessions[e.0].building && m.sessions[e.0].generation
            == e.1));
}

/// What was taken and not built goes back to the front, in its order.
pub proof fn law_deferred_builds_come_first(
    l: &mut KcpListener,
    rest: &Vec<(u64, u64)>,
    b: bool,
    c: &KcpListener,
    elapsed: u64,
)
    requires
        call_ensures(KcpListener::defer_builds, (l, rest), ()),
        call_ensures(KcpListener::build_time_is_up, (c, elapsed), b),
    ensures
        final(l)@.build_work.take(rest@.len() as int) == rest@,
        final(l)@.build_work.skip(rest@.len() as int) == old(l)@.build_work,
        c@.limits.max_build_time_per_wakeup == 0 ==> !b,
        c@.limits.max_build_time_per_wakeup > 0 ==> b == (elapsed
            > c@.limits.max_build_time_per_wakeup),
{
    assert((rest@ + old(l)@.build_work).take(rest@.len() as int) =~= rest@);
    assert((rest@ + old(l)@.build_work).skip(rest@.len() as int) =~= old(l)@.build_work);
}

/// One outcome of a build: a session that is still building under that
/// generation is ready, and its connection waits behind the others, where the
/// build succeeded and the backlog has room; otherwise the session is given up
/// and the connection closed. An outcome for another session changes none.
pub proof fn law_built_connection_waits_its_turn(
    l: &mut KcpListener,
    results: &Vec<BuildResult>,
    now: u64,
    r: (Vec<u64>, bool),
    peer: u64,
    g: u64,
    ok: bool,
)
    requires
        call_ensures(KcpListener::commit_builds, (l, results, now), r),
        results@ == seq![(peer, g, ok)],
    ensures
        ({
            let building = old(l)@.sessions.contains_key(peer) && old(l)@.sessions[peer].building
                && old(l)@.sessions[peer].generation == g;
            let room = old(l)@.limits.max_pending_accepts == 0 || old(l)@.pending.len() < old(l)@.limits.max_pending_accepts;
            &&& building && ok && room ==> {
                &&& final(l)@.sessions.contains_key(peer)
                &&& !final(l)@.sessions[peer].building
                &&& final(l)@.sessions[peer].generation == g
                &&& final(l)@.sessions[peer].created_at == old(l)@.sessions[peer].created_at
                &&& final(l)@.pending == old(l)@.pending + seq![
                    PendingAccept { peer, generation: g, created_at: now },
                ]
                &&& final(l)@.queues == old(l)@.queues
                &&& final(l)@.counters == old(l)@.counters
                &&& r.0@.len() == 0 && r.1
            }
            &&& !(building && ok && room) ==> final(l)@.pending == old(l)@.pending && r.0@ == seq![
                g,
            ] && !r.1
            &&& building && !(ok && room) ==> !final(l)@.sessions.contains_key(peer)
                && !final(l)@.queues.contains_key(g)
            &&& building && !ok && old(l)@.counters.build_failures < u64::MAX ==> final(l)@.counters.build_failures - old(l)@.counters.build_failures == 1
            &&& building && ok && !room && old(l)@.counters.pending_drops < u64::MAX ==> final(l)@.counters.pending_drops - old(l)@.counters.pending_drops == 1
            &&& !building ==> final(l)@.sessions == old(l)@.sessions && final(l)@.counters == old(l)@.counters
            &&& !building && old(l)@.queues.contains_key(g) ==> final(l)@.queues[g].closed
        }),
{
    let m = old(l)@;
    assert(results@.drop_last() =~= Seq::<BuildResult>::empty());
    reveal_with_fuel(crate::kcp::listener::ListenerModel::committed, 2);
    reveal_with_fuel(crate::kcp::listener::ListenerModel::rejected, 2);
    let p = PendingAccept { peer, generation: g, created_at: now };
    assert(m.pending.push(p) =~= m.pending + seq![p]);
    assert(Seq::<u64>::empty().push(g) =~= seq![g]);
}

proof fn lemma_committed_in_turn(
    m: crate::kcp::listener::ListenerModel,
    a: Seq<BuildResult>,
    b: Seq<BuildResult>,
    now: u64,
)
    ensures
        m.committed(a + b, now) == m.committed(a, now).committed(b, now),
        m.rejected(a + b, now) == m.rejected(a, now) + m.committed(a, now).rejected(b, now),
    decreases b.len(),
{
    if b.len() == 0 {
        assert(a + b =~= a);
        assert(m.rejected(a, now) + Seq::<u64>::empty() =~= m.rejected(a, now));
    } else {
        lemma_committed_in_turn(m, a, b.drop_last(), now);
        assert((a + b).drop_last() =~= a + b.drop_last());
        assert((a + b).last() == b.last());
        let before = m.rejected(a, now) + m.committed(a, now).rejected(b.drop_last(), now);
        let x = b.last().1;
        assert(before.push(x) =~= m.rejected(a, now) + m.committed(a, now).rejected(
            b.drop_last(),
            now,
        ).push(x));
    }
}

/// Outcomes count one after the other: those of two calls are as those of one.
pub proof fn law_outcomes_come_one_by_one(
    one: &mut KcpListener,
    two: &mut KcpListener,
    all: &mut KcpListener,
    a: &Vec<BuildResult>,
    b: &Vec<BuildResult>,
    ab: &Vec<BuildResult>,
    now: u64,
    ra: (Vec<u64>, bool),
    rb: (Vec<u64>, bool),
    rab: (Vec<u64>, bool),
)
    requires
        ab@ == a@ + b@,
        *old(all) == *old(one),
        *old(two) == *final(one),
        call_ensures(KcpListener::commit_builds, (one, a, now), ra),
        call_ensures(KcpListener::commit_builds, (two, b, now), rb),
        call_ensures(KcpListener::commit_builds, (all, ab, now), rab),
    ensures
        final(all)@ == final(two)@,
        rab.0@ == ra.0@ + rb.0@,
        rab.1 ==> ra.1 || rb.1,
{
    lemma_committed_in_turn(old(one)@, a@, b@, now);
}

/// Waited for longer than `timeout`, which 0 switches off.
pub open spec fn too_long(created_at: u64, timeout: u64, now: u64) -> bool {
    timeout > 0 && now > created_at + timeout
}

proof fn lemma_pending_split(
    m: crate::kcp::listener::ListenerModel,
    pending: Seq<PendingAccept>,
    now: u64,
)
    ensures
        m.pending_kept(pending, now) == pending.filter(
            |p: PendingAccept| !too_long(p.created_at, m.limits.pending_timeout, now),
        ),
        m.pending_expired(pending, now) == pending.filter(
            |p: PendingAccept| too_long(p.created_at, m.limits.pending_timeout, now),
        ),
    decreases pending.len(),
{
    reveal(Seq::filter);
    if pending.len() > 0 {
        lemma_pending_split(m, pending.drop_last(), now);
    }
}

proof fn lemma_swept(
    m: crate::kcp::listener::ListenerModel,
    work: Seq<(u64, u64)>,
    now: u64,
)
    ensures
        ({
            let n = m.swept(work, now);
            &&& n.pending == m.pending
            &&& n.limits == m.limits
            &&& forall|p: u64| #[trigger]
                n.sessions.contains_key(p) <==> m.sessions.contains_key(p) && !(
                m.sessions[p].building && too_long(
                    m.sessions[p].created_at,
                    m.limits.building_timeout,
                    now,
                ) && work.contains((p, m.sessions[p].generation)))
            &&& forall|p: u64| #[trigger]
                n.sessions.contains_key(p) ==> n.sessions[p] == m.sessions[p]
        }),
    decreases work.len(),
{
    if work.len() > 0 {
        let front = work.drop_last();
        lemma_swept(m, front, now);
        let a = m.swept(front, now);
        let n = m.swept(work, now);
        let (peer, generation) = work.last();
        assert forall|p: u64| #[trigger] n.sessions.contains_key(p) <==> m.sessions.contains_key(p)
            && !(m.sessions[p].building && too_long(
            m.sessions[p].created_at,
            m.limits.building_timeout,
            now,
        ) && work.contains((p, m.sessions[p].generation))) by {
            let e = (p, m.sessions[p].generation);
            assert(a.sessions.contains_key(p) ==> a.sessions[p] == m.sessions[p]);
            if front.contains(e) {
                let k = choose|k: int| 0 <= k < front.len() && front[k] == e;
                assert(work[k] == e);
            }
            if work.contains(e) && !front.contains(e) {
                let k = choose|k: int| 0 <= k < work.len() && work[k] == e;
                if k < front.len() {
                    assert(front[k] == e);
                }
                assert(work.last() == e);
            }
            if work.last() == e {
                assert(work[work.len() - 1] == e);
            }
        }
        assert forall|p: u64| #[trigger] n.sessions.contains_key(p) implies n.sessions[p]
            == m.sessions[p] by {
            assert(a.sessions.contains_key(p));
        }
    }
}

proof fn lemma_evicted(m: crate::kcp::listener::ListenerModel, gone: Seq<PendingAccept>)
    ensures
        ({
            let n = m.evicted(gone);
            &&& n.pending == m.pending
            &&& forall|p: u64| #[trigger]
                n.sessions.contains_key(p) <==> m.sessions.contains_key(p) && forall|i: int|
                    0 <= i < gone.len() ==> (#[trigger] gone[i]).peer != p
            &&& forall|p: u64| #[trigger]
                n.sessions.contains_key(p) ==> n.sessions[p] == m.sessions[p]
        }),
    decreases gone.len(),
{
    if gone.len() > 0 {
        let front = gone.drop_last();
        lemma_evicted(m, front);
        let a = m.evicted(front);
        let n = m.evicted(gone);
        assert forall|p: u64| #[trigger] n.sessions.contains_key(p) <==> m.sessions.contains_key(p)
            && forall|i: int| 0 <= i < gone.len() ==> (#[trigger] gone[i]).peer != p by {
            assert(forall|i: int| 0 <= i < front.len() ==> #[trigger] front[i] == gone[i]);
            assert(gone[gone.len() - 1] == gone.last());
            if a.sessions.contains_key(p) && p != gone.last().peer {
                assert forall|i: int| 0 <= i < gone.len() implies (#[trigger] gone[i]).peer != p by {
                    if i < front.len() {
                        assert(front[i].peer != p);
                    }
                }
            }
            if m.sessions.contains_key(p) && !a.sessions.contains_key(p) {
                let i = choose|i: int| 0 <= i < front.len() && (#[trigger] front[i]).peer == p;
                assert(gone[i].peer == p);
            }
        }
        assert forall|p: u64| #[trigger] n.sessions.contains_key(p) implies n.sessions[p]
            == m.sessions[p] by {
            assert(a.sessions.contains_key(p));
        }
    }
}

/// A sweep takes the connections that have waited longer than they may, and no
/// others, and hands them out in their order; the others stay in theirs.
pub proof fn law_sweep_takes_who_waited_too_long(
    l: &mut KcpListener,
    now: u64,
    gone: Vec<PendingAccept>,
)
    requires
        call_ensures(KcpListener::sweep, (l, now), gone),
    ensures
        gone@ == old(l)@.pending.filter(
            |p: PendingAccept| too_long(p.created_at, old(l)@.limits.pending_timeout, now),
        ),
        final(l)@.pending == old(l)@.pending.filter(
            |p: PendingAccept| !too_long(p.created_at, old(l)@.limits.pending_timeout, now),
        ),
{
    let m = old(l)@;
    lemma_swept(m, m.build_work, now);
    let a = m.swept(m.build_work, now);
    lemma_pending_split(m, m.pending, now);
    lemma_pending_split(a, m.pending, now);
    lemma_evicted(
        crate::kcp::listener::ListenerModel { pending: a.pending_kept(a.pending, now), ..a },
        a.pending_expired(a.pending, now),
    );
}

/// A sweep ends the sessions that have been building longer than they may, and
/// those of the connections that it takes; every other session stays as it is.
pub proof fn law_sweep_ends_who_built_too_long(
    l: &mut KcpListener,
    now: u64,
    gone: Vec<PendingAccept>,
    peer: u64,
)
    requires
        call_ensures(KcpListener::sweep, (l, now), gone),
        old(l)@.sessions.contains_key(peer),
    ensures
        ({
            let s = old(l)@.sessions[peer];
            let late = s.building && too_long(
                s.created_at,
                old(l)@.limits.building_timeout,
                now,
            ) && old(l)@.build_work.contains((peer, s.generation));
            let taken = exists|i: int| 0 <= i < gone@.len() && (#[trigger] gone@[i]).peer == peer;
            &&& final(l)@.sessions.contains_key(peer) == (!late && !taken)
            &&& !late && !taken ==> final(l)@.sessions[peer] == s
        }),
{
    let m = old(l)@;
    lemma_swept(m, m.build_work, now);
    let a = m.swept(m.build_work, now);
    lemma_pending_split(m, m.pending, now);
    lemma_pending_split(a, m.pending, now);
    let b = crate::kcp::listener::ListenerModel { pending: a.pending_kept(a.pending, now), ..a };
    assert(final(l)@ == b.evicted(gone@));
    lemma_evicted(b, gone@);
    assert(a.sessions.contains_key(peer) == b.sessions.contains_key(peer));
    if a.sessions.contains_key(peer) {
        assert(a.sessions[peer] == m.sessions[peer]);
    }
    if final(l)@.sessions.contains_key(peer) {
        assert(final(l)@.sessions[peer] == b.sessions[peer]);
    }
}

/// Connections are accepted in the order in which they were built, each once; a
/// closed listener gives out what it has, and then is at its end.
pub proof fn law_connections_are_accepted_in_order(
    l: &mut KcpListener,
    r: Result<Option<PendingAccept>, AcceptError>,
    k: &mut KcpListener,
    timed_out: bool,
    t: Result<Option<PendingAccept>, AcceptError>,
    p: PendingAccept,
    rest: Seq<PendingAccept>,
)
    requires
        call_ensures(KcpListener::try_accept, (l,), r),
        call_ensures(KcpListener::accept_timeout, (k, timed_out), t),
    ensures
        old(l)@.pending == seq![p] + rest ==> r == Ok::<Option<PendingAccept>, AcceptError>(Some(p))
            && final(l)@.pending == rest,
        old(l)@.pending.len() == 0 && !old(l)@.closed ==> r == Ok::<
            Option<PendingAccept>,
            AcceptError,
        >(None),
        old(l)@.pending.len() == 0 && old(l)@.closed ==> r == Err::<
            Option<PendingAccept>,
            AcceptError,
        >(AcceptError::ConnectionAborted),
        timed_out ==> t == Err::<Option<PendingAccept>, AcceptError>(AcceptError::TimedOut)
            && final(k)@.pending == old(k)@.pending,
        !timed_out && *old(k) == *old(l) ==> t == r && final(k)@ == final(l)@,
        final(l)@.sessions == old(l)@.sessions,
        final(l)@.queues == old(l)@.queues,
{
    if old(l)@.pending == seq![p] + rest {
        assert(old(l)@.pending[0] == p);
        assert((seq![p] + rest).skip(1) =~= rest);
    }
}

/// A peer that is removed has no session, and nobody else loses one; a
/// connection that was made still gets the packets that came before, and then
/// the end.
pub proof fn law_removed_peer_is_read_to_the_end(
    l: &mut KcpListener,
    peer: u64,
    found: bool,
    k: &mut KcpListener,
    buf: &mut Vec<u8>,
    s: RecvStep,
    other: u64,
)
    requires
        call_ensures(KcpListener::remove_peer, (l, peer), found),
        *old(k) == *final(l),
        old(l)@.wf(),
        old(l)@.sessions.contains_key(peer),
        !old(l)@.sessions[peer].building,
        !old(l)@.queues[old(l)@.sessions[peer].generation].closed,
        call_ensures(
            KcpListener::recv_vec_step,
            (k, old(l)@.sessions[peer].generation, buf),
            s,
        ),
    ensures
        found,
        !final(l)@.sessions.contains_key(peer),
        other != peer ==> final(l)@.sessions.contains_key(other) == old(l)@.sessions.contains_key(other),
        ({
            let ps = old(l)@.queues[old(l)@.sessions[peer].generation].packets;
            &&& ps.len() > 0 ==> s is Ready && final(buf)@ == ps[0]
            &&& ps.len() == 0 ==> s == RecvStep::Closed
        }),
{
    assert(old(l)@.queues.contains_key(old(l)@.sessions[peer].generation));
}

/// A connection that goes takes nothing from others, and its peer starts afresh.
pub proof fn law_dropped_connection_closes_its_queue(
    l: &mut KcpListener,
    generation: u64,
    other: u64,
)
    requires
        call_ensures(KcpListener::transport_dropped, (l, generation), ()),
    ensures
        final(l)@.sessions == old(l)@.sessions,
        final(l)@.queues.contains_key(generation) ==> final(l)@.queues[generation].closed,
        old(l)@.orphaned.contains(generation) ==> !final(l)@.queues.contains_key(generation),
        other != generation ==> final(l)@.queues.contains_key(other) == old(l)@.queues.contains_key(other),
        other != generation && old(l)@.queues.contains_key(other) ==> final(l)@.queues[other]
            == old(l)@.queues[other],
{
}

/// A connection reads its own packets, in their order, and nobody else's.
pub proof fn law_connection_reads_its_own_packets(
    l: &mut KcpListener,
    generation: u64,
    buf: &mut Vec<u8>,
    s: RecvStep,
    p: Seq<u8>,
    rest: Seq<Seq<u8>>,
    other: u64,
)
    requires
        call_ensures(KcpListener::recv_vec_step, (l, generation, buf), s),
    ensures
        old(l)@.queues.contains_key(generation) && old(l)@.queues[generation].packets == seq![p]
            + rest && p.len() <= usize::MAX ==> {
            &&& s is Ready && s->Ready_0 == p.len()
            &&& final(buf)@ == p
            &&& final(l)@.queues[generation].packets == rest
        },
        other != generation && old(l)@.queues.contains_key(other) ==> final(l)@.queues[other]
            == old(l)@.queues[other],
        !old(l)@.queues.contains_key(generation) ==> s == RecvStep::Closed,
{
    if old(l)@.queues[generation].packets == seq![p] + rest {
        assert(old(l)@.queues[generation].packets[0] == p);
        assert((seq![p] + rest).skip(1) =~= rest);
    }
}

/// How much one wakeup drains: with a limit exactly so many datagrams, without
/// one 1024, or as many as come in 5 milliseconds, and 16 or fewer at a time.
pub proof fn law_wakeup_drains_so_much(
    limits: &KcpListenerLimits,
    start: Drain,
    d: &mut Drain,
    slots: usize,
    cap: usize,
    e: &mut Drain,
    got: usize,
    ms: u64,
)
    requires
        call_ensures(Drain::start, (limits,), start),
        call_ensures(Drain::recv_cap, (d, limits, slots), cap),
        call_ensures(Drain::routed, (e, limits, got, ms), ()),
    ensures
        start.drained == 1,
        start.quantum_hit == (limits.max_drain_packets == 1),
        cap <= slots,
        limits.max_drain_packets > 0 && old(d).drained <= limits.max_drain_packets ==> old(d).drained + cap <= limits.max_drain_packets && (cap == slots || old(d).drained + cap
            == limits.max_drain_packets),
        limits.max_drain_packets > 0 && old(d).drained > limits.max_drain_packets ==> cap == 0,
        limits.max_drain_packets == 0 ==> cap <= 16 && (cap == 16 || cap == slots),
        cap == 0 ==> final(d).quantum_hit,
        cap > 0 ==> final(d).quantum_hit == old(d).quantum_hit,
        final(d).drained == old(d).drained,
        final(e).drained - old(e).drained == got,
        limits.max_drain_packets > 0 ==> final(e).quantum_hit == (final(e).drained
            >= limits.max_drain_packets),
        limits.max_drain_packets == 0 ==> final(e).quantum_hit == (final(e).drained >= 1024 || ms
            >= 5),
{
}

/// A sweep is due at every 64th wakeup: 64 wakeups apart, and not between.
pub proof fn law_sweep_comes_round(a: &mut u32, due: bool, b: &mut u32, again: bool, k: u32)
    requires
        call_ensures(sweep_due, (a,), due),
        call_ensures(sweep_due, (b,), again),
        *old(a) + k < u32::MAX,
        *old(b) == *old(a) + k,
    ensures
        *final(a) - *old(a) == 1,
        due ==> again == (k % 64 == 0),
        *old(a) == 0 ==> again == (k % 64 == 63),
{
}

/// The statistics tell what the listener holds and has counted.
pub proof fn law_statistics_tell_the_state(l: &KcpListener, s: ListenerStatsSnapshot)
    requires
        call_ensures(KcpListener::stats, (l,), s),
    ensures
        l@.sessions.len() <= usize::MAX ==> s.sessions == l@.sessions.len(),
        l@.pending.len() <= usize::MAX ==> s.pending == l@.pending.len(),
        s.session_drops == l@.counters.session_drops,
        s.queue_drops == l@.counters.queue_drops,
        s.pending_drops == l@.counters.pending_drops,
        s.build_failures == l@.counters.build_failures,
        s.build_timeouts == l@.counters.build_timeouts,
        s.pending_timeouts == l@.counters.pending_timeouts,
        s.affected_comparisons == l@.counters.affected_comparisons,
{
}

/// An error of the socket is kept until it is asked for, and given once; the
/// reader rests 10 milliseconds after it, unless it was draining.
pub proof fn law_socket_error_is_given_once(
    l: &mut KcpListener,
    e: std::io::Error,
    draining: bool,
    rest: Option<u64>,
    k: &mut KcpListener,
    first: Option<std::io::Error>,
    j: &mut KcpListener,
    second: Option<std::io::Error>,
)
    requires
        call_ensures(KcpListener::failed, (l, e, draining), rest),
        *old(k) == *final(l),
        call_ensures(KcpListener::take_error, (k,), first),
        *old(j) == *final(k),
        call_ensures(KcpListener::take_error, (j,), second),
    ensures
        first == Some(e),
        second is None,
        draining ==> rest is None,
        !draining ==> rest == Some(10u64),
{
}

} // verus!
