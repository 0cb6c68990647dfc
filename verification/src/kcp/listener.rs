//! The demultiplexer of a server: one socket, many peers.
//!
//! Peers and times are plain numbers here: whoever owns the socket gives each
//! address a number and reads the clock (in nanoseconds). A peer's first
//! datagram opens a session for it, which is `Building` until its connection
//! has been made and `Ready` from then on. Every session has a generation and
//! a packet queue of that generation, so that what belongs to an older session
//! of the same peer is told apart.

use crate::kcp::transport::{PeerQueue, RecvStep, MAX_DATAGRAM};
use crate::wire::resize_bytes;
use std::collections::{HashMap, HashSet, VecDeque};
use vstd::prelude::*;

verus! {

broadcast use vstd::std_specs::hash::group_hash_axioms;

/// Datagrams taken from the socket at a time.
pub const RECV_BATCH: usize = 16;

/// Datagrams after which a drain without a limit of its own gives way.
pub const UNLIMITED_DRAIN_QUANTUM: usize = 1024;

/// Milliseconds after which it gives way.
pub const UNLIMITED_DRAIN_QUANTUM_MS: u64 = 5;

/// How long the reader rests after the socket failed, in milliseconds.
pub const READER_REST_MS: u64 = 10;

/// Wakeups between two sweeps.
pub const SWEEP_INTERVAL: u32 = 64;

/// Limits on what a listener holds and does. 0 is no limit; all times are in
/// nanoseconds. Nothing ever waits for a limit: what goes over it is dropped.
#[derive(Clone, Copy, Debug, PartialEq, Eq, Structural)]
pub struct KcpListenerLimits {
    /// Sessions, building and ready.
    pub max_sessions: usize,
    /// Connections that wait to be accepted.
    pub max_pending_accepts: usize,
    /// Packets in the queue of one peer.
    pub max_peer_queue_packets: usize,
    /// Connections built per wakeup.
    pub max_builds_per_wakeup: usize,
    /// Time spent on building per wakeup.
    pub max_build_time_per_wakeup: u64,
    /// Datagrams routed per wakeup.
    pub max_drain_packets: usize,
    /// How long a session may be building.
    pub building_timeout: u64,
    /// How long a connection may wait to be accepted.
    pub pending_timeout: u64,
}

impl Default for KcpListenerLimits {
    fn default() -> (l: Self)
        ensures
            l == unlimited(),
    {
        KcpListenerLimits {
            max_sessions: 0,
            max_pending_accepts: 0,
            max_peer_queue_packets: 0,
            max_builds_per_wakeup: 0,
            max_build_time_per_wakeup: 0,
            max_drain_packets: 0,
            building_timeout: 0,
            pending_timeout: 0,
        }
    }
}

/// No limits at all.
pub open spec fn unlimited() -> KcpListenerLimits {
    KcpListenerLimits {
        max_sessions: 0,
        max_pending_accepts: 0,
        max_peer_queue_packets: 0,
        max_builds_per_wakeup: 0,
        max_build_time_per_wakeup: 0,
        max_drain_packets: 0,
        building_timeout: 0,
        pending_timeout: 0,
    }
}

/// What a listener holds and has dropped.
#[derive(Clone, Copy, Debug, PartialEq, Eq, Structural)]
pub struct ListenerStatsSnapshot {
    /// Sessions, building and ready.
    pub sessions: usize,
    /// Connections that wait to be accepted.
    pub pending: usize,
    /// Sessions refused because there were too many.
    pub session_drops: u64,
    /// Datagrams dropped by a full queue.
    pub queue_drops: u64,
    /// Connections closed because too many waited.
    pub pending_drops: u64,
    /// Connections that could not be built.
    pub build_failures: u64,
    /// Sessions that were building for too long.
    pub build_timeouts: u64,
    /// Connections that waited for too long.
    pub pending_timeouts: u64,
    /// Datagrams that were routed to a queue.
    pub affected_comparisons: u64,
}

/// The counters of a listener.
#[derive(Clone, Copy, Debug, PartialEq, Eq, Structural)]
pub struct ListenerCounters {
    pub session_drops: u64,
    pub queue_drops: u64,
    pub pending_drops: u64,
    pub build_failures: u64,
    pub build_timeouts: u64,
    pub pending_timeouts: u64,
    pub affected_comparisons: u64,
}

/// A peer's session.
#[derive(Clone, Copy, Debug, PartialEq, Eq, Structural)]
pub struct Session {
    /// The number of this session among all there have been.
    pub generation: u64,
    /// Its connection has not been made yet.
    pub building: bool,
    /// When it was opened.
    pub created_at: u64,
}

/// A connection that waits to be accepted.
#[derive(Clone, Copy, Debug, PartialEq, Eq, Structural)]
pub struct PendingAccept {
    pub peer: u64,
    pub generation: u64,
    pub created_at: u64,
}

/// What a listener holds.
pub struct ListenerModel {
    pub limits: KcpListenerLimits,
    pub sessions: Map<u64, Session>,
    pub queues: Map<u64, crate::kcp::transport::PeerQueueState>,
    pub build_work: Seq<(u64, u64)>,
    pub affected: Seq<(u64, u64)>,
    pub pending: Seq<PendingAccept>,
    /// The generations whose session is gone and whose connection is not.
    pub orphaned: Set<u64>,
    pub next_generation: u64,
    pub closed: bool,
    pub counters: ListenerCounters,
    /// The last error of the socket.
    pub last_error: Option<std::io::Error>,
}

/// The peers of a list of peers and generations.
pub open spec fn peers_of(s: Seq<(u64, u64)>) -> Set<u64> {
    Set::new(|p: u64| exists|i: int| 0 <= i < s.len() && (#[trigger] s[i]).0 == p)
}

impl ListenerModel {
    /// What always holds: limits are kept; every session has its queue, which
    /// no other session has; a queue is kept only for a session or for a
    /// connection that has lost its session, and is closed then; generations
    /// come from the past.
    pub open spec fn wf(self) -> bool {
        &&& self.sessions.dom().finite()
        &&& self.limits.max_sessions > 0 ==> self.sessions.len() <= self.limits.max_sessions
        &&& self.limits.max_pending_accepts > 0 ==> self.pending.len()
            <= self.limits.max_pending_accepts
        &&& forall|p: u64| #[trigger]
            self.sessions.contains_key(p) ==> self.queues.contains_key(self.sessions[p].generation)
        &&& forall|p: u64, q: u64|
            #![trigger self.sessions[p], self.sessions[q]]
            self.sessions.contains_key(p) && self.sessions.contains_key(q) && p != q
                ==> self.sessions[p].generation != self.sessions[q].generation
        &&& forall|g: u64| #[trigger]
            self.queues.contains_key(g) ==> g < self.next_generation && self.queues[g].wf()
                && self.queues[g].max_packets == self.limits.max_peer_queue_packets
        &&& forall|g: u64| #[trigger]
            self.orphaned.contains(g) ==> self.queues.contains_key(g) && self.queues[g].closed
        &&& forall|p: u64| #[trigger]
            self.sessions.contains_key(p) ==> !self.orphaned.contains(self.sessions[p].generation)
        &&& forall|g: u64| #[trigger]
            self.queues.contains_key(g) ==> self.orphaned.contains(g) || self.held(g)
    }

    /// A session has that generation.
    pub open spec fn held(self, generation: u64) -> bool {
        exists|p: u64| #[trigger]
            self.sessions.contains_key(p) && self.sessions[p].generation == generation
    }

    /// The session of the peer is given up. Its queue goes with it, unless there
    /// is a connection that reads it: then it is closed, and goes with that.
    pub open spec fn let_go(self, peer: u64) -> ListenerModel {
        if !self.sessions.contains_key(peer) {
            self
        } else {
            let g = self.sessions[peer].generation;
            if self.sessions[peer].building || self.queues[g].closed {
                ListenerModel {
                    sessions: self.sessions.remove(peer),
                    queues: self.queues.remove(g),
                    ..self
                }
            } else {
                ListenerModel {
                    sessions: self.sessions.remove(peer),
                    queues: self.queues.insert(
                        g,
                        crate::kcp::transport::PeerQueueState { closed: true, ..self.queues[g] },
                    ),
                    orphaned: self.orphaned.insert(g),
                    ..self
                }
            }
        }
    }

    /// The connection of a generation is gone: its queue goes, or, where a
    /// session still has it, is closed.
    pub open spec fn connection_gone(self, generation: u64) -> ListenerModel {
        if self.orphaned.contains(generation) {
            ListenerModel {
                queues: self.queues.remove(generation),
                orphaned: self.orphaned.remove(generation),
                ..self
            }
        } else {
            self.queue_closed(generation)
        }
    }

    /// The peer has a session whose queue is open.
    pub open spec fn live(self, peer: u64) -> bool {
        self.sessions.contains_key(peer) && !self.queues[self.sessions[peer].generation].closed
    }

    /// The peer has no session any more, and the queue of the one it had is
    /// gone.
    pub open spec fn forgotten(self, peer: u64) -> ListenerModel {
        if self.sessions.contains_key(peer) {
            ListenerModel {
                sessions: self.sessions.remove(peer),
                queues: self.queues.remove(self.sessions[peer].generation),
                ..self
            }
        } else {
            self
        }
    }

    /// No more sessions are taken.
    pub open spec fn crowded(self) -> bool {
        self.limits.max_sessions > 0 && self.sessions.len() >= self.limits.max_sessions
    }

    /// A new session is opened for the peer, and is to be built.
    pub open spec fn opened(self, peer: u64, now: u64) -> ListenerModel {
        let g = self.next_generation;
        ListenerModel {
            sessions: self.sessions.insert(
                peer,
                Session { generation: g, building: true, created_at: now },
            ),
            queues: self.queues.insert(
                g,
                crate::kcp::transport::PeerQueueState {
                    packets: Seq::empty(),
                    spare: Seq::empty(),
                    closed: false,
                    max_packets: self.limits.max_peer_queue_packets as nat,
                    drops: 0,
                },
            ),
            build_work: self.build_work.push((peer, g)),
            next_generation: (g + 1) as u64,
            ..self
        }
    }

    /// A packet was offered to the queue of the peer, which is noted as affected
    /// unless the packet was dropped or the peer is noted already.
    pub open spec fn delivered(self, peer: u64, data: Seq<u8>) -> ListenerModel {
        let g = self.sessions[peer].generation;
        let q = self.queues[g];
        let spare = if q.spare.len() > 0 && !q.full() {
            q.spare.drop_last()
        } else {
            q.spare
        };
        ListenerModel {
            queues: self.queues.insert(
                g,
                crate::kcp::transport::PeerQueueState {
                    packets: crate::kcp::transport::offered(q.packets, q.max_packets, data),
                    spare,
                    drops: if q.full() {
                        crate::kcp::transport::counted(q.drops)
                    } else {
                        q.drops
                    },
                    ..q
                },
            ),
            affected: if q.full() || peers_of(self.affected).contains(peer) {
                self.affected
            } else {
                self.affected.push((peer, g))
            },
            counters: ListenerCounters {
                queue_drops: if q.full() {
                    crate::kcp::transport::counted(self.counters.queue_drops)
                } else {
                    self.counters.queue_drops
                },
                affected_comparisons: crate::kcp::transport::counted(
                    self.counters.affected_comparisons,
                ),
                ..self.counters
            },
            ..self
        }
    }

    /// A datagram came from the peer. It goes to the peer's queue; a peer without
    /// a live session gets a new one, unless there are too many, when the
    /// datagram is dropped.
    pub open spec fn routed(self, peer: u64, data: Seq<u8>, now: u64) -> ListenerModel {
        if self.live(peer) {
            self.delivered(peer, data)
        } else {
            let m = self.forgotten(peer);
            if m.crowded() {
                ListenerModel {
                    counters: ListenerCounters {
                        session_drops: crate::kcp::transport::counted(m.counters.session_drops),
                        ..m.counters
                    },
                    ..m
                }
            } else {
                m.opened(peer, now).delivered(peer, data)
            }
        }
    }
}

/// How long ago `then` was.
pub open spec fn age(then: u64, now: u64) -> nat {
    if now > then {
        (now - then) as nat
    } else {
        0
    }
}

/// The outcome of building a connection: for whom, of which generation, and
/// whether it succeeded.
pub type BuildResult = (u64, u64, bool);

impl ListenerModel {
    /// The session of that peer and generation is still to be built.
    pub open spec fn still_building(self, peer: u64, generation: u64) -> bool {
        self.sessions.contains_key(peer) && self.sessions[peer].building
            && self.sessions[peer].generation == generation
    }

    /// How many entries one wakeup takes from the list of sessions to build.
    pub open spec fn build_budget(self) -> nat {
        if self.limits.max_builds_per_wakeup == 0 || self.limits.max_builds_per_wakeup
            > self.build_work.len() {
            self.build_work.len()
        } else {
            self.limits.max_builds_per_wakeup as nat
        }
    }

    /// The queue of a generation is closed, if it is still there.
    pub open spec fn queue_closed(self, generation: u64) -> ListenerModel {
        if self.queues.contains_key(generation) {
            ListenerModel {
                queues: self.queues.insert(
                    generation,
                    crate::kcp::transport::PeerQueueState {
                        closed: true,
                        ..self.queues[generation]
                    },
                ),
                ..self
            }
        } else {
            self
        }
    }

    /// No more connections may wait to be accepted.
    pub open spec fn backlog_full(self) -> bool {
        self.limits.max_pending_accepts > 0 && self.pending.len()
            >= self.limits.max_pending_accepts
    }

    /// A built connection does not come to be accepted: its session is not
    /// there any more, the build failed, or too many wait.
    pub open spec fn rejects(self, r: BuildResult) -> bool {
        !self.still_building(r.0, r.1) || !r.2 || self.backlog_full()
    }

    /// The outcome of a build is in. A session that is not being built under
    /// that generation any more is left alone.
    pub open spec fn committed_one(self, r: BuildResult, now: u64) -> ListenerModel {
        if !self.still_building(r.0, r.1) {
            self.queue_closed(r.1)
        } else if !r.2 {
            ListenerModel {
                counters: ListenerCounters {
                    build_failures: crate::kcp::transport::counted(self.counters.build_failures),
                    ..self.counters
                },
                ..self.let_go(r.0)
            }
        } else if self.backlog_full() {
            ListenerModel {
                counters: ListenerCounters {
                    pending_drops: crate::kcp::transport::counted(self.counters.pending_drops),
                    ..self.counters
                },
                ..self.let_go(r.0)
            }
        } else {
            ListenerModel {
                sessions: self.sessions.insert(
                    r.0,
                    Session { building: false, ..self.sessions[r.0] },
                ),
                pending: self.pending.push(
                    PendingAccept { peer: r.0, generation: r.1, created_at: now },
                ),
                ..self
            }
        }
    }

    /// The outcomes of builds are in, one after the other.
    pub open spec fn committed(self, results: Seq<BuildResult>, now: u64) -> ListenerModel
        decreases results.len(),
    {
        if results.len() == 0 {
            self
        } else {
            self.committed(results.drop_last(), now).committed_one(results.last(), now)
        }
    }

    /// The generations whose connections are to be closed.
    pub open spec fn rejected(self, results: Seq<BuildResult>, now: u64) -> Seq<u64>
        decreases results.len(),
    {
        if results.len() == 0 {
            Seq::empty()
        } else {
            let before = self.rejected(results.drop_last(), now);
            if self.committed(results.drop_last(), now).rejects(results.last()) {
                before.push(results.last().1)
            } else {
                before
            }
        }
    }

    /// The session of that peer and generation has been building for too long.
    pub open spec fn overdue(self, peer: u64, generation: u64, now: u64) -> bool {
        &&& self.still_building(peer, generation)
        &&& self.limits.building_timeout != 0
        &&& age(self.sessions[peer].created_at, now) > self.limits.building_timeout
    }

    /// The first `n` entries of the list of sessions to build were looked at:
    /// those that are overdue are dropped with their sessions, the others kept.
    pub open spec fn swept(self, work: Seq<(u64, u64)>, now: u64) -> ListenerModel
        decreases work.len(),
    {
        if work.len() == 0 {
            ListenerModel { build_work: Seq::empty(), ..self }
        } else {
            let m = self.swept(work.drop_last(), now);
            let (peer, generation) = work.last();
            if m.overdue(peer, generation, now) {
                ListenerModel {
                    counters: ListenerCounters {
                        build_timeouts: crate::kcp::transport::counted(m.counters.build_timeouts),
                        ..m.counters
                    },
                    ..m.let_go(peer)
                }
            } else {
                ListenerModel { build_work: m.build_work.push(work.last()), ..m }
            }
        }
    }

    /// A connection has waited for too long.
    pub open spec fn waited_too_long(self, p: PendingAccept, now: u64) -> bool {
        self.limits.pending_timeout != 0 && age(p.created_at, now) > self.limits.pending_timeout
    }

    /// The first connections that wait were looked at: those that have waited
    /// for too long go, the others stay.
    pub open spec fn pending_kept(self, pending: Seq<PendingAccept>, now: u64) -> Seq<PendingAccept>
        decreases pending.len(),
    {
        if pending.len() == 0 {
            Seq::empty()
        } else {
            let kept = self.pending_kept(pending.drop_last(), now);
            if self.waited_too_long(pending.last(), now) {
                kept
            } else {
                kept.push(pending.last())
            }
        }
    }

    /// Those that go.
    pub open spec fn pending_expired(self, pending: Seq<PendingAccept>, now: u64) -> Seq<
        PendingAccept,
    >
        decreases pending.len(),
    {
        if pending.len() == 0 {
            Seq::empty()
        } else {
            let gone = self.pending_expired(pending.drop_last(), now);
            if self.waited_too_long(pending.last(), now) {
                gone.push(pending.last())
            } else {
                gone
            }
        }
    }

    /// The sessions of the peers whose connections went are dropped.
    pub open spec fn evicted(self, gone: Seq<PendingAccept>) -> ListenerModel
        decreases gone.len(),
    {
        if gone.len() == 0 {
            self
        } else {
            let m = self.evicted(gone.drop_last());
            let peer = gone.last().peer;
            if m.sessions.contains_key(peer) {
                ListenerModel {
                    counters: ListenerCounters {
                        pending_timeouts: crate::kcp::transport::counted(
                            m.counters.pending_timeouts,
                        ),
                        ..m.counters
                    },
                    ..m.let_go(peer)
                }
            } else {
                m
            }
        }
    }

    /// A sweep at the time `now`.
    pub open spec fn after_sweep(self, now: u64) -> ListenerModel {
        let m = self.swept(self.build_work, now);
        ListenerModel { pending: m.pending_kept(m.pending, now), ..m }.evicted(
            m.pending_expired(m.pending, now),
        )
    }
}

/// A listener of a server.
pub struct KcpListener {
    limits: KcpListenerLimits,
    sessions: HashMap<u64, Session>,
    queues: HashMap<u64, PeerQueue>,
    build_work: VecDeque<(u64, u64)>,
    affected: Vec<(u64, u64)>,
    affected_seen: HashSet<u64>,
    orphaned: HashSet<u64>,
    last_error: Option<std::io::Error>,
    pending: VecDeque<PendingAccept>,
    next_generation: u64,
    closed: bool,
    counters: ListenerCounters,
}

/// The contents of queues.
pub open spec fn queue_states(m: Map<u64, PeerQueue>) -> Map<
    u64,
    crate::kcp::transport::PeerQueueState,
> {
    Map::new(|g: u64| m.contains_key(g), |g: u64| m[g]@)
}

impl View for KcpListener {
    type V = ListenerModel;

    closed spec fn view(&self) -> ListenerModel {
        ListenerModel {
            limits: self.limits,
            sessions: self.sessions@,
            queues: queue_states(self.queues@),
            build_work: self.build_work@,
            affected: self.affected@,
            pending: self.pending@,
            orphaned: self.orphaned@,
            next_generation: self.next_generation,
            closed: self.closed,
            counters: self.counters,
            last_error: self.last_error,
        }
    }
}

fn count(n: u64) -> (r: u64)
    ensures
        r == crate::kcp::transport::counted(n),
{
    if n == u64::MAX {
        0
    } else {
        n + 1
    }
}

/// A listener without peers.
pub open spec fn fresh(limits: KcpListenerLimits) -> ListenerModel {
    ListenerModel {
        limits,
        sessions: Map::empty(),
        queues: Map::empty(),
        build_work: Seq::empty(),
        affected: Seq::empty(),
        pending: Seq::empty(),
        orphaned: Set::empty(),
        next_generation: 0,
        closed: false,
        last_error: None,
        counters: ListenerCounters {
            session_drops: 0,
            queue_drops: 0,
            pending_drops: 0,
            build_failures: 0,
            build_timeouts: 0,
            pending_timeouts: 0,
            affected_comparisons: 0,
        },
    }
}

impl KcpListener {
    /// The listener is in order.
    pub closed spec fn inv(&self) -> bool {
        self@.wf() && self.affected_seen@ == peers_of(self.affected@)
    }

    /// A listener without peers.
    pub fn new(limits: KcpListenerLimits) -> (l: Self)
        ensures
            l.inv(),
            l@.wf(),
            l@ == fresh(limits),
    {
        let l = KcpListener {
            limits,
            sessions: HashMap::new(),
            queues: HashMap::new(),
            build_work: VecDeque::new(),
            affected: Vec::new(),
            affected_seen: HashSet::new(),
            orphaned: HashSet::new(),
            last_error: None,
            pending: VecDeque::new(),
            next_generation: 0,
            closed: false,
            counters: ListenerCounters {
                session_drops: 0,
                queue_drops: 0,
                pending_drops: 0,
                build_failures: 0,
                build_timeouts: 0,
                pending_timeouts: 0,
                affected_comparisons: 0,
            },
        };
        assert(l@.queues =~= Map::empty());
        assert(l.affected_seen@ =~= peers_of(l.affected@));
        l
    }

    /// The generation of the peer's session, if it has one whose queue is open;
    /// otherwise the session and its queue are forgotten.
    fn live_generation(&mut self, peer: u64) -> (g: Option<u64>)
        requires
            old(self).inv(),
        ensures
            final(self).inv(),
            match g {
                Some(g) => {
                    &&& old(self)@.live(peer)
                    &&& g == old(self)@.sessions[peer].generation
                    &&& final(self)@ == old(self)@
                },
                None => !old(self)@.live(peer) && final(self)@ == old(self)@.forgotten(peer),
            },
    {
        let g: u64 = match self.sessions.get(&peer) {
            Some(s) => s.generation,
            None => return None,
        };
        let open: bool = match self.queues.get(&g) {
            Some(q) => !q.is_closed(),
            None => false,
        };
        if open {
            return Some(g);
        }
        let ghost m0 = self@;
        self.sessions.remove(&peer);
        self.queues.remove(&g);
        assert(self@.queues =~= m0.queues.remove(g));
        assert(self@.sessions =~= m0.sessions.remove(peer));
        None
    }

    /// Offers a packet to the queue of the peer's session.
    fn deliver(&mut self, peer: u64, g: u64, data: Vec<u8>) -> (spare: Vec<u8>)
        requires
            old(self).inv(),
            old(self)@.sessions.contains_key(peer),
            g == old(self)@.sessions[peer].generation,
        ensures
            final(self).inv(),
            final(self)@ == old(self)@.delivered(peer, data@),
            spare@ == reused_buffer(old(self)@.queues[g], data@),
            spare@.len() == MAX_DATAGRAM,
    {
        let ghost m0 = self@;
        let ghost queues0 = self.queues@;
        match self.queues.remove(&g) {
            None => {
                assert(m0.queues.contains_key(g));
                assert(false);
                data
            },
            Some(q) => {
                let mut q: PeerQueue = q;
                let ghost q0 = q@;
                assert(m0.queues.contains_key(g) && m0.queues[g] == q0);
                let (spare, queued) = q.push_and_reuse(data);
                let ghost q1 = q@;
                self.queues.insert(g, q);
                assert(queue_states(self.queues@) =~= m0.queues.insert(g, q1));
                self.counters.affected_comparisons = count(self.counters.affected_comparisons);
                if !queued {
                    self.counters.queue_drops = count(self.counters.queue_drops);
                } else {
                    let ghost affected0 = self.affected@;
                    if self.affected_seen.insert(peer) {
                        self.affected.push((peer, g));
                        proof {
                            let more = affected0.push((peer, g));
                            assert(peers_of(more) =~= peers_of(affected0).insert(peer)) by {
                                assert forall|p: u64|
                                    peers_of(more).contains(p) == peers_of(affected0).insert(
                                        peer,
                                    ).contains(p) by {
                                    if peers_of(affected0).contains(p) {
                                        let k = choose|k: int|
                                            0 <= k < affected0.len() && (#[trigger] affected0[k]).0
                                                == p;
                                        assert(more[k].0 == p);
                                    }
                                    if p == peer {
                                        assert(more[affected0.len() as int].0 == p);
                                    }
                                    if peers_of(more).contains(p) && p != peer {
                                        let k = choose|k: int|
                                            0 <= k < more.len() && (#[trigger] more[k]).0 == p;
                                        assert(affected0[k].0 == p);
                                    }
                                }
                            }
                        }
                    } else {
                        assert(self.affected_seen@ =~= peers_of(affected0));
                    }
                }
                spare
            },
        }
    }

    /// Routes a datagram that came from `peer` at the time `now`, and returns a
    /// buffer for the next one.
    pub fn route_inner(&mut self, peer: u64, data: Vec<u8>, now: u64) -> (spare: Vec<u8>)
        requires
            old(self).inv(),
            old(self)@.next_generation < u64::MAX,
        ensures
            final(self).inv(),
            final(self)@.wf(),
            final(self)@ == old(self)@.routed(peer, data@, now),
            spare@.len() == MAX_DATAGRAM,
            spare@ == spare_for(old(self)@, peer, data@),
    {
        if let Some(g) = self.live_generation(peer) {
            return self.deliver(peer, g, data);
        }
        let ghost m0 = self@;
        if self.limits.max_sessions > 0 && self.sessions.len() >= self.limits.max_sessions {
            self.counters.session_drops = count(self.counters.session_drops);
            let mut spare: Vec<u8> = data;
            resize_bytes(&mut spare, MAX_DATAGRAM);
            return spare;
        }
        let g: u64 = self.next_generation;
        self.next_generation = g + 1;
        let q = PeerQueue::new(self.limits.max_peer_queue_packets);
        let ghost q0 = q@;
        self.queues.insert(g, q);
        self.sessions.insert(peer, Session { generation: g, building: true, created_at: now });
        self.build_work.push_back((peer, g));
        assert(queue_states(self.queues@) =~= m0.queues.insert(g, q0));
        assert(self@ == m0.opened(peer, now));
        proof {
            lemma_opened_keeps_order(m0, peer, now);
        }
        self.deliver(peer, g, data)
    }

    fn close_queue(&mut self, generation: u64)
        requires
            old(self).inv(),
        ensures
            final(self).inv(),
            final(self)@ == old(self)@.queue_closed(generation),
    {
        let ghost m0 = self@;
        match self.queues.remove(&generation) {
            None => {
                assert(queue_states(self.queues@) =~= m0.queues);
            },
            Some(q) => {
                let mut q: PeerQueue = q;
                let ghost q0 = q@;
                assert(m0.queues.contains_key(generation) && m0.queues[generation] == q0);
                q.mark_closed();
                let ghost q1 = q@;
                self.queues.insert(generation, q);
                assert(queue_states(self.queues@) =~= m0.queues.insert(generation, q1));
                proof {
                    lemma_wf_queue_changed(m0, self@, generation);
                }
            },
        }
    }

    /// Gives the session of a peer up: see [`ListenerModel::let_go`].
    fn let_go(&mut self, peer: u64)
        requires
            old(self).inv(),
        ensures
            final(self).inv(),
            final(self)@ == old(self)@.let_go(peer),
    {
        let ghost m0 = self@;
        let (g, building): (u64, bool) = match self.sessions.get(&peer) {
            Some(s) => (s.generation, s.building),
            None => return,
        };
        assert(m0.queues.contains_key(g));
        self.sessions.remove(&peer);
        assert(self@.sessions =~= m0.sessions.remove(peer));
        match self.queues.remove(&g) {
            None => {
                assert(false);
            },
            Some(q) => {
                let mut q: PeerQueue = q;
                let ghost q0 = q@;
                assert(m0.queues[g] == q0);
                if building || q.is_closed() {
                    assert(queue_states(self.queues@) =~= m0.queues.remove(g));
                } else {
                    q.mark_closed();
                    let ghost q1 = q@;
                    self.queues.insert(g, q);
                    self.orphaned.insert(g);
                    assert(queue_states(self.queues@) =~= m0.queues.insert(g, q1));
                }
                assert(self@ == m0.let_go(peer));
                proof {
                    lemma_let_go_keeps_order(m0, peer);
                }
            },
        }
    }

    fn is_building(&self, peer: u64, generation: u64) -> (b: bool)
        ensures
            b == self@.still_building(peer, generation),
    {
        match self.sessions.get(&peer) {
            Some(s) => s.building && s.generation == generation,
            None => false,
        }
    }

    /// Takes the sessions that are to be built in this wakeup from the list, as
    /// many as the limit allows; entries whose session is not there any more
    /// are passed over.
    pub fn collect_builds(&mut self) -> (todo: Vec<(u64, u64)>)
        requires
            old(self).inv(),
        ensures
            final(self).inv(),
            final(self)@ == (ListenerModel {
                build_work: old(self)@.build_work.skip(old(self)@.build_budget() as int),
                ..old(self)@
            }),
            todo@ == old(self)@.build_work.take(old(self)@.build_budget() as int).filter(
                |e: (u64, u64)| old(self)@.still_building(e.0, e.1),
            ),
    {
        let ghost m0 = self@;
        let ghost work = self.build_work@;
        let ghost pred = |e: (u64, u64)| m0.still_building(e.0, e.1);
        let budget: usize = if self.limits.max_builds_per_wakeup == 0
            || self.limits.max_builds_per_wakeup > self.build_work.len() {
            self.build_work.len()
        } else {
            self.limits.max_builds_per_wakeup
        };
        let mut todo: Vec<(u64, u64)> = Vec::new();
        let mut k: usize = 0;
        reveal(Seq::filter);
        assert(work.skip(0) =~= work);
        while k < budget
            invariant
                k <= budget <= work.len(),
                self.inv(),
                self@ == (ListenerModel { build_work: work.skip(k as int), ..m0 }),
                pred == (|e: (u64, u64)| m0.still_building(e.0, e.1)),
                todo@ == work.take(k as int).filter(pred),
            decreases budget - k,
        {
            reveal(Seq::filter);
            let ghost before = self.build_work@;
            match self.build_work.pop_front() {
                None => {
                    assert(false);
                },
                Some(e) => {
                    assert(e == work[k as int]);
                    assert(self.build_work@ =~= work.skip(k + 1));
                    assert(work.take(k + 1).drop_last() =~= work.take(k as int));
                    if self.is_building(e.0, e.1) {
                        todo.push(e);
                    }
                },
            }
            k = k + 1;
        }
        todo
    }

    /// Whether building stops for this wakeup, `elapsed` nanoseconds after it
    /// began.
    pub fn build_time_is_up(&self, elapsed: u64) -> (b: bool)
        ensures
            b == (self@.limits.max_build_time_per_wakeup != 0 && elapsed
                > self@.limits.max_build_time_per_wakeup),
    {
        self.limits.max_build_time_per_wakeup != 0 && elapsed
            > self.limits.max_build_time_per_wakeup
    }

    /// Puts sessions that were not built in this wakeup back before all others,
    /// in their order.
    pub fn defer_builds(&mut self, rest: &Vec<(u64, u64)>)
        requires
            old(self).inv(),
        ensures
            final(self).inv(),
            final(self)@ == (ListenerModel {
                build_work: rest@ + old(self)@.build_work,
                ..old(self)@
            }),
    {
        let ghost m0 = self@;
        let mut k: usize = rest.len();
        assert(rest@.skip(k as int) + m0.build_work =~= m0.build_work);
        while k > 0
            invariant
                k <= rest@.len(),
                self.inv(),
                self@ == (ListenerModel {
                    build_work: rest@.skip(k as int) + m0.build_work,
                    ..m0
                }),
            decreases k,
        {
            k = k - 1;
            let ghost before = self@;
            self.build_work.push_front(rest[k]);
            assert(self.build_work@ =~= rest@.skip(k as int) + m0.build_work);
            proof {
                lemma_wf_frame(before, self@);
            }
        }
        assert(rest@.skip(0) + m0.build_work =~= rest@ + m0.build_work);
    }

    /// Takes in one outcome; tells whether the connection is to be closed.
    fn commit_one(&mut self, r: BuildResult, now: u64) -> (reject: bool)
        requires
            old(self).inv(),
        ensures
            final(self).inv(),
            final(self)@ == old(self)@.committed_one(r, now),
            reject == old(self)@.rejects(r),
    {
        let ghost m0 = self@;
        if !self.is_building(r.0, r.1) {
            self.close_queue(r.1);
            true
        } else if !r.2 {
            self.let_go(r.0);
            self.counters.build_failures = count(self.counters.build_failures);
            true
        } else if self.limits.max_pending_accepts > 0 && self.pending.len()
            >= self.limits.max_pending_accepts {
            self.let_go(r.0);
            self.counters.pending_drops = count(self.counters.pending_drops);
            true
        } else {
            if let Some(s) = self.sessions.remove(&r.0) {
                let ready = Session {
                    generation: s.generation,
                    building: false,
                    created_at: s.created_at,
                };
                self.sessions.insert(r.0, ready);
                assert(self@.sessions =~= m0.sessions.insert(r.0, ready));
                assert(self@.sessions.dom() =~= m0.sessions.dom());
            }
            self.pending.push_back(PendingAccept { peer: r.0, generation: r.1, created_at: now });
            proof {
                lemma_ready_keeps_order(m0, self@, r.0);
            }
            false
        }
    }

    /// Takes in the outcomes of builds. Built connections wait to be accepted;
    /// the generations of those that are to be closed instead come back, and
    /// whether anyone who waits to accept is to be woken.
    pub fn commit_builds(&mut self, results: &Vec<BuildResult>, now: u64) -> (r: (Vec<u64>, bool))
        requires
            old(self).inv(),
        ensures
            final(self).inv(),
            final(self)@.wf(),
            final(self)@ == old(self)@.committed(results@, now),
            r.0@ == old(self)@.rejected(results@, now),
            r.1 == (r.0@.len() < results@.len()),
    {
        let ghost m0 = self@;
        let mut closed: Vec<u64> = Vec::new();
        let mut notify: bool = false;
        let mut k: usize = 0;
        assert(results@.take(0) =~= Seq::<BuildResult>::empty());
        while k < results.len()
            invariant
                k <= results@.len(),
                self.inv(),
                self@ == m0.committed(results@.take(k as int), now),
                closed@ == m0.rejected(results@.take(k as int), now),
                closed@.len() <= k,
                notify == (closed@.len() < k),
            decreases results@.len() - k,
        {
            assert(results@.take(k + 1).drop_last() =~= results@.take(k as int));
            let r: BuildResult = results[k];
            if self.commit_one(r, now) {
                closed.push(r.1);
            } else {
                notify = true;
            }
            k = k + 1;
        }
        assert(results@.take(k as int) =~= results@);
        (closed, notify)
    }

    fn is_overdue(&self, peer: u64, generation: u64, now: u64) -> (b: bool)
        ensures
            b == self@.overdue(peer, generation, now),
    {
        match self.sessions.get(&peer) {
            Some(s) => {
                let old: u64 = if now > s.created_at {
                    now - s.created_at
                } else {
                    0
                };
                s.building && s.generation == generation && self.limits.building_timeout != 0
                    && old > self.limits.building_timeout
            },
            None => false,
        }
    }

    fn sweep_building(&mut self, now: u64)
        requires
            old(self).inv(),
        ensures
            final(self).inv(),
            final(self)@ == old(self)@.swept(old(self)@.build_work, now),
    {
        let ghost m0 = self@;
        let ghost work = self.build_work@;
        let mut todo: VecDeque<(u64, u64)> = VecDeque::new();
        std::mem::swap(&mut todo, &mut self.build_work);
        proof {
            lemma_wf_frame(m0, self@);
        }
        let ghost mut k: int = 0;
        assert(work.take(0) =~= Seq::<(u64, u64)>::empty());
        assert(work.skip(0) =~= work);
        loop
            invariant
                0 <= k <= work.len(),
                todo@ == work.skip(k),
                self.inv(),
                self@ == m0.swept(work.take(k), now),
            ensures
                k == work.len(),
                self.inv(),
                self@ == m0.swept(work.take(k), now),
            decreases work.len() - k,
        {
            match todo.pop_front() {
                None => {
                    break;
                },
                Some(e) => {
                    assert(work.take(k + 1).drop_last() =~= work.take(k));
                    assert(work.take(k + 1).last() == e);
                    assert(work.skip(k).subrange(1, work.skip(k).len() as int) =~= work.skip(k + 1));
                    if self.is_overdue(e.0, e.1, now) {
                        self.let_go(e.0);
                        let ghost before = self@;
                        self.counters.build_timeouts = count(self.counters.build_timeouts);
                        proof {
                            lemma_wf_frame(before, self@);
                        }
                    } else {
                        let ghost before = self@;
                        self.build_work.push_back(e);
                        proof {
                            lemma_wf_frame(before, self@);
                        }
                    }
                    proof {
                        k = k + 1;
                    }
                },
            }
        }
        assert(work.take(k) =~= work);
    }

    fn sweep_pending(&mut self, now: u64) -> (gone: Vec<PendingAccept>)
        requires
            old(self).inv(),
        ensures
            final(self).inv(),
            final(self)@ == (ListenerModel {
                pending: old(self)@.pending_kept(old(self)@.pending, now),
                ..old(self)@
            }),
            gone@ == old(self)@.pending_expired(old(self)@.pending, now),
    {
        let ghost m0 = self@;
        let ghost all = self.pending@;
        let mut gone: Vec<PendingAccept> = Vec::new();
        let mut todo: VecDeque<PendingAccept> = VecDeque::new();
        std::mem::swap(&mut todo, &mut self.pending);
        proof {
            lemma_wf_frame(m0, self@);
        }
        let ghost mut k: int = 0;
        assert(all.take(0) =~= Seq::<PendingAccept>::empty());
        assert(all.skip(0) =~= all);
        loop
            invariant
                0 <= k <= all.len(),
                all == m0.pending,
                m0.wf(),
                todo@ == all.skip(k),
                self.inv(),
                self@ == (ListenerModel { pending: m0.pending_kept(all.take(k), now), ..m0 }),
                self@.pending.len() <= k,
                gone@ == m0.pending_expired(all.take(k), now),
            ensures
                k == all.len(),
                self.inv(),
                self@ == (ListenerModel { pending: m0.pending_kept(all.take(k), now), ..m0 }),
                gone@ == m0.pending_expired(all.take(k), now),
            decreases all.len() - k,
        {
            match todo.pop_front() {
                None => {
                    break;
                },
                Some(p) => {
                    assert(all.take(k + 1).drop_last() =~= all.take(k));
                    assert(all.take(k + 1).last() == p);
                    assert(all.skip(k).subrange(1, all.skip(k).len() as int) =~= all.skip(k + 1));
                    let old: u64 = if now > p.created_at {
                        now - p.created_at
                    } else {
                        0
                    };
                    if self.limits.pending_timeout != 0 && old > self.limits.pending_timeout {
                        gone.push(p);
                    } else {
                        self.pending.push_back(p);
                    }
                    proof {
                        k = k + 1;
                    }
                },
            }
        }
        assert(all.take(k) =~= all);
        gone
    }

    /// Drops sessions that have been building for too long, and connections
    /// that have waited for too long to be accepted; the latter come back, to
    /// be closed.
    pub fn sweep(&mut self, now: u64) -> (gone: Vec<PendingAccept>)
        requires
            old(self).inv(),
        ensures
            final(self).inv(),
            final(self)@.wf(),
            final(self)@ == old(self)@.after_sweep(now),
            gone@ == old(self)@.pending_expired(old(self)@.pending, now),
    {
        let ghost start = self@;
        self.sweep_building(now);
        proof {
            lemma_swept_keeps_pending(start, start.build_work, now);
            lemma_pending_expired_by_limits(start, self@, start.pending, now);
        }
        let gone: Vec<PendingAccept> = self.sweep_pending(now);
        let ghost m0 = self@;
        let mut k: usize = 0;
        assert(gone@.take(0) =~= Seq::<PendingAccept>::empty());
        while k < gone.len()
            invariant
                k <= gone@.len(),
                self.inv(),
                self@ == m0.evicted(gone@.take(k as int)),
            decreases gone@.len() - k,
        {
            assert(gone@.take(k + 1).drop_last() =~= gone@.take(k as int));
            let peer: u64 = gone[k].peer;
            let found: bool = self.sessions.contains_key(&peer);
            if found {
                self.let_go(peer);
                self.counters.pending_timeouts = count(self.counters.pending_timeouts);
            }
            k = k + 1;
        }
        assert(gone@.take(k as int) =~= gone@);
        gone
    }

    /// Begins a wakeup: no peer is affected yet.
    pub fn begin_wakeup(&mut self)
        requires
            old(self).inv(),
        ensures
            final(self).inv(),
            final(self)@ == (ListenerModel { affected: Seq::empty(), ..old(self)@ }),
    {
        let ghost before = self@;
        self.affected.clear();
        self.affected_seen.clear();
        assert(self.affected_seen@ =~= peers_of(self.affected@));
        proof {
            lemma_wf_frame(before, self@);
        }
    }

    /// The peers, with the generations of their queues, that got packets in this
    /// wakeup and are to be woken, each once, in the order of their first
    /// packets.
    pub fn affected(&self) -> (v: &Vec<(u64, u64)>)
        ensures
            v@ == self@.affected,
    {
        &self.affected
    }

    /// Routes the first `got` datagrams of `slots`, in order, and puts buffers
    /// for the next ones in their places.
    pub fn route_batch(
        &mut self,
        peers: &Vec<u64>,
        slots: &mut Vec<Vec<u8>>,
        got: usize,
        now: u64,
    )
        requires
            old(self).inv(),
            got <= peers@.len(),
            got <= old(slots)@.len(),
            old(self)@.next_generation + got <= u64::MAX,
        ensures
            final(self).inv(),
            final(self)@.wf(),
            final(self)@ == routed_all(
                old(self)@,
                peers@.take(got as int),
                crate::wire::byte_rows(old(slots)@.take(got as int)),
                now,
            ),
            final(slots)@.len() == old(slots)@.len(),
            forall|k: int| 0 <= k < got ==> (#[trigger] final(slots)@[k])@.len() == MAX_DATAGRAM,
            ({
                let rows = crate::wire::byte_rows(old(slots)@.take(got as int));
                forall|k: int|
                    0 <= k < got ==> (#[trigger] final(slots)@[k])@ == spare_for(
                        routed_all(old(self)@, peers@.take(k), rows.take(k), now),
                        peers@[k],
                        rows[k],
                    )
            }),
            forall|k: int|
                got <= k < final(slots)@.len() ==> #[trigger] final(slots)@[k] == old(slots)@[k],
    {
        let ghost m0 = self@;
        let ghost slots0 = slots@;
        let ghost rows = crate::wire::byte_rows(slots0.take(got as int));
        let mut k: usize = 0;
        assert(peers@.take(0) =~= Seq::<u64>::empty());
        while k < got
            invariant
                k <= got <= peers@.len(),
                got <= slots0.len(),
                slots@.len() == slots0.len(),
                rows == crate::wire::byte_rows(slots0.take(got as int)),
                self.inv(),
                self@ == routed_all(m0, peers@.take(k as int), rows.take(k as int), now),
                self@.next_generation <= m0.next_generation + k,
                m0.next_generation + got <= u64::MAX,
                forall|x: int| 0 <= x < k ==> (#[trigger] slots@[x])@.len() == MAX_DATAGRAM,
                forall|x: int|
                    0 <= x < k ==> (#[trigger] slots@[x])@ == spare_for(
                        routed_all(m0, peers@.take(x), rows.take(x), now),
                        peers@[x],
                        rows[x],
                    ),
                forall|x: int| k <= x < slots0.len() ==> #[trigger] slots@[x] == slots0[x],
            decreases got - k,
        {
            let mut data: Vec<u8> = Vec::new();
            assert(slots@[k as int] == slots0[k as int]);
            std::mem::swap(&mut data, &mut slots[k]);
            assert(data@ == rows[k as int]);
            assert(peers@.take(k + 1).drop_last() =~= peers@.take(k as int));
            assert(rows.take(k + 1).drop_last() =~= rows.take(k as int));
            let spare: Vec<u8> = self.route_inner(peers[k], data, now);
            slots[k] = spare;
            k = k + 1;
        }
        assert(rows.take(got as int) =~= rows);
        assert(self@.wf());
    }

    /// Gives the session of a peer up, if it has one: see
    /// [`ListenerModel::let_go`]. A later datagram of the peer opens a new
    /// session.
    pub fn remove_peer(&mut self, peer: u64) -> (found: bool)
        requires
            old(self).inv(),
        ensures
            final(self).inv(),
            final(self)@.wf(),
            found == old(self)@.sessions.contains_key(peer),
            final(self)@ == old(self)@.let_go(peer),
    {
        let found: bool = self.sessions.contains_key(&peer);
        self.let_go(peer);
        found
    }

    /// The connection of a generation is gone. Its queue goes with it, or, where
    /// a session still has it, is closed, so that the next datagram of its peer
    /// opens a new session.
    pub fn transport_dropped(&mut self, generation: u64)
        requires
            old(self).inv(),
        ensures
            final(self).inv(),
            final(self)@.wf(),
            final(self)@ == old(self)@.connection_gone(generation),
    {
        let ghost m0 = self@;
        if self.orphaned.contains(&generation) {
            self.orphaned.remove(&generation);
            self.queues.remove(&generation);
            assert(queue_states(self.queues@) =~= m0.queues.remove(generation));
            assert(self@ == m0.connection_gone(generation));
            proof {
                lemma_connection_gone_keeps_order(m0, generation);
            }
        } else {
            self.close_queue(generation);
        }
    }

    /// The socket failed with `e`, while the reader waited for a datagram or,
    /// as `draining` says, took those that were there: how many milliseconds it
    /// rests before it waits again. A drain only ends.
    pub fn failed(&mut self, e: std::io::Error, draining: bool) -> (rest_ms: Option<u64>)
        requires
            old(self).inv(),
        ensures
            final(self).inv(),
            final(self)@ == (ListenerModel { last_error: Some(e), ..old(self)@ }),
            rest_ms == (if draining {
                None
            } else {
                Some(READER_REST_MS)
            }),
    {
        let ghost before = self@;
        self.last_error = Some(e);
        proof {
            lemma_wf_frame(before, self@);
        }
        if draining {
            None
        } else {
            Some(READER_REST_MS)
        }
    }

    /// Hands over the last error of the socket, and forgets it.
    pub fn take_error(&mut self) -> (e: Option<std::io::Error>)
        requires
            old(self).inv(),
        ensures
            final(self).inv(),
            e == old(self)@.last_error,
            final(self)@ == (ListenerModel { last_error: None, ..old(self)@ }),
    {
        let ghost before = self@;
        let e: Option<std::io::Error> = self.last_error.take();
        proof {
            lemma_wf_frame(before, self@);
        }
        e
    }

    /// Receives the next packet of a connection by exchanging buffers.
    pub fn recv_vec_step(&mut self, generation: u64, buf: &mut Vec<u8>) -> (s: RecvStep)
        requires
            old(self).inv(),
        ensures
            final(self).inv(),
            final(self)@.queues.dom() == old(self)@.queues.dom(),
            final(self)@ == (ListenerModel { queues: final(self)@.queues, ..old(self)@ }),
            forall|g: u64|
                g != generation && old(self)@.queues.contains_key(g)
                    ==> #[trigger] final(self)@.queues[g] == old(self)@.queues[g],
            !old(self)@.queues.contains_key(generation) ==> s == RecvStep::Closed && final(buf)@
                == old(buf)@,
            old(self)@.queues.contains_key(generation) ==> {
                let q = old(self)@.queues[generation];
                if q.packets.len() > 0 {
                    &&& final(buf)@ == q.packets[0]
                    &&& s == RecvStep::Ready(q.packets[0].len() as usize)
                    &&& final(self)@.queues[generation] == q.popped().recycled(old(buf)@)
                } else {
                    &&& final(buf)@ == old(buf)@
                    &&& final(self)@.queues[generation] == q
                    &&& s == (if q.closed {
                        RecvStep::Closed
                    } else {
                        RecvStep::Wait
                    })
                }
            },
    {
        let ghost m0 = self@;
        match self.queues.remove(&generation) {
            None => {
                assert(queue_states(self.queues@) =~= m0.queues);
                RecvStep::Closed
            },
            Some(q) => {
                let mut q: PeerQueue = q;
                let ghost q0 = q@;
                assert(m0.queues.contains_key(generation) && m0.queues[generation] == q0);
                let s = q.recv_vec_step(buf);
                let ghost q1 = q@;
                self.queues.insert(generation, q);
                assert(queue_states(self.queues@) =~= m0.queues.insert(generation, q1));
                assert(self@.queues.dom() =~= m0.queues.dom());
                proof {
                    lemma_wf_queue_changed(m0, self@, generation);
                }
                s
            },
        }
    }

    /// The next connection that waits to be accepted, if there is one. Once the
    /// listener is closed and none is left, that is an error.
    pub fn try_accept(&mut self) -> (r: Result<Option<PendingAccept>, AcceptError>)
        requires
            old(self).inv(),
        ensures
            final(self).inv(),
            old(self)@.pending.len() > 0 ==> {
                &&& r == Ok::<Option<PendingAccept>, AcceptError>(Some(old(self)@.pending[0]))
                &&& final(self)@ == (ListenerModel {
                    pending: old(self)@.pending.skip(1),
                    ..old(self)@
                })
            },
            old(self)@.pending.len() == 0 ==> {
                &&& final(self)@ == old(self)@
                &&& r == (if old(self)@.closed {
                    Err::<Option<PendingAccept>, AcceptError>(AcceptError::ConnectionAborted)
                } else {
                    Ok::<Option<PendingAccept>, AcceptError>(None)
                })
            },
    {
        let ghost before = self@;
        match self.pending.pop_front() {
            Some(p) => {
                assert(self.pending@ =~= before.pending.skip(1));
                proof {
                    lemma_wf_frame(before, self@);
                }
                Ok(Some(p))
            },
            None => if self.closed {
                Err(AcceptError::ConnectionAborted)
            } else {
                Ok(None)
            },
        }
    }

    /// One look at what can be accepted by someone who waits for it only so long;
    /// `timed_out` says that the time is up, and then nothing is taken.
    pub fn accept_timeout(&mut self, timed_out: bool) -> (r: Result<
        Option<PendingAccept>,
        AcceptError,
    >)
        requires
            old(self).inv(),
        ensures
            final(self).inv(),
            timed_out ==> r == Err::<Option<PendingAccept>, AcceptError>(AcceptError::TimedOut)
                && final(self)@ == old(self)@,
            !timed_out && old(self)@.pending.len() > 0 ==> {
                &&& r == Ok::<Option<PendingAccept>, AcceptError>(Some(old(self)@.pending[0]))
                &&& final(self)@ == (ListenerModel {
                    pending: old(self)@.pending.skip(1),
                    ..old(self)@
                })
            },
            !timed_out && old(self)@.pending.len() == 0 ==> {
                &&& final(self)@ == old(self)@
                &&& r == (if old(self)@.closed {
                    Err::<Option<PendingAccept>, AcceptError>(AcceptError::ConnectionAborted)
                } else {
                    Ok::<Option<PendingAccept>, AcceptError>(None)
                })
            },
    {
        if timed_out {
            Err(AcceptError::TimedOut)
        } else {
            self.try_accept()
        }
    }

    /// Stops the listener; tells whether it was running. Connections that were
    /// accepted go on.
    pub fn close(&mut self) -> (was_open: bool)
        requires
            old(self).inv(),
        ensures
            final(self).inv(),
            was_open == !old(self)@.closed,
            final(self)@ == (ListenerModel { closed: true, ..old(self)@ }),
    {
        let ghost before = self@;
        let was_open: bool = !self.closed;
        self.closed = true;
        proof {
            lemma_wf_frame(before, self@);
        }
        was_open
    }

    /// Whether the listener has been stopped.
    pub fn is_closed(&self) -> (b: bool)
        ensures
            b == self@.closed,
    {
        self.closed
    }

    /// How many sessions there are.
    pub fn session_count(&self) -> (n: usize)
        ensures
            n == self@.sessions.len(),
    {
        self.sessions.len()
    }

    /// How many connections wait to be accepted.
    pub fn pending_count(&self) -> (n: usize)
        ensures
            n == self@.pending.len(),
    {
        self.pending.len()
    }

    /// How many generations are left for new sessions.
    pub fn generations_left(&self) -> (n: u64)
        ensures
            n == u64::MAX - self@.next_generation,
    {
        u64::MAX - self.next_generation
    }

    /// What the listener holds and has dropped.
    pub fn stats(&self) -> (s: ListenerStatsSnapshot)
        ensures
            s == (ListenerStatsSnapshot {
                sessions: self@.sessions.len() as usize,
                pending: self@.pending.len() as usize,
                session_drops: self@.counters.session_drops,
                queue_drops: self@.counters.queue_drops,
                pending_drops: self@.counters.pending_drops,
                build_failures: self@.counters.build_failures,
                build_timeouts: self@.counters.build_timeouts,
                pending_timeouts: self@.counters.pending_timeouts,
                affected_comparisons: self@.counters.affected_comparisons,
            }),
    {
        ListenerStatsSnapshot {
            sessions: self.sessions.len(),
            pending: self.pending.len(),
            session_drops: self.counters.session_drops,
            queue_drops: self.counters.queue_drops,
            pending_drops: self.counters.pending_drops,
            build_failures: self.counters.build_failures,
            build_timeouts: self.counters.build_timeouts,
            pending_timeouts: self.counters.pending_timeouts,
            affected_comparisons: self.counters.affected_comparisons,
        }
    }
}

/// Why nothing is accepted.
#[derive(Clone, Copy, Debug, PartialEq, Eq, Structural)]
pub enum AcceptError {
    /// The listener is closed.
    ConnectionAborted,
    /// Nothing came in time.
    TimedOut,
}

/// A listener after datagrams were routed one after the other.
pub open spec fn routed_all(
    m: ListenerModel,
    peers: Seq<u64>,
    data: Seq<Seq<u8>>,
    now: u64,
) -> ListenerModel
    decreases peers.len(),
{
    if peers.len() == 0 {
        m
    } else {
        routed_all(m, peers.drop_last(), data.drop_last(), now).routed(
            peers.last(),
            data.last(),
            now,
        )
    }
}

/// How far one wakeup has drained the socket. The datagram that woke the reader
/// counts.
#[derive(Clone, Copy, Debug, PartialEq, Eq, Structural)]
pub struct Drain {
    /// Datagrams routed so far.
    pub drained: usize,
    /// The wakeup is over; what is left waits for the next one.
    pub quantum_hit: bool,
}

impl Drain {
    /// The drain has used up what it may do.
    pub open spec fn spent(limits: KcpListenerLimits, drained: nat, elapsed_ms: u64) -> bool {
        if limits.max_drain_packets > 0 {
            drained >= limits.max_drain_packets
        } else {
            drained >= UNLIMITED_DRAIN_QUANTUM || elapsed_ms >= UNLIMITED_DRAIN_QUANTUM_MS
        }
    }

    /// A drain with one datagram routed.
    pub fn start(limits: &KcpListenerLimits) -> (d: Self)
        ensures
            d == (Drain {
                drained: 1,
                quantum_hit: limits.max_drain_packets == 1,
            }),
    {
        Drain { drained: 1, quantum_hit: limits.max_drain_packets == 1 }
    }

    /// How many datagrams to take from the socket next, of at most `slots`.
    /// None is the end of the wakeup.
    pub fn recv_cap(&mut self, limits: &KcpListenerLimits, slots: usize) -> (cap: usize)
        ensures
            cap == (if limits.max_drain_packets > 0 {
                let left = if old(self).drained < limits.max_drain_packets {
                    limits.max_drain_packets - old(self).drained
                } else {
                    0
                };
                if left < slots {
                    left
                } else {
                    slots as int
                }
            } else if slots < RECV_BATCH {
                slots as int
            } else {
                RECV_BATCH as int
            }),
            *final(self) == (Drain {
                quantum_hit: old(self).quantum_hit || cap == 0,
                ..*old(self)
            }),
    {
        let cap: usize = if limits.max_drain_packets > 0 {
            let left: usize = if self.drained < limits.max_drain_packets {
                limits.max_drain_packets - self.drained
            } else {
                0
            };
            if left < slots {
                left
            } else {
                slots
            }
        } else if slots < RECV_BATCH {
            slots
        } else {
            RECV_BATCH
        };
        if cap == 0 {
            self.quantum_hit = true;
        }
        cap
    }

    /// `got` more datagrams were routed, `elapsed_ms` milliseconds after the
    /// wakeup began.
    pub fn routed(&mut self, limits: &KcpListenerLimits, got: usize, elapsed_ms: u64)
        requires
            old(self).drained + got <= usize::MAX,
        ensures
            final(self).drained == old(self).drained + got,
            final(self).quantum_hit == Drain::spent(
                *limits,
                (old(self).drained + got) as nat,
                elapsed_ms,
            ),
    {
        self.drained = self.drained + got;
        self.quantum_hit = if limits.max_drain_packets > 0 {
            self.drained >= limits.max_drain_packets
        } else {
            self.drained >= UNLIMITED_DRAIN_QUANTUM || elapsed_ms >= UNLIMITED_DRAIN_QUANTUM_MS
        };
    }
}

/// Counts a wakeup, and tells whether it is time to sweep.
pub fn sweep_due(counter: &mut u32) -> (due: bool)
    ensures
        *final(counter) == (if *old(counter) == u32::MAX {
            0
        } else {
            (*old(counter) + 1) as u32
        }),
        due == (*final(counter) % SWEEP_INTERVAL == 0),
{
    *counter = if *counter == u32::MAX {
        0
    } else {
        *counter + 1
    };
    *counter % SWEEP_INTERVAL == 0
}

/// A datagram concerns its own peer alone: the sessions and queues of all other
/// peers stay as they are.
pub proof fn law_routing_leaves_others_alone(
    m: ListenerModel,
    peer: u64,
    data: Seq<u8>,
    now: u64,
    other: u64,
)
    requires
        m.wf(),
        m.next_generation < u64::MAX,
        other != peer,
    ensures
        m.routed(peer, data, now).sessions.contains_key(other) == m.sessions.contains_key(other),
        m.sessions.contains_key(other) ==> {
            let g = m.sessions[other].generation;
            &&& m.routed(peer, data, now).sessions[other] == m.sessions[other]
            &&& m.routed(peer, data, now).queues.contains_key(g)
            &&& m.routed(peer, data, now).queues[g] == m.queues[g]
        },
{
    if m.sessions.contains_key(other) {
        assert(m.queues.contains_key(m.sessions[other].generation));
        if m.sessions.contains_key(peer) {
            assert(m.sessions[peer].generation != m.sessions[other].generation);
        }
    }
}

/// A burst opens one session: once a datagram of a peer has been taken in, the
/// next one goes to the same session, and nothing more is to be built.
pub proof fn law_burst_opens_one_session(
    m: ListenerModel,
    peer: u64,
    first: Seq<u8>,
    second: Seq<u8>,
    now: u64,
    later: u64,
)
    requires
        m.wf(),
        m.next_generation < u64::MAX,
        m.live(peer) || !m.forgotten(peer).crowded(),
    ensures
        ({
            let a = m.routed(peer, first, now);
            let b = a.routed(peer, second, later);
            &&& a.live(peer)
            &&& b.sessions[peer] == a.sessions[peer]
            &&& b.build_work == a.build_work
            &&& b.next_generation == a.next_generation
        }),
{
}

/// A late outcome does no harm: one that belongs to a generation which is not
/// being built any more changes no session and lets nobody in.
pub proof fn law_stale_build_changes_no_session(m: ListenerModel, r: BuildResult, now: u64)
    requires
        !m.still_building(r.0, r.1),
    ensures
        m.committed_one(r, now).sessions == m.sessions,
        m.committed_one(r, now).pending == m.pending,
        m.rejects(r),
{
}

/// A peer that was removed is taken in again: its next datagram opens a new
/// session, of a generation that there has not been before, with that datagram
/// in its queue.
pub proof fn law_removed_peer_starts_afresh(
    m: ListenerModel,
    peer: u64,
    data: Seq<u8>,
    now: u64,
)
    requires
        m.wf(),
        m.next_generation < u64::MAX,
        m.sessions.contains_key(peer),
    ensures
        ({
            let removed = m.let_go(peer);
            let again = removed.routed(peer, data, now);
            &&& !removed.sessions.contains_key(peer)
            &&& again.live(peer)
            &&& again.sessions[peer] == (Session {
                generation: m.next_generation,
                building: true,
                created_at: now,
            })
            &&& !m.queues.contains_key(m.next_generation)
            &&& again.queues[m.next_generation].packets == seq![data]
        }),
{
    let removed = m.let_go(peer);
    assert(removed.sessions.len() < m.sessions.len());
    let again = removed.routed(peer, data, now);
    assert(again.queues[m.next_generation].packets =~= seq![data]);
}

proof fn lemma_wf_frame(a: ListenerModel, b: ListenerModel)
    requires
        a.wf(),
        a.limits == b.limits,
        a.sessions == b.sessions,
        a.queues == b.queues,
        a.orphaned == b.orphaned,
        a.pending.len() >= b.pending.len(),
        a.next_generation == b.next_generation,
    ensures
        b.wf(),
{
    assert forall|g: u64| #[trigger] b.queues.contains_key(g) implies b.orphaned.contains(g)
        || b.held(g) by {
        assert(a.queues.contains_key(g));
        if a.held(g) {
            let p = choose|p: u64| #[trigger]
                a.sessions.contains_key(p) && a.sessions[p].generation == g;
            assert(b.sessions.contains_key(p));
        }
    }
}

proof fn lemma_wf_queue_changed(a: ListenerModel, b: ListenerModel, generation: u64)
    requires
        a.wf(),
        a.queues.contains_key(generation),
        b.queues[generation].wf(),
        b.queues[generation].max_packets == a.queues[generation].max_packets,
        a.queues[generation].closed ==> b.queues[generation].closed,
        b == (ListenerModel {
            queues: a.queues.insert(generation, b.queues[generation]),
            ..a
        }),
    ensures
        b.wf(),
{
    assert forall|g: u64| #[trigger] b.queues.contains_key(g) implies b.orphaned.contains(g)
        || b.held(g) by {
        assert(a.queues.contains_key(g));
        if a.held(g) {
            let p = choose|p: u64| #[trigger]
                a.sessions.contains_key(p) && a.sessions[p].generation == g;
            assert(b.sessions.contains_key(p));
        }
    }
}

proof fn lemma_opened_keeps_order(m: ListenerModel, peer: u64, now: u64)
    requires
        m.wf(),
        !m.sessions.contains_key(peer),
        !m.crowded(),
        m.next_generation < u64::MAX,
    ensures
        m.opened(peer, now).wf(),
{
    let n = m.opened(peer, now);
    assert(n.sessions.contains_key(peer));
    assert forall|g: u64| #[trigger] n.queues.contains_key(g) implies n.orphaned.contains(g)
        || n.held(g) by {
        if g != m.next_generation {
            assert(m.queues.contains_key(g));
            if m.held(g) {
                let p = choose|p: u64| #[trigger]
                    m.sessions.contains_key(p) && m.sessions[p].generation == g;
                assert(n.sessions.contains_key(p));
            }
        } else {
            assert(n.sessions[peer].generation == g);
        }
    }
    assert(!m.queues.contains_key(m.next_generation));
    assert(!m.orphaned.contains(m.next_generation));
}

proof fn lemma_ready_keeps_order(a: ListenerModel, b: ListenerModel, peer: u64)
    requires
        a.wf(),
        a.sessions.contains_key(peer),
        !a.backlog_full(),
        b.pending.len() == a.pending.len() + 1,
        b.sessions[peer].generation == a.sessions[peer].generation,
        b == (ListenerModel {
            sessions: a.sessions.insert(peer, b.sessions[peer]),
            pending: b.pending,
            ..a
        }),
    ensures
        b.wf(),
{
    assert(b.sessions.dom() =~= a.sessions.dom());
    assert forall|g: u64| #[trigger] b.queues.contains_key(g) implies b.orphaned.contains(g)
        || b.held(g) by {
        assert(a.queues.contains_key(g));
        if a.held(g) {
            let p = choose|p: u64| #[trigger]
                a.sessions.contains_key(p) && a.sessions[p].generation == g;
            assert(b.sessions.contains_key(p) && b.sessions[p].generation == g);
        }
    }
    assert forall|p: u64| #[trigger] b.sessions.contains_key(p) implies b.queues.contains_key(
        b.sessions[p].generation,
    ) && !b.orphaned.contains(b.sessions[p].generation) by {
        assert(a.sessions.contains_key(p));
    }
}

proof fn lemma_let_go_keeps_order(m: ListenerModel, peer: u64)
    requires
        m.wf(),
    ensures
        m.let_go(peer).wf(),
{
    let n = m.let_go(peer);
    if m.sessions.contains_key(peer) {
        let gone = m.sessions[peer].generation;
        assert(m.queues.contains_key(gone));
        assert forall|g: u64| #[trigger] n.queues.contains_key(g) implies n.orphaned.contains(g)
            || n.held(g) by {
            assert(m.queues.contains_key(g));
            if g != gone && m.held(g) {
                let p = choose|p: u64| #[trigger]
                    m.sessions.contains_key(p) && m.sessions[p].generation == g;
                assert(n.sessions.contains_key(p));
            }
        }
        assert forall|p: u64| #[trigger] n.sessions.contains_key(p) implies n.queues.contains_key(
            n.sessions[p].generation,
        ) && !n.orphaned.contains(n.sessions[p].generation) by {
            assert(m.sessions.contains_key(p));
            assert(m.sessions[p].generation != m.sessions[peer].generation);
        }
    }
}

proof fn lemma_connection_gone_keeps_order(m: ListenerModel, generation: u64)
    requires
        m.wf(),
        m.orphaned.contains(generation),
    ensures
        m.connection_gone(generation).wf(),
{
    let n = m.connection_gone(generation);
    assert forall|g: u64| #[trigger] n.queues.contains_key(g) implies n.orphaned.contains(g)
        || n.held(g) by {
        assert(m.queues.contains_key(g));
        if m.held(g) {
            let p = choose|p: u64| #[trigger]
                m.sessions.contains_key(p) && m.sessions[p].generation == g;
            assert(n.sessions.contains_key(p));
        }
    }
}

/// No queue outlives those who hold it. A queue whose session is given up and
/// whose connection is gone is not kept, in whichever order the two go; nor is
/// that of a session without a connection once it is given up.
pub proof fn law_queue_goes_with_its_last_holder(m: ListenerModel, peer: u64)
    requires
        m.wf(),
        m.sessions.contains_key(peer),
    ensures
        ({
            let g = m.sessions[peer].generation;
            &&& !m.let_go(peer).connection_gone(g).queues.contains_key(g)
            &&& !m.connection_gone(g).let_go(peer).queues.contains_key(g)
            &&& m.sessions[peer].building ==> !m.let_go(peer).queues.contains_key(g)
        }),
{
    assert(m.queues.contains_key(m.sessions[peer].generation));
}

/// A listener without sessions, and without connections that have lost theirs,
/// keeps no queue.
pub proof fn law_idle_listener_keeps_no_queue(m: ListenerModel, generation: u64)
    requires
        m.wf(),
        forall|p: u64| !m.sessions.contains_key(p),
        forall|g: u64| !m.orphaned.contains(g),
    ensures
        !m.queues.contains_key(generation),
{
    if m.queues.contains_key(generation) {
        assert(m.orphaned.contains(generation) || m.held(generation));
    }
}

proof fn lemma_swept_keeps_pending(m: ListenerModel, work: Seq<(u64, u64)>, now: u64)
    ensures
        m.swept(work, now).pending == m.pending,
        m.swept(work, now).limits == m.limits,
    decreases work.len(),
{
    if work.len() > 0 {
        lemma_swept_keeps_pending(m, work.drop_last(), now);
    }
}

proof fn lemma_pending_expired_by_limits(
    a: ListenerModel,
    b: ListenerModel,
    pending: Seq<PendingAccept>,
    now: u64,
)
    requires
        a.limits == b.limits,
    ensures
        a.pending_expired(pending, now) == b.pending_expired(pending, now),
    decreases pending.len(),
{
    if pending.len() > 0 {
        lemma_pending_expired_by_limits(a, b, pending.drop_last(), now);
    }
}

/// The buffer that a queue gives for the packet `data`: the packet's own where
/// it is dropped, else one kept for reuse, else a fresh one.
pub open spec fn reused_buffer(
    q: crate::kcp::transport::PeerQueueState,
    data: Seq<u8>,
) -> Seq<u8> {
    if q.full() {
        crate::wire::resized(data, MAX_DATAGRAM as nat)
    } else if q.spare.len() > 0 {
        q.spare.last()
    } else {
        crate::wire::zero_bytes(MAX_DATAGRAM as nat)
    }
}

/// The buffer that a listener gives for the datagram `data` of a peer: that of
/// the peer's queue; the datagram's own where there are too many sessions; a
/// fresh one where a session is opened.
pub open spec fn spare_for(m: ListenerModel, peer: u64, data: Seq<u8>) -> Seq<u8> {
    if m.live(peer) {
        reused_buffer(m.queues[m.sessions[peer].generation], data)
    } else if m.forgotten(peer).crowded() {
        crate::wire::resized(data, MAX_DATAGRAM as nat)
    } else {
        crate::wire::zero_bytes(MAX_DATAGRAM as nat)
    }
}

} // verus!
