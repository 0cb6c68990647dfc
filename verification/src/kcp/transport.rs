//! Per-peer packet queues, through which one shared socket feeds many
//! connections.

use crate::wire::{copy_prefix, resize_bytes};
use std::collections::VecDeque;
use vstd::prelude::*;

verus! {

/// Largest datagram that is received.
pub const MAX_DATAGRAM: usize = 2048;

/// Buffers that a queue keeps for reuse after a burst.
pub const MAX_RETAINED_PEER_BUFFERS: usize = 64;

/// Why there is no datagram.
#[derive(Clone, Copy, Debug, PartialEq, Eq, Structural)]
pub enum RecvError {
    /// None is there yet.
    WouldBlock,
    /// The peer's session is closed.
    ConnectionReset,
}

/// What to do to receive the next datagram.
#[derive(Clone, Copy, Debug, PartialEq, Eq, Structural)]
pub enum RecvStep {
    /// A datagram of this length was delivered.
    Ready(usize),
    /// The session is closed and nothing is left.
    Closed,
    /// Wait to be woken, then ask again.
    Wait,
}

/// The packets of one peer that wait for its connection. The queue is bounded
/// and drops what comes when it is full: the reader of the shared socket never
/// waits for a slow peer, and what is dropped is sent again.
pub struct PeerQueue {
    packets: VecDeque<Vec<u8>>,
    spare: Vec<Vec<u8>>,
    closed: bool,
    max_packets: usize,
    drops: u64,
}

/// What a queue holds.
pub struct PeerQueueState {
    pub packets: Seq<Seq<u8>>,
    pub spare: Seq<Seq<u8>>,
    pub closed: bool,
    pub max_packets: nat,
    pub drops: u64,
}

impl PeerQueueState {
    /// The queue does not take another packet. A bound of 0 is none.
    pub open spec fn full(self) -> bool {
        self.max_packets > 0 && self.packets.len() >= self.max_packets
    }

    /// The bound is kept, and buffers kept for reuse are few and of full size.
    pub open spec fn wf(self) -> bool {
        &&& self.max_packets > 0 ==> self.packets.len() <= self.max_packets
        &&& self.spare.len() <= MAX_RETAINED_PEER_BUFFERS
        &&& forall|i: int| 0 <= i < self.spare.len() ==> (#[trigger] self.spare[i]).len() == MAX_DATAGRAM
    }

    /// The queue after a consumer gave the buffer `b` back.
    pub open spec fn recycled(self, b: Seq<u8>) -> PeerQueueState {
        if self.spare.len() < MAX_RETAINED_PEER_BUFFERS {
            PeerQueueState {
                spare: self.spare.push(crate::wire::resized(b, MAX_DATAGRAM as nat)),
                ..self
            }
        } else {
            self
        }
    }

    /// The queue without its first packet.
    pub open spec fn popped(self) -> PeerQueueState {
        PeerQueueState { packets: self.packets.skip(1), ..self }
    }
}

impl View for PeerQueue {
    type V = PeerQueueState;

    closed spec fn view(&self) -> PeerQueueState {
        PeerQueueState {
            packets: crate::wire::byte_rows(self.packets@),
            spare: crate::wire::byte_rows(self.spare@),
            closed: self.closed,
            max_packets: self.max_packets as nat,
            drops: self.drops,
        }
    }
}

/// `n + 1`, counting round.
pub open spec fn counted(n: u64) -> u64 {
    if n == u64::MAX {
        0
    } else {
        (n + 1) as u64
    }
}

impl PeerQueue {
    /// An empty queue for `max_packets` packets; 0 is no bound. Buffers are
    /// made only as packets come.
    pub fn new(max_packets: usize) -> (q: Self)
        ensures
            q@ == (PeerQueueState {
                packets: Seq::empty(),
                spare: Seq::empty(),
                closed: false,
                max_packets: max_packets as nat,
                drops: 0,
            }),
            q@.wf(),
    {
        let q = PeerQueue {
            packets: VecDeque::new(),
            spare: Vec::new(),
            closed: false,
            max_packets,
            drops: 0,
        };
        assert(q@.packets =~= Seq::<Seq<u8>>::empty());
        assert(q@.spare =~= Seq::<Seq<u8>>::empty());
        q
    }

    /// Queues a packet, and returns a buffer for the next one and whether the
    /// packet was queued. A packet that is dropped gives its own buffer.
    pub fn push_and_reuse(&mut self, pkt: Vec<u8>) -> (r: (Vec<u8>, bool))
        requires
            old(self)@.wf(),
        ensures
            r.1 == !old(self)@.full(),
            r.0@.len() == MAX_DATAGRAM,
            final(self)@.wf(),
            final(self)@.packets == offered(old(self)@.packets, old(self)@.max_packets, pkt@),
            old(self)@.full() ==> {
                &&& r.0@ == crate::wire::resized(pkt@, MAX_DATAGRAM as nat)
                &&& final(self)@ == (PeerQueueState {
                    drops: counted(old(self)@.drops),
                    ..old(self)@
                })
            },
            !old(self)@.full() ==> {
                let spare = old(self)@.spare;
                &&& final(self)@ == (PeerQueueState {
                    packets: old(self)@.packets.push(pkt@),
                    spare: if spare.len() > 0 {
                        spare.drop_last()
                    } else {
                        spare
                    },
                    ..old(self)@
                })
                &&& r.0@ == (if spare.len() > 0 {
                    spare.last()
                } else {
                    crate::wire::zero_bytes(MAX_DATAGRAM as nat)
                })
            },
    {
        if self.max_packets > 0 && self.packets.len() >= self.max_packets {
            self.drops = if self.drops == u64::MAX {
                0
            } else {
                self.drops + 1
            };
            let mut next: Vec<u8> = pkt;
            resize_bytes(&mut next, MAX_DATAGRAM);
            (next, false)
        } else {
            let ghost packets0 = self.packets@;
            let ghost spare0 = self.spare@;
            self.packets.push_back(pkt);
            assert(crate::wire::byte_rows(self.packets@) =~= crate::wire::byte_rows(
                packets0,
            ).push(pkt@));
            match self.spare.pop() {
                Some(b) => {
                    assert(old(self)@.spare[spare0.len() - 1] == b@);
                    assert(crate::wire::byte_rows(self.spare@)
                        =~= crate::wire::byte_rows(spare0).drop_last());
                    (b, true)
                },
                None => {
                    assert(crate::wire::byte_rows(self.spare@)
                        =~= crate::wire::byte_rows(spare0));
                    let mut fresh: Vec<u8> = Vec::new();
                    resize_bytes(&mut fresh, MAX_DATAGRAM);
                    assert(fresh@ =~= crate::wire::zero_bytes(MAX_DATAGRAM as nat));
                    (fresh, true)
                },
            }
        }
    }

    /// Takes the first packet out.
    pub fn pop(&mut self) -> (r: Option<Vec<u8>>)
        requires
            old(self)@.wf(),
        ensures
            final(self)@.wf(),
            match r {
                Some(p) => {
                    &&& old(self)@.packets.len() > 0
                    &&& p@ == old(self)@.packets[0]
                    &&& final(self)@ == old(self)@.popped()
                },
                None => old(self)@.packets.len() == 0 && final(self)@ == old(self)@,
            },
    {
        let ghost packets0 = self.packets@;
        let r = self.packets.pop_front();
        proof {
            if r is Some {
                assert(crate::wire::byte_rows(self.packets@) =~= crate::wire::byte_rows(
                    packets0,
                ).skip(1));
            }
        }
        r
    }

    fn recycle(&mut self, b: Vec<u8>)
        requires
            old(self)@.wf(),
        ensures
            final(self)@ == old(self)@.recycled(b@),
            final(self)@.wf(),
    {
        if self.spare.len() < MAX_RETAINED_PEER_BUFFERS {
            let ghost spare0 = self.spare@;
            let mut b: Vec<u8> = b;
            resize_bytes(&mut b, MAX_DATAGRAM);
            self.spare.push(b);
            assert(crate::wire::byte_rows(self.spare@) =~= crate::wire::byte_rows(
                spare0,
            ).push(b@));
        }
    }

    /// Moves the first packet into the consumer's buffer; the buffer's old
    /// storage goes back to the queue.
    pub fn pop_into(&mut self, buf: &mut Vec<u8>) -> (r: Option<usize>)
        requires
            old(self)@.wf(),
        ensures
            final(self)@.wf(),
            match r {
                Some(n) => {
                    &&& old(self)@.packets.len() > 0
                    &&& final(buf)@ == old(self)@.packets[0]
                    &&& n == final(buf)@.len()
                    &&& final(self)@ == old(self)@.popped().recycled(old(buf)@)
                },
                None => {
                    &&& old(self)@.packets.len() == 0
                    &&& final(self)@ == old(self)@
                    &&& final(buf)@ == old(buf)@
                },
            },
    {
        match self.pop() {
            None => None,
            Some(p) => {
                let mut pkt: Vec<u8> = p;
                std::mem::swap(buf, &mut pkt);
                let n: usize = buf.len();
                self.recycle(pkt);
                Some(n)
            },
        }
    }

    /// Moves packets into the consumer's buffers, in order, as many as there
    /// are of both, and says how many. Only an empty queue is an error.
    pub fn pop_batch(&mut self, pool: &mut Vec<Vec<u8>>) -> (r: Result<usize, RecvError>)
        requires
            old(self)@.wf(),
        ensures
            final(self)@.wf(),
            final(pool)@.len() == old(pool)@.len(),
            ({
                let n = if old(self)@.packets.len() <= old(pool)@.len() {
                    old(self)@.packets.len()
                } else {
                    old(pool)@.len()
                };
                &&& r == (if old(self)@.packets.len() == 0 {
                    Err::<usize, RecvError>(RecvError::WouldBlock)
                } else {
                    Ok::<usize, RecvError>(n as usize)
                })
                &&& forall|i: int| 0 <= i < n ==> (#[trigger] final(pool)@[i])@ == old(self)@.packets[i]
                &&& forall|i: int|
                    n <= i < old(pool)@.len() ==> final(pool)@[i] == (#[trigger] old(pool)@[i])
                &&& final(self)@ == batch_popped(
                    old(self)@,
                    crate::wire::byte_rows(old(pool)@),
                    n,
                )
            }),
    {
        let ghost q0 = self@;
        let ghost pool0 = pool@;
        let ghost rows0 = crate::wire::byte_rows(pool@);
        if self.packets.len() == 0 {
            return Err(RecvError::WouldBlock);
        }
        let mut n: usize = 0;
        while n < pool.len()
            invariant
                n <= pool@.len(),
                n <= q0.packets.len(),
                pool@.len() == pool0.len(),
                rows0 == crate::wire::byte_rows(pool0),
                self@.wf(),
                self@ == batch_popped(q0, rows0, n as nat),
                self@.packets == q0.packets.skip(n as int),
                forall|i: int| 0 <= i < n ==> (#[trigger] pool@[i])@ == q0.packets[i],
                forall|i: int| n <= i < pool0.len() ==> pool@[i] == (#[trigger] pool0[i]),
            ensures
                n <= pool@.len(),
                n == pool@.len() || n == q0.packets.len(),
            decreases pool@.len() - n,
        {
            match self.pop() {
                None => {
                    break;
                },
                Some(p) => {
                    let mut pkt: Vec<u8> = p;
                    assert(pool@[n as int] == pool0[n as int]);
                    std::mem::swap(&mut pool[n], &mut pkt);
                    self.recycle(pkt);
                    n = n + 1;
                },
            }
        }
        Ok(n)
    }

    /// Whether the queue has been closed.
    pub fn is_closed(&self) -> (b: bool)
        ensures
            b == self@.closed,
    {
        self.closed
    }

    /// Closes the queue. What is in it can still be taken out.
    pub fn mark_closed(&mut self)
        ensures
            final(self)@ == (PeerQueueState { closed: true, ..old(self)@ }),
    {
        self.closed = true;
    }

    /// How many packets were dropped.
    pub fn drops(&self) -> (n: u64)
        ensures
            n == self@.drops,
    {
        self.drops
    }

    /// How many buffers are kept for reuse.
    pub fn spare_len(&self) -> (n: usize)
        ensures
            n == self@.spare.len(),
    {
        self.spare.len()
    }

    /// Receives the next packet into `buf`, cut to its length; waiting is the
    /// caller's part.
    pub fn recv_step(&mut self, buf: &mut [u8]) -> (s: RecvStep)
        requires
            old(self)@.wf(),
        ensures
            final(self)@.wf(),
            old(self)@.packets.len() > 0 ==> {
                let p = old(self)@.packets[0];
                &&& final(buf)@ == crate::wire::overlaid(old(buf)@, p)
                &&& s == RecvStep::Ready(
                    if p.len() <= old(buf)@.len() {
                        p.len() as usize
                    } else {
                        old(buf)@.len() as usize
                    },
                )
                &&& final(self)@ == old(self)@.popped()
            },
            old(self)@.packets.len() == 0 ==> {
                &&& final(buf)@ == old(buf)@
                &&& final(self)@ == old(self)@
                &&& s == (if old(self)@.closed {
                    RecvStep::Closed
                } else {
                    RecvStep::Wait
                })
            },
    {
        match self.pop() {
            Some(pkt) => {
                let n: usize = copy_prefix(pkt.as_slice(), buf);
                RecvStep::Ready(n)
            },
            None => if self.closed {
                RecvStep::Closed
            } else {
                RecvStep::Wait
            },
        }
    }

    /// Receives the next packet by exchanging buffers.
    pub fn recv_vec_step(&mut self, buf: &mut Vec<u8>) -> (s: RecvStep)
        requires
            old(self)@.wf(),
        ensures
            final(self)@.wf(),
            old(self)@.packets.len() > 0 ==> {
                &&& final(buf)@ == old(self)@.packets[0]
                &&& s == RecvStep::Ready(final(buf)@.len() as usize)
                &&& final(self)@ == old(self)@.popped().recycled(old(buf)@)
            },
            old(self)@.packets.len() == 0 ==> {
                &&& final(buf)@ == old(buf)@
                &&& final(self)@ == old(self)@
                &&& s == (if old(self)@.closed {
                    RecvStep::Closed
                } else {
                    RecvStep::Wait
                })
            },
    {
        match self.pop_into(buf) {
            Some(n) => RecvStep::Ready(n),
            None => if self.closed {
                RecvStep::Closed
            } else {
                RecvStep::Wait
            },
        }
    }
}

/// A queue after `n` packets were exchanged for the first `n` buffers of a
/// pool.
pub open spec fn batch_popped(q: PeerQueueState, pool: Seq<Seq<u8>>, n: nat) -> PeerQueueState
    decreases n,
{
    if n == 0 {
        q
    } else {
        batch_popped(q, pool, (n - 1) as nat).popped().recycled(pool[n - 1])
    }
}

/// The packets of a queue with bound `max` after `p` was offered to it.
pub open spec fn offered(packets: Seq<Seq<u8>>, max: nat, p: Seq<u8>) -> Seq<Seq<u8>> {
    if max > 0 && packets.len() >= max {
        packets
    } else {
        packets.push(p)
    }
}

/// The packets after all of `ps` were offered, one after the other.
pub open spec fn offered_all(packets: Seq<Seq<u8>>, max: nat, ps: Seq<Seq<u8>>) -> Seq<Seq<u8>>
    decreases ps.len(),
{
    if ps.len() == 0 {
        packets
    } else {
        offered(offered_all(packets, max, ps.drop_last()), max, ps.last())
    }
}

/// A full queue keeps what came first: of the packets offered to an empty queue
/// it holds the first ones, in the order in which they came, as many as the
/// bound allows.
pub proof fn law_first_packets_stay(max: nat, ps: Seq<Seq<u8>>)
    ensures
        offered_all(Seq::empty(), max, ps) == (if max > 0 && ps.len() > max {
            ps.take(max as int)
        } else {
            ps
        }),
    decreases ps.len(),
{
    if ps.len() > 0 {
        law_first_packets_stay(max, ps.drop_last());
        let before = offered_all(Seq::empty(), max, ps.drop_last());
        if max > 0 && ps.len() > max {
            assert(ps.drop_last().take(max as int) =~= ps.take(max as int));
            assert(ps.drop_last().len() == max ==> ps.drop_last() =~= ps.take(max as int));
        } else {
            assert(ps.drop_last().push(ps.last()) =~= ps);
        }
    } else {
        assert(ps =~= Seq::<Seq<u8>>::empty());
    }
}

} // verus!
