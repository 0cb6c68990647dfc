//! The buffers of a connection: packets on their way out, and messages that
//! have come in and were not read yet.

use crate::wire::{copy_at, copy_prefix};
use bytes::Bytes;
use std::collections::VecDeque;
use vstd::prelude::*;

verus! {

/// `bytes::Bytes`: bytes that are shared and do not change. What is known of a
/// value is its [`contents`].
#[verifier::external_type_specification]
#[verifier::external_body]
pub struct ExBytes(bytes::Bytes);

/// The bytes that a `Bytes` holds.
pub uninterp spec fn contents(b: Bytes) -> Seq<u8>;

/// `Bytes::len` is the number of bytes held.
#[verifier::external_body]
pub(crate) fn bytes_len(b: &Bytes) -> (n: usize)
    ensures
        n == contents(*b).len(),
{
    b.len()
}

/// `Bytes::as_ref` is the slice of what is held.
#[verifier::external_body]
pub(crate) fn bytes_as_slice(b: &Bytes) -> (s: &[u8])
    ensures
        s@ == contents(*b),
{
    b.as_ref()
}

/// `Bytes::slice` of the range that begins at `at`: what is held from there on.
/// It panics where `at` lies behind the end.
#[verifier::external_body]
pub(crate) fn bytes_slice_from(b: &Bytes, at: usize) -> (r: Bytes)
    requires
        at <= contents(*b).len(),
    ensures
        contents(r) == contents(*b).skip(at as int),
{
    b.slice(at..)
}

/// `Vec::capacity`: how many items fit without allocating again. It is no less
/// than the length, and otherwise the allocator's choice.
#[verifier::external_body]
fn batch_capacity(v: &Vec<Bytes>) -> (n: usize)
    ensures
        n >= v@.len(),
{
    v.capacity()
}

/// The contents of a list of `Bytes`.
pub open spec fn all_contents(s: Seq<Bytes>) -> Seq<Seq<u8>> {
    Seq::new(s.len(), |i: int| contents(s[i]))
}

/// Packet slots that are kept for the next burst.
pub const MAX_RETAINED_RAW_BATCH: usize = 256;

/// Packets that were produced and wait to be sent. The sender takes all of them
/// at once, and gives the emptied storage back.
pub struct RawPacketQueue {
    pending: Vec<Bytes>,
    spare: Vec<Bytes>,
    spare_slots: usize,
}

/// The packet slots that are kept for the next burst, where `slots` are kept and
/// the storage of a batch with `capacity` slots comes back.
pub open spec fn slots_kept(slots: usize, capacity: usize) -> usize {
    if capacity <= MAX_RETAINED_RAW_BATCH {
        capacity
    } else {
        slots
    }
}

impl RawPacketQueue {
    /// The packets, in the order in which they were produced.
    pub closed spec fn packets(&self) -> Seq<Seq<u8>> {
        all_contents(self.pending@)
    }

    /// The packet slots of the storage that is kept for the next burst.
    pub closed spec fn spare_slots(&self) -> usize {
        self.spare_slots
    }

    /// The storage kept for the next burst is empty, and not very large.
    pub closed spec fn wf(&self) -> bool {
        self.spare@.len() == 0 && self.spare_slots <= MAX_RETAINED_RAW_BATCH
    }

    /// An empty queue.
    pub fn new() -> (q: Self)
        ensures
            q.wf(),
            q.packets() == Seq::<Seq<u8>>::empty(),
            q.spare_slots() == 0,
    {
        let q = RawPacketQueue { pending: Vec::new(), spare: Vec::new(), spare_slots: 0 };
        assert(q.packets() =~= Seq::<Seq<u8>>::empty());
        q
    }

    /// Adds a packet.
    pub fn push(&mut self, data: Bytes)
        requires
            old(self).wf(),
        ensures
            final(self).wf(),
            final(self).packets() == old(self).packets().push(contents(data)),
            final(self).spare_slots() == old(self).spare_slots(),
    {
        let ghost before = self.pending@;
        self.pending.push(data);
        assert(all_contents(self.pending@) =~= all_contents(before).push(contents(data)));
    }

    /// Whether there is nothing to send.
    pub fn is_empty(&self) -> (b: bool)
        ensures
            b == (self.packets().len() == 0),
    {
        self.pending.is_empty()
    }

    /// Takes all packets out; the storage kept from the last burst takes the
    /// next ones.
    pub fn drain(&mut self) -> (batch: Vec<Bytes>)
        requires
            old(self).wf(),
        ensures
            final(self).wf(),
            final(self).packets() == Seq::<Seq<u8>>::empty(),
            all_contents(batch@) == old(self).packets(),
            final(self).spare_slots() == 0,
    {
        let mut batch: Vec<Bytes> = Vec::new();
        std::mem::swap(&mut self.pending, &mut self.spare);
        std::mem::swap(&mut self.spare, &mut batch);
        self.spare_slots = 0;
        assert(all_contents(self.pending@) =~= Seq::<Seq<u8>>::empty());
        batch
    }

    /// Takes the storage of a batch that was sent back, unless it is very large.
    /// How large it is, the allocator has decided; of a batch of so many packets
    /// it is at least as large as that. See [`RawPacketQueue::take_back`].
    pub fn recycle(&mut self, batch: Vec<Bytes>)
        requires
            old(self).wf(),
        ensures
            final(self).wf(),
            final(self).packets() == old(self).packets(),
            exists|capacity: usize|
                capacity >= batch@.len() && final(self).spare_slots() == #[trigger] slots_kept(
                    old(self).spare_slots(),
                    capacity,
                ),
            batch@.len() > MAX_RETAINED_RAW_BATCH ==> final(self).spare_slots() == old(
                self,
            ).spare_slots(),
            final(self).spare_slots() <= MAX_RETAINED_RAW_BATCH,
    {
        let capacity: usize = batch_capacity(&batch);
        self.take_back(batch, capacity);
    }

    /// Takes the storage of a batch back, which has `capacity` packet slots,
    /// unless these are too many.
    pub fn take_back(&mut self, batch: Vec<Bytes>, capacity: usize)
        requires
            old(self).wf(),
        ensures
            final(self).wf(),
            final(self).packets() == old(self).packets(),
            final(self).spare_slots() == slots_kept(old(self).spare_slots(), capacity),
            final(self).spare_slots() <= MAX_RETAINED_RAW_BATCH,
    {
        if capacity <= MAX_RETAINED_RAW_BATCH {
            let mut batch: Vec<Bytes> = batch;
            batch.clear();
            self.spare = batch;
            self.spare_slots = capacity;
        }
    }

    /// How many packets fit the storage kept for the next burst, as it was when
    /// the storage came back.
    pub fn spare_capacity(&self) -> (n: usize)
        ensures
            n == self.spare_slots(),
    {
        self.spare_slots
    }

    /// How many packets fit the storage that takes packets now.
    pub fn pending_capacity(&self) -> (n: usize)
        ensures
            n >= self.packets().len(),
    {
        batch_capacity(&self.pending)
    }
}

/// Bytes that are moved ahead of being read.
pub const READ_PREFETCH_MAX_BYTES: usize = 32768;

/// Messages that are moved ahead of being read.
pub const READ_PREFETCH_MAX_MESSAGES: usize = 32;

/// All bytes of a list of messages, one after the other.
pub open spec fn flat(messages: Seq<Seq<u8>>) -> Seq<u8>
    decreases messages.len(),
{
    if messages.len() == 0 {
        Seq::empty()
    } else {
        messages[0] + flat(messages.skip(1))
    }
}

/// A list of messages is that of its first and of the others.
pub proof fn lemma_flat_concat(a: Seq<Seq<u8>>, b: Seq<Seq<u8>>)
    ensures
        flat(a + b) == flat(a) + flat(b),
    decreases a.len(),
{
    if a.len() == 0 {
        assert(a + b =~= b);
        assert(flat(a) + flat(b) =~= flat(b));
    } else {
        lemma_flat_concat(a.skip(1), b);
        assert((a + b).skip(1) =~= a.skip(1) + b);
        assert(a[0] + (flat(a.skip(1)) + flat(b)) =~= (a[0] + flat(a.skip(1))) + flat(b));
    }
}

/// A message at the end.
pub proof fn lemma_flat_push(a: Seq<Seq<u8>>, m: Seq<u8>)
    ensures
        flat(a.push(m)) == flat(a) + m,
{
    lemma_flat_concat(a, seq![m]);
    assert(a.push(m) =~= a + seq![m]);
    assert(seq![m].skip(1) =~= Seq::<Seq<u8>>::empty());
    reveal_with_fuel(flat, 2);
    assert(flat(seq![m]) =~= m);
}

/// Messages that have come in and were not read yet, with their bytes counted.
pub struct ReadBuffer {
    queue: VecDeque<Bytes>,
    bytes: usize,
}

impl ReadBuffer {
    /// The messages, in order.
    pub closed spec fn messages(&self) -> Seq<Seq<u8>> {
        all_contents(self.queue@)
    }

    /// The count of bytes is right.
    pub closed spec fn wf(&self) -> bool {
        self.bytes == flat(self.messages()).len()
    }

    /// An empty buffer.
    pub fn new() -> (b: Self)
        ensures
            b.wf(),
            b.messages() == Seq::<Seq<u8>>::empty(),
    {
        let b = ReadBuffer { queue: VecDeque::new(), bytes: 0 };
        assert(b.messages() =~= Seq::<Seq<u8>>::empty());
        b
    }

    /// Whether there is no message.
    pub fn is_empty(&self) -> (b: bool)
        ensures
            b == (self.messages().len() == 0),
    {
        self.queue.len() == 0
    }

    /// How many messages there are.
    pub fn len(&self) -> (n: usize)
        ensures
            n == self.messages().len(),
    {
        self.queue.len()
    }

    /// How many bytes they hold together.
    pub fn bytes(&self) -> (n: usize)
        requires
            self.wf(),
        ensures
            n == flat(self.messages()).len(),
    {
        self.bytes
    }

    /// Takes the first message out.
    pub fn pop_front(&mut self) -> (r: Option<Bytes>)
        requires
            old(self).wf(),
        ensures
            final(self).wf(),
            match r {
                Some(m) => {
                    &&& old(self).messages().len() > 0
                    &&& contents(m) == old(self).messages()[0]
                    &&& final(self).messages() == old(self).messages().skip(1)
                },
                None => {
                    &&& old(self).messages().len() == 0
                    &&& final(self).messages() == old(self).messages()
                },
            },
    {
        let ghost before = self.messages();
        let ghost queue0 = self.queue@;
        match self.queue.pop_front() {
            None => None,
            Some(m) => {
                assert(all_contents(self.queue@) =~= all_contents(queue0).skip(1));
                assert(flat(before).len() == before[0].len() + flat(before.skip(1)).len());
                self.bytes = self.bytes - bytes_len(&m);
                Some(m)
            },
        }
    }

    /// Puts a message before all others.
    pub fn push_front(&mut self, data: Bytes)
        requires
            old(self).wf(),
            flat(old(self).messages()).len() + contents(data).len() <= usize::MAX,
        ensures
            final(self).wf(),
            final(self).messages() == seq![contents(data)] + old(self).messages(),
    {
        let ghost before = self.messages();
        let ghost queue0 = self.queue@;
        self.bytes = self.bytes + bytes_len(&data);
        self.queue.push_front(data);
        proof {
            let all = seq![contents(data)] + before;
            assert(all_contents(self.queue@) =~= all);
            assert(all.skip(1) =~= before);
            assert(all[0] == contents(data));
        }
    }

    /// Puts a message behind all others.
    pub fn push_back(&mut self, data: Bytes)
        requires
            old(self).wf(),
            flat(old(self).messages()).len() + contents(data).len() <= usize::MAX,
        ensures
            final(self).wf(),
            final(self).messages() == old(self).messages().push(contents(data)),
    {
        let ghost before = self.messages();
        let ghost queue0 = self.queue@;
        self.bytes = self.bytes + bytes_len(&data);
        self.queue.push_back(data);
        proof {
            assert(all_contents(self.queue@) =~= before.push(contents(data)));
            lemma_flat_push(before, contents(data));
        }
    }

    /// Puts messages behind all others, in order.
    pub fn extend(&mut self, data: Vec<Bytes>)
        requires
            old(self).wf(),
            flat(old(self).messages()).len() + flat(all_contents(data@)).len() <= usize::MAX,
        ensures
            final(self).wf(),
            final(self).messages() == old(self).messages() + all_contents(data@),
    {
        let ghost before = self.messages();
        let ghost all = all_contents(data@);
        let mut data: VecDeque<Bytes> = vec_to_deque(data);
        let ghost mut k: int = 0;
        assert(all.skip(0) =~= all);
        assert(before + all.take(0) =~= before);
        loop
            invariant
                0 <= k <= all.len(),
                all_contents(data@) == all.skip(k),
                self.wf(),
                self.messages() == before + all.take(k),
                flat(before).len() + flat(all).len() <= usize::MAX,
            ensures
                k == all.len(),
                self.wf(),
                self.messages() == before + all.take(k),
            decreases all.len() - k,
        {
            let ghost data0 = data@;
            match data.pop_front() {
                None => {
                    assert(all_contents(data0).len() == 0);
                    break;
                },
                Some(m) => {
                    proof {
                        assert(contents(m) == all_contents(data0)[0]);
                        assert(contents(m) == all[k]);
                        assert(all_contents(data@) =~= all_contents(data0).skip(1));
                        assert(all.skip(k).skip(1) =~= all.skip(k + 1));
                        assert(all.take(k) + all.skip(k) =~= all);
                        lemma_flat_concat(before, all.take(k));
                        lemma_flat_concat(all.take(k), all.skip(k));
                        assert(flat(all.skip(k)).len() >= all.skip(k)[0].len());
                    }
                    self.push_back(m);
                    assert((before + all.take(k)).push(contents(m)) =~= before + all.take(k + 1));
                    proof {
                        k = k + 1;
                    }
                },
            }
        }
        assert(all.take(k) =~= all);
    }

    /// Drops all messages.
    pub fn clear(&mut self)
        ensures
            final(self).wf(),
            final(self).messages() == Seq::<Seq<u8>>::empty(),
    {
        self.queue.clear();
        self.bytes = 0;
        assert(self.messages() =~= Seq::<Seq<u8>>::empty());
    }

    /// Copies from the first message without taking it out.
    pub fn peek(&self, buf: &mut [u8]) -> (r: Option<usize>)
        ensures
            self.messages().len() == 0 ==> r is None && final(buf)@ == old(buf)@,
            self.messages().len() > 0 ==> {
                let m = self.messages()[0];
                &&& final(buf)@ == crate::wire::overlaid(old(buf)@, m)
                &&& r == Some(
                    if m.len() <= old(buf)@.len() {
                        m.len() as usize
                    } else {
                        old(buf)@.len() as usize
                    },
                )
            },
    {
        if self.queue.len() == 0 {
            return None;
        }
        let m: &Bytes = &self.queue[0];
        assert(contents(*m) == self.messages()[0]);
        Some(copy_prefix(bytes_as_slice(m), buf))
    }
}

/// A list as a queue, in the same order.
fn vec_to_deque(v: Vec<Bytes>) -> (d: VecDeque<Bytes>)
    ensures
        d@ == v@,
{
    let ghost all = v@;
    let mut v: Vec<Bytes> = v;
    let mut d: VecDeque<Bytes> = VecDeque::new();
    while v.len() > 0
        invariant
            v@ + d@ == all,
        decreases v@.len(),
    {
        let ghost v0 = v@;
        let ghost d0 = d@;
        if let Some(b) = v.pop() {
            d.push_front(b);
            assert(v@ + d@ =~= v0 + d0);
        }
    }
    assert(v@ + d@ =~= d@);
    d
}

/// The smaller of two numbers.
pub open spec fn least(a: nat, b: nat) -> nat {
    if a <= b {
        a
    } else {
        b
    }
}

/// The bytes of the messages before the first that is empty, at which a read
/// ends.
pub open spec fn readable(messages: Seq<Seq<u8>>) -> nat
    decreases messages.len(),
{
    if messages.len() == 0 || messages[0].len() == 0 {
        0
    } else {
        messages[0].len() + readable(messages.skip(1))
    }
}

/// How many messages a read with room for `room` bytes takes out. The last of
/// them may not fit, or be empty: an empty message that is reached goes too.
pub open spec fn taken(messages: Seq<Seq<u8>>, room: nat) -> nat
    decreases messages.len(),
{
    if messages.len() == 0 || room == 0 {
        0
    } else if messages[0].len() == 0 || messages[0].len() >= room {
        1
    } else {
        1 + taken(messages.skip(1), (room - messages[0].len()) as nat)
    }
}

/// What a read with room for `room` bytes leaves of the last message that it
/// takes out: its rest where it does not fit, nothing otherwise.
pub open spec fn cut_rest(messages: Seq<Seq<u8>>, room: nat) -> Seq<Seq<u8>>
    decreases messages.len(),
{
    if messages.len() == 0 || messages[0].len() == 0 || room == 0 {
        Seq::empty()
    } else if messages[0].len() > room {
        seq![messages[0].skip(room as int)]
    } else {
        cut_rest(messages.skip(1), (room - messages[0].len()) as nat)
    }
}

/// The messages that are left once `room` bytes were read from their front.
pub open spec fn unread(messages: Seq<Seq<u8>>, room: nat) -> Seq<Seq<u8>>
    decreases messages.len(),
{
    if messages.len() == 0 || room == 0 {
        messages
    } else if messages[0].len() > room {
        seq![messages[0].skip(room as int)] + messages.skip(1)
    } else {
        unread(messages.skip(1), (room - messages[0].len()) as nat)
    }
}

/// What a read into a buffer comes to, where the messages `ahead` were moved
/// ahead and `queue` are complete in the protocol: the `n` bytes read are the
/// front of all of them, as many as there is room for before an empty message of
/// the protocol; what is left of a message that did not fit goes before all
/// others; and the protocol's queue was read from where more was read than was
/// moved ahead.
pub open spec fn read_effect(
    ahead: Seq<Seq<u8>>,
    queue: Seq<Seq<u8>>,
    buf: Seq<u8>,
    ahead_after: Seq<Seq<u8>>,
    queue_after: Seq<Seq<u8>>,
    buf_after: Seq<u8>,
    n: int,
    from_queue: bool,
) -> bool {
    let room = (buf.len() - least(flat(ahead).len(), buf.len())) as nat;
    &&& n == least(flat(ahead).len() + readable(queue), buf.len())
    &&& buf_after == (flat(ahead) + flat(queue)).take(n) + buf.skip(n)
    &&& ahead_after == unread(ahead, buf.len()) + cut_rest(queue, room)
    &&& queue_after == queue.skip(taken(queue, room) as int)
    &&& from_queue == (n > flat(ahead).len())
}

proof fn lemma_unread(messages: Seq<Seq<u8>>, room: nat)
    ensures
        flat(unread(messages, room)) == flat(messages).skip(
            least(room, flat(messages).len()) as int,
        ),
    decreases messages.len(),
{
    let all = flat(messages);
    if messages.len() == 0 || room == 0 {
        assert(all.skip(0) =~= all);
    } else if messages[0].len() > room {
        let left = seq![messages[0].skip(room as int)] + messages.skip(1);
        assert(left.skip(1) =~= messages.skip(1));
        assert(flat(left) =~= all.skip(room as int));
    } else {
        let rest = (room - messages[0].len()) as nat;
        lemma_unread(messages.skip(1), rest);
        let later = flat(messages.skip(1));
        assert(all.skip(least(room, all.len()) as int) =~= later.skip(
            least(rest, later.len()) as int,
        ));
    }
}

proof fn lemma_cut_rest(messages: Seq<Seq<u8>>, room: nat)
    ensures
        readable(messages) <= flat(messages).len(),
        taken(messages, room) <= messages.len(),
        flat(cut_rest(messages, room)) + flat(messages.skip(taken(messages, room) as int)) == flat(
            messages,
        ).skip(least(room, readable(messages)) as int),
    decreases messages.len(),
{
    let all = flat(messages);
    let k = taken(messages, room) as int;
    if messages.len() == 0 || room == 0 {
        if messages.len() > 0 {
            lemma_cut_rest(messages.skip(1), 0);
        }
        assert(messages.skip(0) =~= messages);
        assert(all.skip(0) =~= all);
        assert(Seq::<u8>::empty() + all =~= all);
    } else {
        let later = flat(messages.skip(1));
        assert(all == messages[0] + later);
        lemma_cut_rest(messages.skip(1), 0);
        if messages[0].len() == 0 {
            assert(Seq::<u8>::empty() + later =~= all.skip(0));
        } else if messages[0].len() >= room {
            if messages[0].len() > room {
                let cut = seq![messages[0].skip(room as int)];
                assert(cut.skip(1) =~= Seq::<Seq<u8>>::empty());
                reveal_with_fuel(flat, 2);
                assert(flat(cut) =~= messages[0].skip(room as int));
            } else {
                assert(cut_rest(messages, room) =~= Seq::<Seq<u8>>::empty());
            }
            assert(flat(cut_rest(messages, room)) + later =~= all.skip(room as int));
        } else {
            let rest = (room - messages[0].len()) as nat;
            lemma_cut_rest(messages.skip(1), rest);
            assert(messages.skip(1).skip(k - 1) =~= messages.skip(k));
            assert(all.skip(least(room, readable(messages)) as int) =~= later.skip(
                least(rest, readable(messages.skip(1))) as int,
            ));
        }
    }
}

/// Nothing is lost or changed by a read: what it leaves, in order, is what there
/// was without the bytes that it read, and it reads no more than there is room
/// for.
pub proof fn law_read_leaves_the_rest(
    ahead: Seq<Seq<u8>>,
    queue: Seq<Seq<u8>>,
    buf: Seq<u8>,
    ahead_after: Seq<Seq<u8>>,
    queue_after: Seq<Seq<u8>>,
    buf_after: Seq<u8>,
    n: int,
    from_queue: bool,
)
    requires
        read_effect(ahead, queue, buf, ahead_after, queue_after, buf_after, n, from_queue),
    ensures
        0 <= n <= buf.len(),
        n <= (flat(ahead) + flat(queue)).len(),
        buf_after.take(n) == (flat(ahead) + flat(queue)).take(n),
        buf_after.skip(n) == buf.skip(n),
        flat(ahead_after) + flat(queue_after) == (flat(ahead) + flat(queue)).skip(n),
{
    let room = (buf.len() - least(flat(ahead).len(), buf.len())) as nat;
    let stream = flat(ahead) + flat(queue);
    lemma_unread(ahead, buf.len());
    lemma_cut_rest(queue, room);
    lemma_flat_concat(unread(ahead, buf.len()), cut_rest(queue, room));
    let first = flat(ahead).skip(least(buf.len(), flat(ahead).len()) as int);
    let second = flat(queue).skip(least(room, readable(queue)) as int);
    assert(flat(ahead_after) + flat(queue_after) =~= first + second);
    assert(first + second =~= stream.skip(n));
    assert(buf_after.take(n) =~= stream.take(n));
    assert(buf_after.skip(n) =~= buf.skip(n));
}

/// Copies the front of `m`, as much as fits, behind the first `filled` bytes of
/// `out`; says how much.
fn copy_message(out: &mut [u8], filled: usize, m: &Bytes) -> (n: usize)
    requires
        filled <= old(out)@.len(),
    ensures
        n == (if contents(*m).len() <= old(out)@.len() - filled {
            contents(*m).len() as int
        } else {
            old(out)@.len() - filled
        }),
        final(out)@ == old(out)@.take(filled as int) + contents(*m).take(n as int) + old(
            out,
        )@.skip(filled + n),
{
    let len: usize = bytes_len(m);
    let n: usize = if len <= out.len() - filled {
        len
    } else {
        out.len() - filled
    };
    copy_at(out, filled, bytes_as_slice(m), n);
    n
}

/// Reads what is there: first the messages that were moved ahead, then those
/// that are complete in the protocol's queue. A message that does not fit is
/// read in part, and its rest goes before all others; an empty message of the
/// protocol is dropped and ends the read. Returns how many bytes were read, and
/// whether the protocol's queue was read from.
pub fn read_available(rb: &mut ReadBuffer, kcp: &mut VecDeque<Bytes>, out: &mut [u8]) -> (r: (
    usize,
    bool,
))
    requires
        old(rb).wf(),
    ensures
        final(rb).wf(),
        read_effect(
            old(rb).messages(),
            all_contents(old(kcp)@),
            old(out)@,
            final(rb).messages(),
            all_contents(final(kcp)@),
            final(out)@,
            r.0 as int,
            r.1,
        ),
{
    let ghost rb0 = rb.messages();
    let ghost ms0 = all_contents(kcp@);
    let ghost ahead = flat(rb0).len();
    let ghost stream = flat(rb0) + flat(ms0);
    let ghost out0 = out@;
    let ghost kcp0 = kcp@;
    let len: usize = out.len();
    let mut filled: usize = 0;
    let mut consumed: bool = false;
    let mut going: bool = true;
    assert(out@ =~= stream.take(0) + out0.skip(0));
    assert(stream.skip(0) =~= stream);
    while going && filled < len
        invariant
            len == out0.len(),
            out@.len() == len,
            filled <= len,
            filled <= stream.len(),
            rb.wf(),
            kcp@ == kcp0,
            ms0 == all_contents(kcp0),
            stream == flat(rb0) + flat(ms0),
            out@ == stream.take(filled as int) + out0.skip(filled as int),
            flat(rb.messages()) + flat(ms0) == stream.skip(filled as int),
            unread(rb.messages(), (len - filled) as nat) == unread(rb0, len as nat),
            !going ==> rb.messages().len() == 0 || filled == len,
        decreases (if going { 1nat } else { 0nat }), rb.messages().len(),
    {
        let ghost ms = rb.messages();
        match rb.pop_front() {
            None => {
                going = false;
            },
            Some(m) => {
                let ghost whole = contents(m);
                let n: usize = copy_message(out, filled, &m);
                proof {
                    let later = flat(ms.skip(1)) + flat(ms0);
                    assert(flat(ms) + flat(ms0) =~= whole + later);
                    lemma_take_more(stream, out0, whole, later, filled as int, n as int);
                }
                let full: usize = bytes_len(&m);
                if n < full {
                    let rest: Bytes = bytes_slice_from(&m, n);
                    proof {
                        assert(flat(ms).len() == whole.len() + flat(ms.skip(1)).len());
                    }
                    rb.push_front(rest);
                    proof {
                        let now = seq![whole.skip(n as int)] + ms.skip(1);
                        assert(now.skip(1) =~= ms.skip(1));
                        assert(flat(now) == whole.skip(n as int) + flat(ms.skip(1)));
                        assert(flat(now) + flat(ms0) =~= whole.skip(n as int) + (flat(ms.skip(1))
                            + flat(ms0)));
                    }
                    going = false;
                } else {
                    assert(whole.skip(n as int) =~= Seq::<u8>::empty());
                    assert(whole.skip(n as int) + (flat(ms.skip(1)) + flat(ms0)) =~= flat(
                        ms.skip(1),
                    ) + flat(ms0));
                }
                filled = filled + n;
            },
        }
    }
    proof {
        lemma_unread(rb0, len as nat);
        lemma_cut_rest(ms0, 0);
        assert(flat(rb.messages()).len() + flat(ms0).len() == stream.len() - filled);
    }
    if filled >= len {
        proof {
            assert(rb.messages() =~= unread(rb0, len as nat));
            assert(ms0.skip(0) =~= ms0);
            assert(unread(rb0, len as nat) + Seq::<Seq<u8>>::empty() =~= unread(rb0, len as nat));
        }
        return (filled, false);
    }
    assert(rb.messages() =~= Seq::<Seq<u8>>::empty());
    assert(flat(rb.messages()) + flat(ms0) =~= flat(ms0));
    assert(filled == ahead);
    let ghost room = (len - filled) as nat;
    let ghost mut j: int = 0;
    assert(ms0.skip(0) =~= ms0);
    going = true;
    while going && filled < len
        invariant
            len == out0.len(),
            out@.len() == len,
            ahead <= filled <= len,
            filled <= stream.len(),
            rb.wf(),
            out@ == stream.take(filled as int) + out0.skip(filled as int),
            flat(rb.messages()) + flat(all_contents(kcp@)) == stream.skip(filled as int),
            0 <= j <= ms0.len(),
            all_contents(kcp@) == ms0.skip(j),
            consumed == (filled > ahead),
            room == len - ahead,
            going ==> {
                &&& rb.messages() == Seq::<Seq<u8>>::empty()
                &&& filled - ahead + readable(ms0.skip(j)) == readable(ms0)
                &&& taken(ms0, room) == j + taken(ms0.skip(j), (len - filled) as nat)
                &&& cut_rest(ms0, room) == cut_rest(ms0.skip(j), (len - filled) as nat)
            },
            !going ==> {
                &&& filled == least(ahead + readable(ms0), len as nat)
                &&& taken(ms0, room) == j
                &&& cut_rest(ms0, room) == rb.messages()
            },
        decreases (if going { 1nat } else { 0nat }), kcp@.len(),
    {
        let ghost ks = ms0.skip(j);
        let ghost k0 = kcp@;
        match kcp.pop_front() {
            None => {
                assert(ks.len() == 0);
                going = false;
            },
            Some(m) => {
                let ghost whole = contents(m);
                proof {
                    assert(all_contents(k0)[0] == whole);
                    assert(ks[0] == whole);
                    assert(all_contents(kcp@) =~= ks.skip(1));
                    assert(ks.skip(1) =~= ms0.skip(j + 1));
                    assert(flat(rb.messages()) + flat(ks) =~= whole + flat(ks.skip(1)));
                    j = j + 1;
                }
                let full: usize = bytes_len(&m);
                if full == 0 {
                    assert(whole + flat(ks.skip(1)) =~= flat(ks.skip(1)));
                    assert(flat(rb.messages()) + flat(ks.skip(1)) =~= flat(ks.skip(1)));
                    going = false;
                } else {
                    consumed = true;
                    let n: usize = copy_message(out, filled, &m);
                    proof {
                        lemma_take_more(
                            stream,
                            out0,
                            whole,
                            flat(ks.skip(1)),
                            filled as int,
                            n as int,
                        );
                    }
                    if n < full {
                        let rest: Bytes = bytes_slice_from(&m, n);
                        rb.push_front(rest);
                        proof {
                            let now = seq![whole.skip(n as int)] + Seq::<Seq<u8>>::empty();
                            assert(rb.messages() =~= now);
                            assert(now.skip(1) =~= Seq::<Seq<u8>>::empty());
                            reveal_with_fuel(flat, 2);
                            assert(flat(now) =~= whole.skip(n as int));
                            assert(now =~= seq![whole.skip(n as int)]);
                        }
                        going = false;
                    } else {
                        assert(whole.skip(n as int) + flat(ks.skip(1)) =~= flat(ks.skip(1)));
                        assert(flat(rb.messages()) + flat(ks.skip(1)) =~= flat(ks.skip(1)));
                    }
                    filled = filled + n;
                }
            },
        }
    }
    proof {
        assert(unread(rb0, len as nat) =~= Seq::<Seq<u8>>::empty());
        assert(Seq::<Seq<u8>>::empty() + cut_rest(ms0, room) =~= cut_rest(ms0, room));
    }
    (filled, consumed)
}

/// Taking `n` bytes of the message `m` that stands at the front of what is left
/// of a stream.
proof fn lemma_take_more(
    stream: Seq<u8>,
    out0: Seq<u8>,
    m: Seq<u8>,
    later: Seq<u8>,
    filled: int,
    n: int,
)
    requires
        0 <= filled <= stream.len(),
        stream.skip(filled) == m + later,
        0 <= n <= m.len(),
        filled + n <= out0.len(),
    ensures
        filled + n <= stream.len(),
        (stream.take(filled) + out0.skip(filled)).take(filled) + m.take(n) + (stream.take(filled)
            + out0.skip(filled)).skip(filled + n) == stream.take(filled + n) + out0.skip(
            filled + n,
        ),
        stream.skip(filled + n) == m.skip(n) + later,
{
    assert((m + later).len() == stream.len() - filled);
    let out = stream.take(filled) + out0.skip(filled);
    assert(out.take(filled) =~= stream.take(filled));
    assert(out.skip(filled + n) =~= out0.skip(filled + n));
    assert(stream.skip(filled + n) =~= stream.skip(filled).skip(n));
    assert((m + later).skip(n) =~= m.skip(n) + later);
    assert forall|i: int| filled <= i < filled + n implies stream[i] == m[i - filled] by {
        assert(stream.skip(filled)[i - filled] == stream[i]);
        assert((m + later)[i - filled] == m[i - filled]);
    }
    assert(stream.take(filled + n) =~= stream.take(filled) + m.take(n));
}

} // verus!
