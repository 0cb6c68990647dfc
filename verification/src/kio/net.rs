//! Sockets: sending and receiving batches of datagrams.

use vstd::prelude::*;
use vstd::slice::{slice_subrange, slice_to_vec};

verus! {

/// What came of handing the rest of a batch to the socket.
#[derive(Clone, Copy, Debug, PartialEq, Eq, Structural)]
pub enum BatchEvent {
    /// So many datagrams went out.
    Sent(usize),
    /// The socket takes none at present.
    WouldBlock,
    /// The socket failed.
    Failed,
}

/// What is to be done next for a batch.
#[derive(Clone, Copy, Debug, PartialEq, Eq, Structural)]
pub enum BatchStep {
    /// Hand over the datagrams from this one on.
    SendFrom(usize),
    /// Wait until this datagram alone has been sent.
    SendOne(usize),
    /// All have been sent.
    Done,
    /// The socket failed.
    Fail,
}

/// A batch of datagrams on its way out.
#[derive(Clone, Copy, Debug, PartialEq, Eq, Structural)]
pub struct BatchSend {
    /// How many have been sent.
    pub offset: usize,
    /// How many there are.
    pub total: usize,
}

/// What is to be done where `offset` of `total` datagrams have been sent.
pub open spec fn batch_step(offset: usize, total: usize) -> BatchStep {
    if offset < total {
        BatchStep::SendFrom(offset)
    } else {
        BatchStep::Done
    }
}

impl BatchSend {
    /// A batch of `total` datagrams of which none has been sent.
    pub fn start(total: usize) -> (r: (Self, BatchStep))
        ensures
            r.0 == (BatchSend { offset: 0, total }),
            r.1 == batch_step(0, total),
    {
        let step = if total > 0 {
            BatchStep::SendFrom(0)
        } else {
            BatchStep::Done
        };
        (BatchSend { offset: 0, total }, step)
    }

    /// What follows on handing the rest of the batch over. A socket that took
    /// none is waited for with the first of the rest.
    pub fn tried(&mut self, event: BatchEvent) -> (step: BatchStep)
        requires
            old(self).offset < old(self).total,
            event matches BatchEvent::Sent(n) ==> old(self).offset + n <= old(self).total,
        ensures
            final(self).total == old(self).total,
            final(self).offset == (match event {
                BatchEvent::Sent(n) => (old(self).offset + n) as usize,
                _ => old(self).offset,
            }),
            step == (match event {
                BatchEvent::Sent(n) => if n > 0 {
                    batch_step(final(self).offset, old(self).total)
                } else {
                    BatchStep::SendOne(old(self).offset)
                },
                BatchEvent::WouldBlock => BatchStep::SendOne(old(self).offset),
                BatchEvent::Failed => BatchStep::Fail,
            }),
    {
        match event {
            BatchEvent::Sent(n) => {
                if n == 0 {
                    return BatchStep::SendOne(self.offset);
                }
                self.offset = self.offset + n;
                if self.offset < self.total {
                    BatchStep::SendFrom(self.offset)
                } else {
                    BatchStep::Done
                }
            },
            BatchEvent::WouldBlock => BatchStep::SendOne(self.offset),
            BatchEvent::Failed => BatchStep::Fail,
        }
    }

    /// What follows on waiting until one datagram has been sent.
    pub fn one_done(&mut self, ok: bool) -> (step: BatchStep)
        requires
            old(self).offset < old(self).total,
        ensures
            final(self).total == old(self).total,
            final(self).offset == (if ok {
                (old(self).offset + 1) as usize
            } else {
                old(self).offset
            }),
            step == (if ok {
                batch_step(final(self).offset, old(self).total)
            } else {
                BatchStep::Fail
            }),
    {
        if !ok {
            return BatchStep::Fail;
        }
        self.offset = self.offset + 1;
        if self.offset < self.total {
            BatchStep::SendFrom(self.offset)
        } else {
            BatchStep::Done
        }
    }
}

/// How many datagrams of a batch went out without waiting: a socket that takes
/// none at present is no failure.
pub fn try_send_batch(event: BatchEvent) -> (r: Option<usize>)
    ensures
        r == (match event {
            BatchEvent::Sent(n) => Some(n),
            BatchEvent::WouldBlock => Some(0usize),
            BatchEvent::Failed => None,
        }),
{
    match event {
        BatchEvent::Sent(n) => Some(n),
        BatchEvent::WouldBlock => Some(0),
        BatchEvent::Failed => None,
    }
}

/// The datagrams of a batch whose sender is known, each with its sender, in
/// their order: `lens` holds for each buffer how many bytes came and from whom.
pub open spec fn known_datagrams(bufs: Seq<Seq<u8>>, lens: Seq<(usize, Option<u64>)>) -> Seq<
    (Seq<u8>, u64),
>
    decreases lens.len(),
{
    if lens.len() == 0 {
        Seq::empty()
    } else {
        let before = known_datagrams(bufs, lens.drop_last());
        match lens.last().1 {
            Some(peer) => before.push(
                (bufs[lens.len() - 1].take(lens.last().0 as int), peer),
            ),
            None => before,
        }
    }
}

/// The contents of datagrams with their senders.
pub open spec fn datagram_views(s: Seq<(Vec<u8>, u64)>) -> Seq<(Seq<u8>, u64)> {
    Seq::new(s.len(), |i: int| (s[i].0@, s[i].1))
}

/// The datagrams that were received into `bufs`: see [`known_datagrams`].
pub fn received_batch(bufs: &Vec<Vec<u8>>, lens: &Vec<(usize, Option<u64>)>) -> (out: Vec<
    (Vec<u8>, u64),
>)
    requires
        lens@.len() <= bufs@.len(),
        forall|i: int| 0 <= i < lens@.len() ==> (#[trigger] lens@[i]).0 <= bufs@[i]@.len(),
    ensures
        datagram_views(out@) == known_datagrams(crate::wire::byte_rows(bufs@), lens@),
{
    let ghost rows = crate::wire::byte_rows(bufs@);
    let mut out: Vec<(Vec<u8>, u64)> = Vec::new();
    let mut i: usize = 0;
    assert(datagram_views(out@) =~= known_datagrams(rows, lens@.take(0)));
    while i < lens.len()
        invariant
            i <= lens@.len() <= bufs@.len(),
            rows == crate::wire::byte_rows(bufs@),
            forall|i: int| 0 <= i < lens@.len() ==> (#[trigger] lens@[i]).0 <= bufs@[i]@.len(),
            datagram_views(out@) == known_datagrams(rows, lens@.take(i as int)),
        decreases lens@.len() - i,
    {
        let ghost before = out@;
        assert(lens@.take(i + 1).drop_last() =~= lens@.take(i as int));
        if let Some(peer) = lens[i].1 {
            let n: usize = lens[i].0;
            out.push((slice_to_vec(slice_subrange(bufs[i].as_slice(), 0, n)), peer));
            assert(out@.last().0@ =~= rows[i as int].take(n as int));
            assert(datagram_views(out@) =~= datagram_views(before).push(
                (rows[i as int].take(n as int), peer),
            ));
        }
        i = i + 1;
    }
    assert(lens@.take(i as int) =~= lens@);
    out
}

/// A batch as it is sent: the datagrams that went out so far.
pub open spec fn out_so_far(batch: Seq<Seq<u8>>, offset: usize) -> Seq<Seq<u8>> {
    batch.take(offset as int)
}

/// No datagram of a batch is skipped or sent twice: what goes out next continues
/// what went out, and at the end all of the batch went out.
pub proof fn law_batch_goes_out_in_order(batch: Seq<Seq<u8>>, s: BatchSend, n: usize)
    requires
        s.total == batch.len(),
        s.offset + n <= s.total,
    ensures
        out_so_far(batch, s.offset) + batch.subrange(s.offset as int, s.offset + n) == out_so_far(
            batch,
            (s.offset + n) as usize,
        ),
        batch_step(s.offset, s.total) == BatchStep::Done ==> out_so_far(batch, s.offset) == batch,
{
    assert(out_so_far(batch, s.offset) + batch.subrange(s.offset as int, s.offset + n)
        =~= out_so_far(batch, (s.offset + n) as usize));
    if s.offset == s.total {
        assert(out_so_far(batch, s.offset) =~= batch);
    }
}

} // verus!
