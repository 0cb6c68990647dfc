//! What becomes of datagrams that come in: error correction is taken off, the
//! conversation is found, and complete messages are moved ahead of being read.

use crate::kcp::buffers::{bytes_len, ReadBuffer, READ_PREFETCH_MAX_BYTES, READ_PREFETCH_MAX_MESSAGES};
use bytes::Bytes;
use std::collections::VecDeque;
use vstd::prelude::*;
use vstd::slice::{slice_subrange, slice_to_vec};

verus! {

/// Shortest KCP segment.
pub const KCP_MIN_SEGMENT: usize = 24;

/// The mark of a data shard.
pub const FEC_TYPE_DATA: u16 = 0x00f1;

/// The mark of a parity shard.
pub const FEC_TYPE_PARITY: u16 = 0x00f2;

/// Bytes before the KCP packet of a data shard.
pub const FEC_HDR: usize = 8;

/// What is fed to the protocol: a packet, or nothing.
pub open spec fn one_if(b: bool, packet: Seq<u8>) -> Seq<Seq<u8>> {
    if b {
        seq![packet]
    } else {
        Seq::empty()
    }
}

/// The mark that a shard carries in its fifth and sixth byte.
pub open spec fn shard_mark(input: Seq<u8>) -> u16 {
    (input[4] + input[5] * 256) as u16
}

/// The KCP packets that a datagram brings when error correction is on, where
/// `recovered` are those that it completes: a data shard brings its own and
/// those, a parity shard those only; anything else is a packet as it is, if it
/// is long enough.
pub open spec fn shard_packets(input: Seq<u8>, recovered: Seq<Seq<u8>>) -> Seq<Seq<u8>> {
    if input.len() >= 6 && shard_mark(input) == FEC_TYPE_DATA {
        one_if(input.len() > FEC_HDR, input.skip(FEC_HDR as int)) + recovered
    } else if input.len() >= 6 && shard_mark(input) == FEC_TYPE_PARITY {
        recovered
    } else {
        one_if(input.len() >= KCP_MIN_SEGMENT, input)
    }
}

/// The KCP packets of all datagrams, in order.
pub open spec fn all_shard_packets(
    datagrams: Seq<Seq<u8>>,
    recovered: Seq<Seq<Seq<u8>>>,
) -> Seq<Seq<u8>>
    decreases datagrams.len(),
{
    if datagrams.len() == 0 {
        Seq::empty()
    } else {
        all_shard_packets(datagrams.drop_last(), recovered.drop_last()) + shard_packets(
            datagrams.last(),
            recovered.last(),
        )
    }
}

/// The contents of lists of byte vectors.
pub open spec fn row_lists(s: Seq<Vec<Vec<u8>>>) -> Seq<Seq<Seq<u8>>> {
    Seq::new(s.len(), |i: int| crate::wire::byte_rows(s[i]@))
}

fn push_rows(out: &mut Vec<Vec<u8>>, rows: &Vec<Vec<u8>>)
    ensures
        crate::wire::byte_rows(final(out)@) == crate::wire::byte_rows(old(out)@)
            + crate::wire::byte_rows(rows@),
{
    let ghost before = crate::wire::byte_rows(out@);
    let ghost all = crate::wire::byte_rows(rows@);
    let mut i: usize = 0;
    assert(before + all.take(0) =~= before);
    while i < rows.len()
        invariant
            i <= rows@.len(),
            all == crate::wire::byte_rows(rows@),
            crate::wire::byte_rows(out@) == before + all.take(i as int),
        decreases rows@.len() - i,
    {
        let ghost out0 = out@;
        out.push(slice_to_vec(rows[i].as_slice()));
        assert(crate::wire::byte_rows(out@) =~= crate::wire::byte_rows(out0).push(all[i as int]));
        assert((before + all.take(i as int)).push(all[i as int]) =~= before + all.take(i + 1));
        i = i + 1;
    }
    assert(all.take(i as int) =~= all);
}

/// The KCP packets that datagrams bring, in order. Without error correction they
/// are the datagrams themselves; with it, `recovered` holds for each datagram
/// the packets that the decoder made complete with it.
pub fn inbound_packets(
    has_fec: bool,
    datagrams: &Vec<Vec<u8>>,
    recovered: &Vec<Vec<Vec<u8>>>,
) -> (packets: Vec<Vec<u8>>)
    requires
        has_fec ==> recovered@.len() == datagrams@.len(),
    ensures
        crate::wire::byte_rows(packets@) == (if has_fec {
            all_shard_packets(crate::wire::byte_rows(datagrams@), row_lists(recovered@))
        } else {
            crate::wire::byte_rows(datagrams@)
        }),
{
    let ghost rows = crate::wire::byte_rows(datagrams@);
    let ghost lists = row_lists(recovered@);
    let mut packets: Vec<Vec<u8>> = Vec::new();
    assert(crate::wire::byte_rows(packets@) =~= Seq::<Seq<u8>>::empty());
    if !has_fec {
        push_rows(&mut packets, datagrams);
        assert(Seq::<Seq<u8>>::empty() + rows =~= rows);
        return packets;
    }
    let mut i: usize = 0;
    assert(rows.take(0) =~= Seq::<Seq<u8>>::empty());
    while i < datagrams.len()
        invariant
            i <= datagrams@.len(),
            recovered@.len() == datagrams@.len(),
            rows == crate::wire::byte_rows(datagrams@),
            lists == row_lists(recovered@),
            crate::wire::byte_rows(packets@) == all_shard_packets(
                rows.take(i as int),
                lists.take(i as int),
            ),
        decreases datagrams@.len() - i,
    {
        let ghost before = crate::wire::byte_rows(packets@);
        let input: &Vec<u8> = &datagrams[i];
        assert(input@ == rows[i as int]);
        assert(rows.take(i + 1).drop_last() =~= rows.take(i as int));
        assert(lists.take(i + 1).drop_last() =~= lists.take(i as int));
        assert(lists.take(i + 1).last() == lists[i as int]);
        let n: usize = input.len();
        let mark: u16 = if n >= 6 {
            input[4] as u16 + input[5] as u16 * 256
        } else {
            0
        };
        if mark == FEC_TYPE_DATA {
            if n > FEC_HDR {
                let ghost packets0 = packets@;
                packets.push(slice_to_vec(slice_subrange(input.as_slice(), FEC_HDR, n)));
                assert(packets@[packets0.len() as int]@ =~= input@.skip(FEC_HDR as int));
                assert(crate::wire::byte_rows(packets@) =~= before + seq![
                    input@.skip(FEC_HDR as int),
                ]);
            } else {
                assert(before + Seq::<Seq<u8>>::empty() =~= before);
            }
            let ghost middle = crate::wire::byte_rows(packets@);
            push_rows(&mut packets, &recovered[i]);
            assert(crate::wire::byte_rows(packets@) =~= before + shard_packets(
                rows[i as int],
                lists[i as int],
            ));
        } else if mark == FEC_TYPE_PARITY {
            push_rows(&mut packets, &recovered[i]);
        } else if n >= KCP_MIN_SEGMENT {
            packets.push(slice_to_vec(input.as_slice()));
            assert(crate::wire::byte_rows(packets@) =~= before + seq![input@]);
        } else {
            assert(before + Seq::<Seq<u8>>::empty() =~= before);
        }
        i = i + 1;
    }
    assert(rows.take(i as int) =~= rows);
    assert(lists.take(i as int) =~= lists);
    packets
}

/// The conversation of a connection. A server's adopts that of the first packet
/// which the protocol accepts.
#[derive(Clone, Copy, Debug, PartialEq, Eq, Structural)]
pub struct ConvState {
    pub conv: u32,
    pub adopting: bool,
}

/// The conversation that a segment names.
pub open spec fn segment_conv(input: Seq<u8>) -> u32 {
    (input[0] + input[1] * 0x100 + input[2] * 0x1_0000 + input[3] * 0x100_0000) as u32
}

impl ConvState {
    /// The conversation under which a packet is offered to the protocol; none
    /// for a packet that is too short to be a segment.
    pub fn candidate(&self, input: &[u8]) -> (c: Option<u32>)
        ensures
            c == (if input@.len() < KCP_MIN_SEGMENT {
                None
            } else if self.adopting {
                Some(segment_conv(input@))
            } else {
                Some(self.conv)
            }),
    {
        if input.len() < KCP_MIN_SEGMENT {
            return None;
        }
        if !self.adopting {
            return Some(self.conv);
        }
        Some(
            input[0] as u32 + input[1] as u32 * 0x100 + input[2] as u32 * 0x1_0000 + input[3] as u32
                * 0x100_0000,
        )
    }

    /// The protocol accepted the packet or did not. Only a packet that it
    /// accepted settles the conversation.
    pub fn settle(&mut self, candidate: u32, accepted: bool)
        ensures
            *final(self) == (if accepted && old(self).adopting {
                ConvState { conv: candidate, adopting: false }
            } else {
                *old(self)
            }),
    {
        if accepted && self.adopting {
            self.conv = candidate;
            self.adopting = false;
        }
    }
}

/// A run of packets: under which conversation each was offered, and whether it
/// was accepted.
pub open spec fn settled(s: ConvState, run: Seq<(u32, bool)>) -> ConvState
    decreases run.len(),
{
    if run.len() == 0 {
        s
    } else {
        let t = settled(s, run.drop_last());
        if run.last().1 && t.adopting {
            ConvState { conv: run.last().0, adopting: false }
        } else {
            t
        }
    }
}

/// Rejected traffic pins nothing: however many packets are not accepted, the
/// conversation stays as it was and open to adoption.
pub proof fn law_rejected_packets_do_not_pin_the_conversation(s: ConvState, run: Seq<(u32, bool)>)
    requires
        forall|i: int| 0 <= i < run.len() ==> !(#[trigger] run[i]).1,
    ensures
        settled(s, run) == s,
    decreases run.len(),
{
    if run.len() > 0 {
        assert(!run[run.len() - 1].1);
        assert forall|i: int| 0 <= i < run.drop_last().len() implies !(
        #[trigger] run.drop_last()[i]).1 by {
            assert(!run[i].1);
        }
        law_rejected_packets_do_not_pin_the_conversation(s, run.drop_last());
    }
}

/// A settled conversation never changes.
pub proof fn law_conversation_is_settled_once(s: ConvState, run: Seq<(u32, bool)>)
    requires
        !s.adopting,
    ensures
        settled(s, run) == s,
    decreases run.len(),
{
    if run.len() > 0 {
        law_conversation_is_settled_once(s, run.drop_last());
    }
}

/// How many of the complete messages are moved ahead, where `bytes` bytes in
/// `count` messages are there already: as many from the front as keep both
/// bounds. An empty message ends it.
pub open spec fn prefetch_count(bytes: nat, count: nat, messages: Seq<Seq<u8>>) -> nat
    decreases messages.len(),
{
    if messages.len() == 0 || messages[0].len() == 0 || bytes + messages[0].len()
        > READ_PREFETCH_MAX_BYTES || count >= READ_PREFETCH_MAX_MESSAGES {
        0
    } else {
        1 + prefetch_count(bytes + messages[0].len(), count + 1, messages.skip(1))
    }
}

/// Moves complete messages from the protocol's queue ahead of being read, within
/// bounds; what goes beyond stays with the protocol, whose window holds the
/// peer back. Tells whether there is anything to read.
pub fn prefetch(rb: &mut ReadBuffer, kcp: &mut VecDeque<Bytes>) -> (ready: bool)
    requires
        old(rb).wf(),
    ensures
        final(rb).wf(),
        ({
            let ms = crate::kcp::buffers::all_contents(old(kcp)@);
            let k = prefetch_count(
                crate::kcp::buffers::flat(old(rb).messages()).len(),
                old(rb).messages().len(),
                ms,
            ) as int;
            &&& k <= ms.len()
            &&& final(rb).messages() == old(rb).messages() + ms.take(k)
            &&& crate::kcp::buffers::all_contents(final(kcp)@) == ms.skip(k)
            &&& ready == (final(rb).messages().len() > 0 || k < ms.len())
        }),
{
    let ghost ms = crate::kcp::buffers::all_contents(kcp@);
    let ghost before = rb.messages();
    let ghost bytes0 = crate::kcp::buffers::flat(before).len();
    let ghost total = prefetch_count(bytes0, before.len(), ms);
    let mut going: bool = true;
    let ghost mut k: int = 0;
    assert(ms.skip(0) =~= ms);
    assert(before + ms.take(0) =~= before);
    while going
        invariant
            0 <= k <= ms.len(),
            rb.wf(),
            rb.messages() == before + ms.take(k),
            crate::kcp::buffers::all_contents(kcp@) == ms.skip(k),
            total == k + (if going {
                prefetch_count(
                    crate::kcp::buffers::flat(rb.messages()).len(),
                    rb.messages().len(),
                    ms.skip(k),
                )
            } else {
                0
            }),
        decreases (if going { 1nat } else { 0nat }), ms.len() - k,
    {
        let have: usize = rb.bytes();
        let remaining: usize = if have < READ_PREFETCH_MAX_BYTES {
            READ_PREFETCH_MAX_BYTES - have
        } else {
            0
        };
        if kcp.len() == 0 {
            going = false;
        } else {
            let size: usize = bytes_len(&kcp[0]);
            assert(size == ms.skip(k)[0].len());
            if size == 0 || size > remaining || rb.len() >= READ_PREFETCH_MAX_MESSAGES {
                going = false;
            } else {
                let ghost kcp0 = kcp@;
                if let Some(m) = kcp.pop_front() {
                    proof {
                        assert(crate::kcp::buffers::contents(m) == ms.skip(k)[0]);
                        assert(crate::kcp::buffers::all_contents(kcp@)
                            =~= crate::kcp::buffers::all_contents(kcp0).skip(1));
                        assert(ms.skip(k).skip(1) =~= ms.skip(k + 1));
                        crate::kcp::buffers::lemma_flat_push(
                            rb.messages(),
                            crate::kcp::buffers::contents(m),
                        );
                    }
                    rb.push_back(m);
                    assert((before + ms.take(k)).push(ms[k]) =~= before + ms.take(k + 1));
                    proof {
                        k = k + 1;
                    }
                }
            }
        }
    }
    !rb.is_empty() || kcp.len() > 0
}

/// Moving messages ahead keeps its bounds, and changes nothing about what is
/// read: the messages and those that stay behind are, in order, those that
/// there were.
pub proof fn law_prefetch_is_bounded(bytes: nat, count: nat, messages: Seq<Seq<u8>>)
    ensures
        ({
            let k = prefetch_count(bytes, count, messages);
            &&& k <= messages.len()
            &&& k > 0 ==> count + k <= READ_PREFETCH_MAX_MESSAGES
            &&& k > 0 ==> bytes + crate::kcp::buffers::flat(messages.take(k as int)).len()
                <= READ_PREFETCH_MAX_BYTES
            &&& messages.take(k as int) + messages.skip(k as int) == messages
        }),
    decreases messages.len(),
{
    let k = prefetch_count(bytes, count, messages);
    if k > 0 {
        law_prefetch_is_bounded(bytes + messages[0].len(), count + 1, messages.skip(1));
        let j = (k - 1) as int;
        assert(messages.take(k as int).skip(1) =~= messages.skip(1).take(j));
        assert(messages.take(k as int)[0] == messages[0]);
        assert(j == 0 ==> messages.skip(1).take(j) =~= Seq::<Seq<u8>>::empty());
        assert(crate::kcp::buffers::flat(messages.take(k as int)).len() == messages[0].len()
            + crate::kcp::buffers::flat(messages.skip(1).take(j)).len());
    }
    assert(messages.take(k as int) + messages.skip(k as int) =~= messages);
}

} // verus!
