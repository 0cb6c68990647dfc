//! Datagrams dressed as TCP segments: the segment format, its checksum, and the
//! bookkeeping that makes a flow look like TCP from outside.
//!
//! A segment is a TCP header of 32 bytes (20 fixed, 12 of timestamp options)
//! followed by one datagram. The kernel adds the IP header on the way out and
//! hands it over on the way in.

use crate::wire::{push_be16, push_be32, push_slice, read_be16, read_be32};
use std::collections::HashMap;
use vstd::prelude::*;
use vstd::slice::slice_subrange;

verus! {

/// Length of the header of a segment that is sent.
pub const TCP_HDR_LEN: usize = 32;

/// Largest datagram that a segment carries.
pub const MAX_PAYLOAD: usize = 1400;

/// The window that every segment announces.
pub const TCP_WINDOW: u16 = 65535;

/// The sum of the 16-bit words of `s`; a last odd byte is the high half of a
/// word.
pub open spec fn word_sum(s: Seq<u8>) -> nat
    decreases s.len(),
{
    if s.len() == 0 {
        0
    } else if s.len() == 1 {
        s[0] as nat * 256
    } else {
        (s[0] as nat * 256 + s[1] as nat) + word_sum(s.skip(2))
    }
}

/// The value between 0 and 65535 that a sum comes to when every carry out of
/// 16 bits is added back in: congruent to it modulo 65535, and 0 only for 0.
pub open spec fn end_around(total: nat) -> nat {
    if total == 0 {
        0
    } else {
        ((total - 1) % 65535 + 1) as nat
    }
}

/// Words sum up piece by piece where the first piece has an even length.
pub proof fn lemma_word_sum_concat(a: Seq<u8>, b: Seq<u8>)
    requires
        a.len() % 2 == 0,
    ensures
        word_sum(a + b) == word_sum(a) + word_sum(b),
    decreases a.len(),
{
    if a.len() == 0 {
        assert(a + b =~= b);
    } else {
        lemma_word_sum_concat(a.skip(2), b);
        assert((a + b).skip(2) =~= a.skip(2) + b);
    }
}

/// No word exceeds 65535.
pub proof fn lemma_word_sum_bound(s: Seq<u8>)
    ensures
        word_sum(s) <= 65535 * ((s.len() + 1) / 2),
    decreases s.len(),
{
    if s.len() >= 2 {
        lemma_word_sum_bound(s.skip(2));
        assert((s.len() + 1) / 2 == (s.skip(2).len() + 1) / 2 + 1);
    }
}

/// The ones' complement sum of the 16-bit words of `data`.
pub fn ones_complement_sum(data: &[u8]) -> (sum: u32)
    requires
        word_sum(data@) <= u32::MAX,
    ensures
        sum == end_around(word_sum(data@)),
        sum <= 0xFFFF,
{
    let mut sum: u32 = 0;
    let mut i: usize = 0;
    let n: usize = data.len();
    assert(data@.skip(0) =~= data@);
    while n - i >= 2
        invariant
            n == data@.len(),
            i <= n,
            word_sum(data@) <= u32::MAX,
            word_sum(data@) == sum + word_sum(data@.skip(i as int)),
        decreases n - i,
    {
        assert(data@.skip(i as int).skip(2) =~= data@.skip(i + 2));
        sum = sum + (data[i] as u32 * 256 + data[i + 1] as u32);
        i = i + 2;
    }
    if i < n {
        assert(data@.skip(i as int).len() == 1);
        sum = sum + data[i] as u32 * 256;
    }
    let ghost total = sum as int;
    assert(total == word_sum(data@));
    while sum > 0xFFFF
        invariant
            sum == 0 <==> total == 0,
            total >= 0,
            sum % 65535 == total % 65535,
        decreases sum,
    {
        let low: u32 = sum % 0x1_0000;
        let high: u32 = sum / 0x1_0000;
        assert(sum == low + high + 65535 * high);
        sum = low + high;
    }
    sum
}

/// The bytes that stand in for the IP header in the checksum of a segment of
/// `len` bytes.
pub open spec fn pseudo_header(src_ip: Seq<u8>, dst_ip: Seq<u8>, len: nat) -> Seq<u8> {
    src_ip + dst_ip + seq![0u8, 6u8] + crate::wire::be_bytes(len % 0x1_0000, 2)
}

/// The TCP checksum of a segment.
pub open spec fn checksum(src_ip: Seq<u8>, dst_ip: Seq<u8>, segment: Seq<u8>) -> u16 {
    (65535 - end_around(word_sum(pseudo_header(src_ip, dst_ip, segment.len()) + segment))) as u16
}

/// The TCP checksum over a segment and the addresses that it goes between.
pub fn tcp_checksum(src_ip: &[u8; 4], dst_ip: &[u8; 4], tcp_segment: &[u8]) -> (csum: u16)
    requires
        word_sum(pseudo_header(src_ip@, dst_ip@, tcp_segment@.len()) + tcp_segment@) <= u32::MAX,
    ensures
        csum == checksum(src_ip@, dst_ip@, tcp_segment@),
{
    let mut buf: Vec<u8> = Vec::new();
    push_slice(&mut buf, src_ip.as_slice());
    push_slice(&mut buf, dst_ip.as_slice());
    buf.push(0);
    buf.push(6);
    push_be16(&mut buf, (tcp_segment.len() % 0x1_0000) as u16);
    push_slice(&mut buf, tcp_segment);
    assert(buf@ =~= pseudo_header(src_ip@, dst_ip@, tcp_segment@.len()) + tcp_segment@);
    let sum: u32 = ones_complement_sum(buf.as_slice());
    (65535 - sum) as u16
}

/// The header of a segment up to its checksum.
pub open spec fn header_front(src_port: u16, dst_port: u16, seq: u32, ack: u32) -> Seq<u8> {
    crate::wire::be_bytes(src_port as nat, 2) + crate::wire::be_bytes(dst_port as nat, 2)
        + crate::wire::be_bytes(seq as nat, 4) + crate::wire::be_bytes(ack as nat, 4)
        + seq![0x80u8, 0x18u8] + crate::wire::be_bytes(TCP_WINDOW as nat, 2)
}

/// The header of a segment behind its checksum: no urgent data, then two
/// fillers and the timestamp option.
pub open spec fn header_back(ts_val: u32, ts_ecr: u32) -> Seq<u8> {
    seq![0u8, 0u8, 1u8, 1u8, 8u8, 10u8] + crate::wire::be_bytes(ts_val as nat, 4)
        + crate::wire::be_bytes(ts_ecr as nat, 4)
}

/// A segment with `csum` in the place of its checksum.
pub open spec fn segment_with(
    src_port: u16,
    dst_port: u16,
    seq: u32,
    ack: u32,
    csum: u16,
    ts_val: u32,
    ts_ecr: u32,
    payload: Seq<u8>,
) -> Seq<u8> {
    header_front(src_port, dst_port, seq, ack) + crate::wire::be_bytes(csum as nat, 2) + (
    header_back(ts_val, ts_ecr) + payload)
}

/// The segment that carries `payload`, checksum and all.
pub open spec fn segment(
    src_ip: Seq<u8>,
    dst_ip: Seq<u8>,
    src_port: u16,
    dst_port: u16,
    seq: u32,
    ack: u32,
    ts_val: u32,
    ts_ecr: u32,
    payload: Seq<u8>,
) -> Seq<u8> {
    segment_with(
        src_port,
        dst_port,
        seq,
        ack,
        checksum(
            src_ip,
            dst_ip,
            segment_with(src_port, dst_port, seq, ack, 0, ts_val, ts_ecr, payload),
        ),
        ts_val,
        ts_ecr,
        payload,
    )
}

proof fn lemma_header_lens(src_port: u16, dst_port: u16, seq: u32, ack: u32, ts_val: u32, ts_ecr: u32)
    ensures
        header_front(src_port, dst_port, seq, ack).len() == 16,
        header_back(ts_val, ts_ecr).len() == 14,
{
    crate::wire::lemma_be_bytes_2(src_port as nat);
    crate::wire::lemma_be_bytes_2(dst_port as nat);
    crate::wire::lemma_be_bytes_2(TCP_WINDOW as nat);
    crate::wire::lemma_be_bytes_4(seq as nat);
    crate::wire::lemma_be_bytes_4(ack as nat);
    crate::wire::lemma_be_bytes_4(ts_val as nat);
    crate::wire::lemma_be_bytes_4(ts_ecr as nat);
}

/// Segments of datagrams up to 64 KiB have checksums: the sum of their words
/// fits 32 bits.
pub proof fn lemma_segment_sum_fits(
    src_ip: Seq<u8>,
    dst_ip: Seq<u8>,
    src_port: u16,
    dst_port: u16,
    seq: u32,
    ack: u32,
    ts_val: u32,
    ts_ecr: u32,
    payload: Seq<u8>,
)
    requires
        src_ip.len() == 4,
        dst_ip.len() == 4,
        payload.len() <= 0x1_0000,
    ensures
        word_sum(
            pseudo_header(src_ip, dst_ip, (32 + payload.len()) as nat) + segment_with(
                src_port,
                dst_port,
                seq,
                ack,
                0,
                ts_val,
                ts_ecr,
                payload,
            ),
        ) <= u32::MAX,
{
    lemma_header_lens(src_port, dst_port, seq, ack, ts_val, ts_ecr);
    crate::wire::lemma_be_bytes_2(0);
    crate::wire::lemma_be_bytes_2((32 + payload.len()) as nat % 0x1_0000);
    lemma_word_sum_bound(
        pseudo_header(src_ip, dst_ip, (32 + payload.len()) as nat) + segment_with(
            src_port,
            dst_port,
            seq,
            ack,
            0,
            ts_val,
            ts_ecr,
            payload,
        ),
    );
}

/// Builds a segment: the TCP header and the payload, without an IP header.
pub fn build_tcp_segment(
    src_ip: &[u8; 4],
    dst_ip: &[u8; 4],
    src_port: u16,
    dst_port: u16,
    seq: u32,
    ack: u32,
    ts_val: u32,
    ts_ecr: u32,
    payload: &[u8],
) -> (pkt: Vec<u8>)
    requires
        32 + payload@.len() <= usize::MAX,
        word_sum(
            pseudo_header(src_ip@, dst_ip@, (32 + payload@.len()) as nat) + segment_with(
                src_port,
                dst_port,
                seq,
                ack,
                0,
                ts_val,
                ts_ecr,
                payload@,
            ),
        ) <= u32::MAX,
    ensures
        pkt@ == segment(
            src_ip@,
            dst_ip@,
            src_port,
            dst_port,
            seq,
            ack,
            ts_val,
            ts_ecr,
            payload@,
        ),
{
    proof {
        lemma_header_lens(src_port, dst_port, seq, ack, ts_val, ts_ecr);
        crate::wire::lemma_be_bytes_2(0);
    }
    let mut pkt: Vec<u8> = Vec::new();
    push_be16(&mut pkt, src_port);
    push_be16(&mut pkt, dst_port);
    push_be32(&mut pkt, seq);
    push_be32(&mut pkt, ack);
    pkt.push(0x80);
    pkt.push(0x18);
    push_be16(&mut pkt, TCP_WINDOW);
    assert(pkt@ =~= header_front(src_port, dst_port, seq, ack));
    pkt.push(0);
    pkt.push(0);
    let mut rest: Vec<u8> = Vec::new();
    rest.push(0);
    rest.push(0);
    rest.push(1);
    rest.push(1);
    rest.push(8);
    rest.push(10);
    push_be32(&mut rest, ts_val);
    push_be32(&mut rest, ts_ecr);
    assert(rest@ =~= header_back(ts_val, ts_ecr));
    push_slice(&mut rest, payload);
    pkt.append(&mut rest);
    assert(pkt@ =~= segment_with(src_port, dst_port, seq, ack, 0, ts_val, ts_ecr, payload@));
    let csum: u16 = tcp_checksum(src_ip, dst_ip, pkt.as_slice());
    proof {
        crate::wire::lemma_be_bytes_2(csum as nat);
    }
    pkt[16] = (csum / 256) as u8;
    pkt[17] = (csum % 256) as u8;
    assert(pkt@ =~= segment_with(src_port, dst_port, seq, ack, csum, ts_val, ts_ecr, payload@));
    pkt
}

/// A receiver's check passes on every segment that is built: the words of the
/// pseudo header and the segment, checksum included, come to 65535.
pub proof fn law_checksum_verifies(
    src_ip: Seq<u8>,
    dst_ip: Seq<u8>,
    src_port: u16,
    dst_port: u16,
    seq: u32,
    ack: u32,
    ts_val: u32,
    ts_ecr: u32,
    payload: Seq<u8>,
)
    requires
        src_ip.len() == 4,
        dst_ip.len() == 4,
    ensures
        ({
            let s = segment(
                src_ip,
                dst_ip,
                src_port,
                dst_port,
                seq,
                ack,
                ts_val,
                ts_ecr,
                payload,
            );
            end_around(word_sum(pseudo_header(src_ip, dst_ip, s.len()) + s)) == 65535
        }),
{
    let zeroed = segment_with(src_port, dst_port, seq, ack, 0, ts_val, ts_ecr, payload);
    let csum = checksum(src_ip, dst_ip, zeroed);
    let s = segment_with(src_port, dst_port, seq, ack, csum, ts_val, ts_ecr, payload);
    lemma_header_lens(src_port, dst_port, seq, ack, ts_val, ts_ecr);
    crate::wire::lemma_be_bytes_2(0);
    crate::wire::lemma_be_bytes_2(csum as nat);
    crate::wire::lemma_be_bytes_2(s.len() % 0x1_0000);
    assert(s.len() == zeroed.len());
    let pre = pseudo_header(src_ip, dst_ip, s.len());
    let front = header_front(src_port, dst_port, seq, ack);
    let back = header_back(ts_val, ts_ecr) + payload;
    let field = crate::wire::be_bytes(csum as nat, 2);
    let zero = crate::wire::be_bytes(0, 2);
    assert(pre + s =~= (pre + front) + (field + back));
    assert(pre + zeroed =~= (pre + front) + (zero + back));
    lemma_word_sum_concat(pre + front, field + back);
    lemma_word_sum_concat(pre + front, zero + back);
    lemma_word_sum_concat(field, back);
    lemma_word_sum_concat(zero, back);
    reveal_with_fuel(word_sum, 2);
    assert(word_sum(field) == csum) by {
        assert(field.skip(2) =~= Seq::<u8>::empty());
    }
    assert(word_sum(zero) == 0) by {
        assert(zero.skip(2) =~= Seq::<u8>::empty());
    }
    let total = word_sum(pre + zeroed);
    assert(total > 0) by {
        let p8 = src_ip + dst_ip;
        let tail = seq![0u8, 6u8] + crate::wire::be_bytes(s.len() % 0x1_0000, 2);
        assert(pre + zeroed =~= p8 + (tail + zeroed));
        lemma_word_sum_concat(p8, tail + zeroed);
        assert((tail + zeroed)[1] == 6);
    }
    assert(word_sum(pre + s) == total + csum);
    assert(csum == 65535 - end_around(total));
}

/// A received segment: the fields of its header that matter, and its payload.
pub struct TcpSegmentView<'a> {
    pub src_port: u16,
    pub dst_port: u16,
    pub seq: u32,
    pub ack: u32,
    pub ack_flag: bool,
    pub psh: bool,
    pub syn: bool,
    pub fin: bool,
    pub ts_val: Option<u32>,
    pub payload: &'a [u8],
}

/// What a received segment says.
pub struct SegmentFields {
    pub src_port: u16,
    pub dst_port: u16,
    pub seq: u32,
    pub ack: u32,
    pub ack_flag: bool,
    pub psh: bool,
    pub syn: bool,
    pub fin: bool,
    pub ts_val: Option<u32>,
    pub payload: Seq<u8>,
}

impl<'a> View for TcpSegmentView<'a> {
    type V = SegmentFields;

    open spec fn view(&self) -> SegmentFields {
        SegmentFields {
            src_port: self.src_port,
            dst_port: self.dst_port,
            seq: self.seq,
            ack: self.ack,
            ack_flag: self.ack_flag,
            psh: self.psh,
            syn: self.syn,
            fin: self.fin,
            ts_val: self.ts_val,
            payload: self.payload@,
        }
    }
}

/// The sender's timestamp among TCP options, read from position `i` on.
/// Options of kind 0 and 1 are single bytes; any other has its length behind
/// it, and a length that does not fit ends the search.
pub open spec fn ts_option(options: Seq<u8>, i: int) -> Option<u32>
    decreases options.len() - i,
{
    if i + 1 >= options.len() {
        None
    } else if options[i] <= 1 {
        ts_option(options, i + 1)
    } else {
        let len = options[i + 1] as int;
        if len < 2 || i + len > options.len() {
            None
        } else if options[i] == 8 && len == 10 {
            Some(crate::wire::be_value(options.subrange(i + 2, i + 6)) as u32)
        } else {
            ts_option(options, i + len)
        }
    }
}

/// A packet begins with an IPv4 header of protocol TCP, by the look of it.
pub open spec fn looks_like_ip(buf: Seq<u8>) -> bool {
    buf[0] / 16 == 4 && buf[9] == 6
}

/// Where TCP begins in a received packet: behind the IPv4 header where there
/// is one, else at the start.
pub open spec fn tcp_start(buf: Seq<u8>) -> nat {
    if looks_like_ip(buf) {
        (buf[0] as nat % 16) * 4
    } else {
        0
    }
}

/// What a received packet says, if it is a segment at all.
pub open spec fn parsed(buf: Seq<u8>) -> Option<SegmentFields> {
    let start = tcp_start(buf);
    let tcp = buf.skip(start as int);
    let data_off = (tcp[12] as nat / 16) * 4;
    if buf.len() < 40 || (looks_like_ip(buf) && start < 20) || buf.len() < start + 20 || data_off
        < 20 || tcp.len() < data_off {
        None
    } else {
        Some(
            SegmentFields {
                src_port: crate::wire::be_value(tcp.subrange(0, 2)) as u16,
                dst_port: crate::wire::be_value(tcp.subrange(2, 4)) as u16,
                seq: crate::wire::be_value(tcp.subrange(4, 8)) as u32,
                ack: crate::wire::be_value(tcp.subrange(8, 12)) as u32,
                ack_flag: tcp[13] / 16 % 2 == 1,
                psh: tcp[13] / 8 % 2 == 1,
                syn: tcp[13] / 2 % 2 == 1,
                fin: tcp[13] % 2 == 1,
                ts_val: ts_option(tcp.subrange(20, data_off as int), 0),
                payload: tcp.skip(data_off as int),
            },
        )
    }
}

/// Finds the sender's timestamp among TCP options.
pub fn extract_ts_val(options: &[u8]) -> (ts: Option<u32>)
    ensures
        ts == ts_option(options@, 0),
{
    let n: usize = options.len();
    let mut i: usize = 0;
    while n - i >= 2
        invariant
            n == options@.len(),
            i <= n,
            ts_option(options@, 0) == ts_option(options@, i as int),
        decreases n - i,
    {
        let kind: u8 = options[i];
        if kind <= 1 {
            i = i + 1;
        } else {
            let len: usize = options[i + 1] as usize;
            if len < 2 || len > n - i {
                return None;
            }
            if kind == 8 && len == 10 {
                return Some(read_be32(options, i + 2));
            }
            i = i + len;
        }
    }
    None
}

/// Parses a received packet: a segment, with the IPv4 header before it or
/// without one.
pub fn parse_tcp_segment(buf: &[u8]) -> (seg: Option<TcpSegmentView<'_>>)
    ensures
        match seg {
            Some(v) => parsed(buf@) == Some(v@),
            None => parsed(buf@) is None,
        },
{
    if buf.len() < 40 {
        return None;
    }
    let mut start: usize = 0;
    if buf[0] / 16 == 4 && buf[9] == 6 {
        start = (buf[0] % 16) as usize * 4;
        if start < 20 || buf.len() < start + 20 {
            return None;
        }
    }
    let tcp: &[u8] = slice_subrange(buf, start, buf.len());
    assert(tcp@ =~= buf@.skip(start as int));
    let data_off: usize = (tcp[12] / 16) as usize * 4;
    if data_off < 20 || tcp.len() < data_off {
        return None;
    }
    let flags: u8 = tcp[13];
    let payload: &[u8] = slice_subrange(tcp, data_off, tcp.len());
    assert(payload@ =~= tcp@.skip(data_off as int));
    Some(
        TcpSegmentView {
            src_port: read_be16(tcp, 0),
            dst_port: read_be16(tcp, 2),
            seq: read_be32(tcp, 4),
            ack: read_be32(tcp, 8),
            ack_flag: flags / 16 % 2 == 1,
            psh: flags / 8 % 2 == 1,
            syn: flags / 2 % 2 == 1,
            fin: flags % 2 == 1,
            ts_val: extract_ts_val(slice_subrange(tcp, 20, data_off)),
            payload,
        },
    )
}

/// What is sent is what is received: a segment that was built, behind any IPv4
/// header of protocol TCP, parses to its own ports, numbers, timestamp and
/// payload, and is marked as data (`psh`) that acknowledges (`ack_flag`).
pub proof fn law_parse_gives_back_what_was_built(
    ip_header: Seq<u8>,
    src_ip: Seq<u8>,
    dst_ip: Seq<u8>,
    src_port: u16,
    dst_port: u16,
    seq: u32,
    ack: u32,
    ts_val: u32,
    ts_ecr: u32,
    payload: Seq<u8>,
)
    requires
        20 <= ip_header.len() <= 60,
        looks_like_ip(ip_header),
        (ip_header[0] as nat % 16) * 4 == ip_header.len(),
    ensures
        parsed(
            ip_header + segment(
                src_ip,
                dst_ip,
                src_port,
                dst_port,
                seq,
                ack,
                ts_val,
                ts_ecr,
                payload,
            ),
        ) == Some(
            SegmentFields {
                src_port,
                dst_port,
                seq,
                ack,
                ack_flag: true,
                psh: true,
                syn: false,
                fin: false,
                ts_val: Some(ts_val),
                payload,
            },
        ),
{
    let csum = checksum(
        src_ip,
        dst_ip,
        segment_with(src_port, dst_port, seq, ack, 0, ts_val, ts_ecr, payload),
    );
    lemma_parts_of_segment(csum, src_port, dst_port, seq, ack, ts_val, ts_ecr, payload);
    lemma_ip_start(
        ip_header,
        segment_with(src_port, dst_port, seq, ack, csum, ts_val, ts_ecr, payload),
    );
}

proof fn lemma_ip_start(ip_header: Seq<u8>, s: Seq<u8>)
    requires
        20 <= ip_header.len() <= 60,
        looks_like_ip(ip_header),
        (ip_header[0] as nat % 16) * 4 == ip_header.len(),
        s.len() >= 32,
    ensures
        looks_like_ip(ip_header + s),
        tcp_start(ip_header + s) == ip_header.len(),
        (ip_header + s).len() >= 52,
        (ip_header + s).skip(ip_header.len() as int) == s,
{
    assert((ip_header + s).skip(ip_header.len() as int) =~= s);
}

/// The same of a segment that comes without an IP header, provided that it
/// does not look like one that has it: its first byte, the high byte of the
/// source port, begins with 4, and its tenth, of the acknowledgement number,
/// is 6.
pub proof fn law_parse_gives_back_bare_segment(
    src_ip: Seq<u8>,
    dst_ip: Seq<u8>,
    src_port: u16,
    dst_port: u16,
    seq: u32,
    ack: u32,
    ts_val: u32,
    ts_ecr: u32,
    payload: Seq<u8>,
)
    requires
        payload.len() >= 8,
        !(src_port / 0x1000 == 4 && ack / 0x1_0000 % 256 == 6),
    ensures
        parsed(
            segment(src_ip, dst_ip, src_port, dst_port, seq, ack, ts_val, ts_ecr, payload),
        ) == Some(
            SegmentFields {
                src_port,
                dst_port,
                seq,
                ack,
                ack_flag: true,
                psh: true,
                syn: false,
                fin: false,
                ts_val: Some(ts_val),
                payload,
            },
        ),
{
    let csum = checksum(
        src_ip,
        dst_ip,
        segment_with(src_port, dst_port, seq, ack, 0, ts_val, ts_ecr, payload),
    );
    lemma_parts_of_segment(csum, src_port, dst_port, seq, ack, ts_val, ts_ecr, payload);
    lemma_bare_start(
        segment_with(src_port, dst_port, seq, ack, csum, ts_val, ts_ecr, payload),
        src_port,
        ack,
    );
}

proof fn lemma_bare_start(s: Seq<u8>, src_port: u16, ack: u32)
    requires
        s.len() >= 40,
        s.subrange(0, 2) == crate::wire::be_bytes(src_port as nat, 2),
        s.subrange(8, 12) == crate::wire::be_bytes(ack as nat, 4),
        !(src_port / 0x1000 == 4 && ack / 0x1_0000 % 256 == 6),
    ensures
        !(s[0] / 16 == 4 && s[9] == 6),
        s.skip(0) == s,
{
    crate::wire::lemma_be_bytes_2(src_port as nat);
    crate::wire::lemma_be_bytes_4(ack as nat);
    assert(s[0] == s.subrange(0, 2)[0]);
    assert(s[9] == s.subrange(8, 12)[1]);
    assert(s.skip(0) =~= s);
}

proof fn lemma_parts_of_segment(
    csum: u16,
    src_port: u16,
    dst_port: u16,
    seq: u32,
    ack: u32,
    ts_val: u32,
    ts_ecr: u32,
    payload: Seq<u8>,
)
    ensures
        ({
            let s = segment_with(src_port, dst_port, seq, ack, csum, ts_val, ts_ecr, payload);
            &&& s.len() == 32 + payload.len()
            &&& s.subrange(0, 2) == crate::wire::be_bytes(src_port as nat, 2)
            &&& s.subrange(8, 12) == crate::wire::be_bytes(ack as nat, 4)
            &&& crate::wire::be_value(s.subrange(0, 2)) == src_port
            &&& crate::wire::be_value(s.subrange(2, 4)) == dst_port
            &&& crate::wire::be_value(s.subrange(4, 8)) == seq
            &&& crate::wire::be_value(s.subrange(8, 12)) == ack
            &&& s[12] == 0x80
            &&& s[13] == 0x18
            &&& ts_option(s.subrange(20, 32), 0) == Some(ts_val)
            &&& s.skip(32) == payload
        }),
{
    let s = segment_with(src_port, dst_port, seq, ack, csum, ts_val, ts_ecr, payload);
    lemma_header_lens(src_port, dst_port, seq, ack, ts_val, ts_ecr);
    crate::wire::lemma_be_bytes_2(src_port as nat);
    crate::wire::lemma_be_bytes_2(dst_port as nat);
    crate::wire::lemma_be_bytes_2(csum as nat);
    crate::wire::lemma_be_bytes_2(TCP_WINDOW as nat);
    crate::wire::lemma_be_bytes_4(seq as nat);
    crate::wire::lemma_be_bytes_4(ack as nat);
    crate::wire::lemma_be_bytes_4(ts_val as nat);
    crate::wire::lemma_be_bytes_4(ts_ecr as nat);
    crate::wire::law_be_round_trip(src_port as nat);
    crate::wire::law_be_round_trip(dst_port as nat);
    crate::wire::law_be_round_trip(seq as nat);
    crate::wire::law_be_round_trip(ack as nat);
    crate::wire::law_be_round_trip(ts_val as nat);
    assert(s.subrange(0, 2) =~= crate::wire::be_bytes(src_port as nat, 2));
    assert(s.subrange(2, 4) =~= crate::wire::be_bytes(dst_port as nat, 2));
    assert(s.subrange(4, 8) =~= crate::wire::be_bytes(seq as nat, 4));
    assert(s.subrange(8, 12) =~= crate::wire::be_bytes(ack as nat, 4));
    assert(s.skip(32) =~= payload);
    let o = s.subrange(20, 32);
    assert(o.subrange(4, 8) =~= crate::wire::be_bytes(ts_val as nat, 4));
    assert(o[0] == 1 && o[1] == 1 && o[2] == 8 && o[3] == 10);
    reveal_with_fuel(ts_option, 3);
}

/// Where a TCP flow stands: the next sequence number, the acknowledgement
/// number, and the peer's last timestamp to echo.
#[derive(Clone, Copy, Debug, PartialEq, Eq, Structural)]
pub struct TcpFlowState {
    pub seq: u32,
    pub ack: u32,
    pub ts_ecr: u32,
}

/// `a + b` modulo 2^32.
pub open spec fn add32(a: u32, b: nat) -> u32 {
    ((a + b) % 0x1_0000_0000) as u32
}

/// The sequence number behind a received segment: its payload and its SYN and
/// FIN count.
pub open spec fn seq_behind(seg: SegmentFields) -> u32 {
    add32(
        seg.seq,
        seg.payload.len() + (if seg.syn { 1nat } else { 0 }) + (if seg.fin { 1nat } else { 0 }),
    )
}

/// A flow after a segment of the peer came in: an acknowledgement sets the
/// next sequence number, a timestamp is kept for echoing, and the
/// acknowledgement number moves on only over what was expected next, or from
/// nothing.
pub open spec fn flow_after(flow: TcpFlowState, seg: SegmentFields) -> TcpFlowState {
    TcpFlowState {
        seq: if seg.ack_flag {
            seg.ack
        } else {
            flow.seq
        },
        ack: if seq_behind(seg) != seg.seq && (flow.ack == 0 || flow.ack == seg.seq) {
            seq_behind(seg)
        } else {
            flow.ack
        },
        ts_ecr: match seg.ts_val {
            Some(ts) => ts,
            None => flow.ts_ecr,
        },
    }
}

/// Takes the header of a segment that the peer sent into the flow.
pub fn update_flow_from_segment(flow: &mut TcpFlowState, seg: &TcpSegmentView<'_>)
    ensures
        *final(flow) == flow_after(*old(flow), seg@),
{
    if seg.ack_flag {
        flow.seq = seg.ack;
    }
    if let Some(ts) = seg.ts_val {
        flow.ts_ecr = ts;
    }
    let mut next: u32 = seg.seq.wrapping_add((seg.payload.len() as u64 % 0x1_0000_0000) as u32);
    if seg.syn {
        next = next.wrapping_add(1);
    }
    if seg.fin {
        next = next.wrapping_add(1);
    }
    assert(next == seq_behind(seg@));
    if next != seg.seq {
        let cur: u32 = flow.ack;
        if cur == 0 || cur == seg.seq {
            flow.ack = next;
        }
    }
}

/// Why a datagram is not sent.
#[derive(Clone, Copy, Debug, PartialEq, Eq, Structural)]
pub enum RawSendError {
    /// The datagram is longer than a segment may carry.
    PayloadTooLarge { len: usize, max: usize },
}

/// One end of a flow: whom it joins, and where it stands.
#[derive(Clone, Copy, Debug)]
pub struct TcpRawFlow {
    pub src_ip: [u8; 4],
    pub dst_ip: [u8; 4],
    pub src_port: u16,
    pub dst_port: u16,
    pub state: TcpFlowState,
}

/// The payload of a received segment that goes to the reader: data marked as
/// pushed, and not empty.
pub open spec fn delivered(seg: SegmentFields) -> Option<Seq<u8>> {
    if seg.psh && seg.payload.len() > 0 {
        Some(seg.payload)
    } else {
        None
    }
}

/// The payload to hand to the reader, if there is one.
pub fn deliver(seg: &TcpSegmentView<'_>) -> (payload: Option<Vec<u8>>)
    ensures
        match payload {
            Some(p) => delivered(seg@) == Some(p@),
            None => delivered(seg@) is None,
        },
{
    if !seg.psh || seg.payload.is_empty() {
        return None;
    }
    Some(vstd::slice::slice_to_vec(seg.payload))
}

impl TcpRawFlow {
    /// The segment that sends `buf` at the time `now_ms`, or why it cannot be
    /// sent. The flow moves on only once the segment is out.
    pub fn raw_segment(&self, buf: &[u8], now_ms: u64) -> (r: Result<Vec<u8>, RawSendError>)
        ensures
            buf@.len() > MAX_PAYLOAD ==> r == Err::<Vec<u8>, RawSendError>(
                RawSendError::PayloadTooLarge { len: buf@.len() as usize, max: MAX_PAYLOAD },
            ),
            buf@.len() <= MAX_PAYLOAD ==> r is Ok && r->Ok_0@ == segment(
                self.src_ip@,
                self.dst_ip@,
                self.src_port,
                self.dst_port,
                self.state.seq,
                self.state.ack,
                (now_ms % 0x1_0000_0000) as u32,
                self.state.ts_ecr,
                buf@,
            ),
    {
        if buf.len() > MAX_PAYLOAD {
            return Err(RawSendError::PayloadTooLarge { len: buf.len(), max: MAX_PAYLOAD });
        }
        let ts_val: u32 = (now_ms % 0x1_0000_0000) as u32;
        proof {
            lemma_segment_sum_fits(
                self.src_ip@,
                self.dst_ip@,
                self.src_port,
                self.dst_port,
                self.state.seq,
                self.state.ack,
                ts_val,
                self.state.ts_ecr,
                buf@,
            );
        }
        Ok(
            build_tcp_segment(
                &self.src_ip,
                &self.dst_ip,
                self.src_port,
                self.dst_port,
                self.state.seq,
                self.state.ack,
                ts_val,
                self.state.ts_ecr,
                buf,
            ),
        )
    }

    /// Moves on over `n` bytes of payload that were sent.
    pub fn segment_sent(&mut self, n: usize)
        requires
            n <= MAX_PAYLOAD,
        ensures
            *final(self) == (TcpRawFlow {
                state: TcpFlowState { seq: add32(old(self).state.seq, n as nat), ..old(self).state },
                ..*old(self)
            }),
    {
        self.state.seq = self.state.seq.wrapping_add(n as u32);
    }

    /// Takes in a packet that the raw socket of a client received. Only what
    /// the peer sent to this flow counts: a raw socket also delivers this
    /// end's own segments, and those of other flows.
    pub fn client_capture(&mut self, pkt: &[u8]) -> (payload: Option<Vec<u8>>)
        ensures
            ({
                let seg = parsed(pkt@);
                if seg is Some && seg->0.dst_port == old(self).src_port && seg->0.src_port == old(
                    self,
                ).dst_port {
                    &&& *final(self) == (TcpRawFlow {
                        state: flow_after(old(self).state, seg->0),
                        ..*old(self)
                    })
                    &&& match payload {
                        Some(p) => delivered(seg->0) == Some(p@),
                        None => delivered(seg->0) is None,
                    }
                } else {
                    *final(self) == *old(self) && payload is None
                }
            }),
    {
        match parse_tcp_segment(pkt) {
            None => None,
            Some(seg) => {
                if seg.dst_port != self.src_port || seg.src_port != self.dst_port {
                    return None;
                }
                update_flow_from_segment(&mut self.state, &seg);
                deliver(&seg)
            },
        }
    }
}

/// The number by which a server finds the flow of a peer: its address and port.
pub open spec fn peer_key(ip: Seq<u8>, port: u16) -> u64 {
    (crate::wire::be_value(ip) * 0x1_0000 + port) as u64
}

/// A server's flows, by peer.
pub struct TcpRawServer {
    pub local_port: u16,
    pub flows: HashMap<u64, TcpFlowState>,
}

impl TcpRawServer {
    /// A server without flows on a port.
    pub fn new(local_port: u16) -> (s: Self)
        ensures
            s.local_port == local_port,
            s.flows@ == Map::<u64, TcpFlowState>::empty(),
    {
        TcpRawServer { local_port, flows: HashMap::new() }
    }

    /// Takes in a packet that the raw socket received from `peer_ip`. A
    /// segment to this server's port updates the flow of its sender, if there
    /// is one; the payload comes back with the sender's key.
    pub fn server_capture(&mut self, peer_ip: &[u8; 4], pkt: &[u8]) -> (r: Option<(u64, Vec<u8>)>)
        ensures
            final(self).local_port == old(self).local_port,
            ({
                let seg = parsed(pkt@);
                if seg is Some && seg->0.dst_port == old(self).local_port {
                    let key = peer_key(peer_ip@, seg->0.src_port);
                    let flows = old(self).flows@;
                    &&& final(self).flows@ == (if flows.contains_key(key) {
                        flows.insert(key, flow_after(flows[key], seg->0))
                    } else {
                        flows
                    })
                    &&& match r {
                        Some(d) => d.0 == key && delivered(seg->0) == Some(d.1@),
                        None => delivered(seg->0) is None,
                    }
                } else {
                    final(self).flows@ == old(self).flows@ && r is None
                }
            }),
    {
        broadcast use vstd::std_specs::hash::group_hash_axioms;

        match parse_tcp_segment(pkt) {
            None => None,
            Some(seg) => {
                if seg.dst_port != self.local_port {
                    return None;
                }
                let ip: u32 = read_be32(peer_ip.as_slice(), 0);
                assert(peer_ip@.subrange(0, 4) =~= peer_ip@);
                let key: u64 = ip as u64 * 0x1_0000 + seg.src_port as u64;
                match self.flows.remove(&key) {
                    Some(f) => {
                        let mut flow: TcpFlowState = f;
                        update_flow_from_segment(&mut flow, &seg);
                        self.flows.insert(key, flow);
                        assert(self.flows@ =~= old(self).flows@.insert(key, flow));
                    },
                    None => {
                        assert(self.flows@ =~= old(self).flows@);
                    },
                }
                match deliver(&seg) {
                    Some(p) => Some((key, p)),
                    None => None,
                }
            },
        }
    }
}

/// Two ends stay in step: where the receiver expects the sender's next
/// sequence number (or has seen nothing yet), it expects the one after the
/// payload once the segment is in, and the sender stands there once it is out.
/// The receiver's own numbers follow the sender's acknowledgement.
pub proof fn law_flows_stay_in_step(
    sender: TcpFlowState,
    receiver: TcpFlowState,
    src_port: u16,
    dst_port: u16,
    ts_val: u32,
    payload: Seq<u8>,
)
    requires
        0 < payload.len() <= MAX_PAYLOAD,
        receiver.ack == sender.seq || receiver.ack == 0,
    ensures
        ({
            let seg = SegmentFields {
                src_port,
                dst_port,
                seq: sender.seq,
                ack: sender.ack,
                ack_flag: true,
                psh: true,
                syn: false,
                fin: false,
                ts_val: Some(ts_val),
                payload,
            };
            let sender2 = TcpFlowState { seq: add32(sender.seq, payload.len()), ..sender };
            flow_after(receiver, seg) == (TcpFlowState {
                seq: sender.ack,
                ack: sender2.seq,
                ts_ecr: ts_val,
            })
        }),
{
}

} // verus!
