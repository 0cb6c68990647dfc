//! What segments and batches are for, stated over what calls take and give.

use crate::kio::signal::{sigusr1_received, SignalFlag};
use crate::kio::net::{received_batch, try_send_batch, BatchEvent, BatchSend, BatchStep};
use crate::kio::tcpraw::{
    build_tcp_segment, deliver, extract_ts_val, ones_complement_sum, parse_tcp_segment, tcp_checksum,
    update_flow_from_segment, RawSendError, TcpFlowState, TcpRawFlow, TcpRawServer, TcpSegmentView,
};
use vstd::prelude::*;

verus! {

/// The four bytes at `i` write `v`, highest first.
pub open spec fn writes32(s: Seq<u8>, i: int, v: u32) -> bool {
    0x100_0000 * s[i] + 0x1_0000 * s[i + 1] + 256 * s[i + 2] + s[i + 3] == v
}

/// A segment that is built, byte by byte: ports, numbers, a header of eight words
/// with ACK and PSH set, the full window, the checksum, no urgent data, two
/// fillers and the timestamps, and then the payload.
pub proof fn law_segment_byte_by_byte(
    src_ip: &[u8; 4],
    dst_ip: &[u8; 4],
    src_port: u16,
    dst_port: u16,
    seq: u32,
    ack: u32,
    ts_val: u32,
    ts_ecr: u32,
    payload: &[u8],
    pkt: Vec<u8>,
)
    requires
        call_ensures(
            build_tcp_segment,
            (src_ip, dst_ip, src_port, dst_port, seq, ack, ts_val, ts_ecr, payload),
            pkt,
        ),
    ensures
        pkt@.len() == 32 + payload@.len(),
        256 * pkt@[0] + pkt@[1] == src_port,
        256 * pkt@[2] + pkt@[3] == dst_port,
        writes32(pkt@, 4, seq),
        writes32(pkt@, 8, ack),
        pkt@[12] == 128,
        pkt@[13] == 16 + 8,
        pkt@[14] == 255 && pkt@[15] == 255,
        pkt@[18] == 0 && pkt@[19] == 0,
        pkt@[20] == 1 && pkt@[21] == 1,
        pkt@[22] == 8 && pkt@[23] == 10,
        writes32(pkt@, 24, ts_val),
        writes32(pkt@, 28, ts_ecr),
        pkt@.skip(32) == payload@,
{
    let csum = crate::kio::tcpraw::checksum(
        src_ip@,
        dst_ip@,
        crate::kio::tcpraw::segment_with(
            src_port,
            dst_port,
            seq,
            ack,
            0,
            ts_val,
            ts_ecr,
            payload@,
        ),
    );
    lemma_segment_bytes(csum, src_port, dst_port, seq, ack, ts_val, ts_ecr, payload@, pkt@);
}

proof fn lemma_writes32(s: Seq<u8>, i: int, v: u32)
    requires
        0 <= i,
        i + 4 <= s.len(),
        s.subrange(i, i + 4) == crate::wire::be_bytes(v as nat, 4),
    ensures
        writes32(s, i, v),
{
    crate::wire::lemma_be_bytes_4(v as nat);
    let t = s.subrange(i, i + 4);
    assert(t[0] == s[i] && t[1] == s[i + 1] && t[2] == s[i + 2] && t[3] == s[i + 3]);
}

proof fn lemma_front_bytes(src_port: u16, dst_port: u16, seq: u32, ack: u32, f: Seq<u8>)
    requires
        f == crate::kio::tcpraw::header_front(src_port, dst_port, seq, ack),
    ensures
        f.len() == 16,
        256 * f[0] + f[1] == src_port,
        256 * f[2] + f[3] == dst_port,
        writes32(f, 4, seq),
        writes32(f, 8, ack),
        f[12] == 128,
        f[13] == 24,
        f[14] == 255,
        f[15] == 255,
{
    crate::wire::lemma_be_bytes_2(src_port as nat);
    crate::wire::lemma_be_bytes_2(dst_port as nat);
    crate::wire::lemma_be_bytes_2(65535);
    crate::wire::lemma_be_bytes_4(seq as nat);
    crate::wire::lemma_be_bytes_4(ack as nat);
    assert(f.subrange(4, 8) =~= crate::wire::be_bytes(seq as nat, 4));
    assert(f.subrange(8, 12) =~= crate::wire::be_bytes(ack as nat, 4));
    lemma_writes32(f, 4, seq);
    lemma_writes32(f, 8, ack);
}

proof fn lemma_back_bytes(ts_val: u32, ts_ecr: u32, b: Seq<u8>)
    requires
        b == crate::kio::tcpraw::header_back(ts_val, ts_ecr),
    ensures
        b.len() == 14,
        b[0] == 0 && b[1] == 0 && b[2] == 1 && b[3] == 1 && b[4] == 8 && b[5] == 10,
        writes32(b, 6, ts_val),
        writes32(b, 10, ts_ecr),
{
    crate::wire::lemma_be_bytes_4(ts_val as nat);
    crate::wire::lemma_be_bytes_4(ts_ecr as nat);
    assert(b.subrange(6, 10) =~= crate::wire::be_bytes(ts_val as nat, 4));
    assert(b.subrange(10, 14) =~= crate::wire::be_bytes(ts_ecr as nat, 4));
    lemma_writes32(b, 6, ts_val);
    lemma_writes32(b, 10, ts_ecr);
}

proof fn lemma_segment_bytes(
    csum: u16,
    src_port: u16,
    dst_port: u16,
    seq: u32,
    ack: u32,
    ts_val: u32,
    ts_ecr: u32,
    payload: Seq<u8>,
    s: Seq<u8>,
)
    requires
        s == crate::kio::tcpraw::segment_with(
            src_port,
            dst_port,
            seq,
            ack,
            csum,
            ts_val,
            ts_ecr,
            payload,
        ),
    ensures
        s.len() == 32 + payload.len(),
        256 * s[0] + s[1] == src_port,
        256 * s[2] + s[3] == dst_port,
        writes32(s, 4, seq),
        writes32(s, 8, ack),
        s[12] == 128,
        s[13] == 24,
        s[14] == 255 && s[15] == 255,
        s[18] == 0 && s[19] == 0,
        s[20] == 1 && s[21] == 1,
        s[22] == 8 && s[23] == 10,
        writes32(s, 24, ts_val),
        writes32(s, 28, ts_ecr),
        s.skip(32) == payload,
{
    let f = crate::kio::tcpraw::header_front(src_port, dst_port, seq, ack);
    let b = crate::kio::tcpraw::header_back(ts_val, ts_ecr);
    lemma_front_bytes(src_port, dst_port, seq, ack, f);
    lemma_back_bytes(ts_val, ts_ecr, b);
    crate::wire::lemma_be_bytes_2(csum as nat);
    assert(forall|i: int| 0 <= i < 16 ==> #[trigger] s[i] == f[i]);
    assert(forall|i: int| 18 <= i < 32 ==> #[trigger] s[i] == b[i - 18]);
    assert(s.skip(32) =~= payload);
}

/// `s` with a zero behind it where its length is odd.
pub open spec fn evened(s: Seq<u8>) -> Seq<u8> {
    if s.len() % 2 == 0 {
        s
    } else {
        s + seq![0u8]
    }
}

proof fn lemma_sum_is_value(s: Seq<u8>)
    requires
        s.len() % 2 == 0,
    ensures
        (crate::wire::be_value(s) - crate::kio::tcpraw::word_sum(s)) % 65535 == 0,
    decreases s.len(),
{
    if s.len() > 0 {
        let n = s.len() as int;
        let front = s.take(n - 2);
        let last = seq![s[n - 2], s[n - 1]];
        lemma_sum_is_value(front);
        assert(s =~= front + last);
        crate::kio::tcpraw::lemma_word_sum_concat(front, last);
        assert(crate::kio::tcpraw::word_sum(last) == last[0] * 256 + last[1]) by {
            reveal_with_fuel(crate::kio::tcpraw::word_sum, 2);
            assert(last.skip(2) =~= Seq::<u8>::empty());
        }
        assert(s.drop_last().drop_last() =~= front);
        reveal_with_fuel(crate::wire::be_value, 3);
        let b = crate::wire::be_value(front) as int;
        let w = crate::kio::tcpraw::word_sum(front) as int;
        assert(crate::wire::be_value(s) == b * 65536 + last[0] * 256 + last[1]);
        assert(crate::kio::tcpraw::word_sum(s) == w + (last[0] * 256 + last[1]));
    }
}

proof fn lemma_sum_of_evened(s: Seq<u8>)
    ensures
        crate::kio::tcpraw::word_sum(evened(s)) == crate::kio::tcpraw::word_sum(s),
{
    if s.len() % 2 == 1 {
        let n = s.len() as int;
        let front = s.take(n - 1);
        let one = seq![s[n - 1]];
        let two = seq![s[n - 1], 0u8];
        assert(s =~= front + one);
        assert(evened(s) =~= front + two);
        crate::kio::tcpraw::lemma_word_sum_concat(front, one);
        crate::kio::tcpraw::lemma_word_sum_concat(front, two);
        reveal_with_fuel(crate::kio::tcpraw::word_sum, 2);
        assert(two.skip(2) =~= Seq::<u8>::empty());
    }
}

/// What stands before a segment where it is summed up: the addresses, the
/// protocol and the length.
pub open spec fn summed(src_ip: Seq<u8>, dst_ip: Seq<u8>, s: Seq<u8>) -> Seq<u8> {
    evened(
        src_ip + dst_ip + seq![0u8, 6u8, (s.len() / 256 % 256) as u8, (s.len() % 256) as u8] + s,
    )
}

/// The checksum makes up the number that the segment and what is summed with it
/// write to a multiple of 65535, and is the least that does.
pub proof fn law_checksum_makes_up_the_sum(
    src_ip: &[u8; 4],
    dst_ip: &[u8; 4],
    segment: &[u8],
    csum: u16,
)
    requires
        call_ensures(tcp_checksum, (src_ip, dst_ip, segment), csum),
    ensures
        (crate::wire::be_value(summed(src_ip@, dst_ip@, segment@)) + csum) % 65535 == 0,
        csum < 65535,
{
    let s = segment@;
    let pre = crate::kio::tcpraw::pseudo_header(src_ip@, dst_ip@, s.len());
    let len = s.len() % 0x1_0000;
    crate::wire::lemma_be_bytes_2(len);
    assert(len / 256 == s.len() / 256 % 256);
    assert(len % 256 == s.len() % 256);
    let whole = summed(src_ip@, dst_ip@, s);
    assert(evened(pre + s) =~= whole);
    lemma_sum_of_evened(pre + s);
    lemma_sum_is_value(whole);
    let total = crate::kio::tcpraw::word_sum(pre + s);
    assert(total > 0) by {
        let ips = src_ip@ + dst_ip@;
        let tail = seq![0u8, 6u8] + crate::wire::be_bytes(len, 2) + s;
        assert(pre + s =~= ips + tail);
        crate::kio::tcpraw::lemma_word_sum_concat(ips, tail);
        assert(tail[1] == 6);
    }
    assert(csum == 65535 - crate::kio::tcpraw::end_around(total));
    let v = crate::wire::be_value(whole) as int;
    assert((v - total) % 65535 == 0);
    assert((total + csum) % 65535 == 0);
}

/// A receiver who sums up a segment that was built, checksum included, finds a
/// multiple of 65535.
#[verifier::spinoff_prover]
#[verifier::rlimit(40)]
pub proof fn law_built_segment_sums_up(
    src_ip: &[u8; 4],
    dst_ip: &[u8; 4],
    src_port: u16,
    dst_port: u16,
    seq: u32,
    ack: u32,
    ts_val: u32,
    ts_ecr: u32,
    payload: &[u8],
    pkt: Vec<u8>,
)
    requires
        call_ensures(
            build_tcp_segment,
            (src_ip, dst_ip, src_port, dst_port, seq, ack, ts_val, ts_ecr, payload),
            pkt,
        ),
    ensures
        crate::wire::be_value(summed(src_ip@, dst_ip@, pkt@)) % 65535 == 0,
{
    let s = pkt@;
    crate::kio::tcpraw::law_checksum_verifies(
        src_ip@,
        dst_ip@,
        src_port,
        dst_port,
        seq,
        ack,
        ts_val,
        ts_ecr,
        payload@,
    );
    let pre = crate::kio::tcpraw::pseudo_header(src_ip@, dst_ip@, s.len());
    let len = s.len() % 0x1_0000;
    crate::wire::lemma_be_bytes_2(len);
    assert(len / 256 == s.len() / 256 % 256);
    assert(len % 256 == s.len() % 256);
    let whole = summed(src_ip@, dst_ip@, s);
    assert(evened(pre + s) =~= whole);
    lemma_sum_of_evened(pre + s);
    lemma_sum_is_value(whole);
    let total = crate::kio::tcpraw::word_sum(pre + s) as int;
    assert(crate::kio::tcpraw::end_around(total as nat) == 65535);
    assert(total % 65535 == 0);
    let v = crate::wire::be_value(whole) as int;
    assert((v - total) % 65535 == 0);
}

/// A received packet: where its first half byte is 4 and its tenth byte 6, the
/// segment begins behind as many words as the second half byte says; its own
/// header is as many words long as its thirteenth byte says. Ports and numbers
/// are read from their places, the flags from their bits, and the payload is
/// what stands behind the header.
#[verifier::spinoff_prover]
pub proof fn law_packet_is_read_byte_by_byte(
    buf: &[u8],
    seg: Option<TcpSegmentView<'_>>,
    ip: Seq<u8>,
    header: Seq<u8>,
    payload: Seq<u8>,
    words: int,
    low: int,
    high: int,
    ack: bool,
    psh: bool,
    rst: bool,
    syn: bool,
    fin: bool,
)
    requires
        call_ensures(parse_tcp_segment, (buf,), seg),
        buf@.len() >= 40,
        buf@ == ip + (header + payload),
        ip.len() == 0 ==> !(64 <= buf@[0] < 80 && buf@[9] == 6),
        ip.len() > 0 ==> 20 <= ip.len() && 4 * (buf@[0] - 64) == ip.len() && buf@[0] < 80 && buf@[9]
            == 6,
        header.len() == 4 * words,
        header.len() >= 20,
        0 <= low < 16,
        header[12] == 16 * words + low,
        0 <= high < 8,
        header[13] == 32 * high + (if ack { 16int } else { 0 }) + (if psh { 8int } else { 0 }) + (
        if rst { 4int } else { 0 }) + (if syn { 2int } else { 0 }) + (if fin { 1int } else { 0 }),
    ensures
        seg is Some,
        ({
            let v = seg->0;
            &&& v.src_port == 256 * header[0] + header[1]
            &&& v.dst_port == 256 * header[2] + header[3]
            &&& writes32(header, 4, v.seq)
            &&& writes32(header, 8, v.ack)
            &&& v.ack_flag == ack
            &&& v.psh == psh
            &&& v.syn == syn
            &&& v.fin == fin
            &&& v.payload@ == payload
        }),
{
    let tcp = header + payload;
    let start = ip.len() as int;
    assert(buf@.skip(start) =~= tcp);
    assert(crate::kio::tcpraw::tcp_start(buf@) == start);
    lemma_flag_bits(header[13], high, ack, psh, rst, syn, fin);
    lemma_fields(header, payload);
    assert(tcp[12] / 16 == words);
    assert(tcp.skip(4 * words) =~= payload);
}

proof fn lemma_flag_bits(
    b: u8,
    high: int,
    ack: bool,
    psh: bool,
    rst: bool,
    syn: bool,
    fin: bool,
)
    requires
        0 <= high < 8,
        b == 32 * high + (if ack { 16int } else { 0 }) + (if psh { 8int } else { 0 }) + (if rst {
            4int
        } else {
            0
        }) + (if syn { 2int } else { 0 }) + (if fin { 1int } else { 0 }),
    ensures
        (b / 16 % 2 == 1) == ack,
        (b / 8 % 2 == 1) == psh,
        (b / 2 % 2 == 1) == syn,
        (b % 2 == 1) == fin,
{
}

proof fn lemma_fields(header: Seq<u8>, payload: Seq<u8>)
    requires
        header.len() >= 20,
    ensures
        ({
            let tcp = header + payload;
            &&& crate::wire::be_value(tcp.subrange(0, 2)) == 256 * header[0] + header[1]
            &&& crate::wire::be_value(tcp.subrange(2, 4)) == 256 * header[2] + header[3]
            &&& crate::wire::be_value(tcp.subrange(4, 8)) <= u32::MAX
            &&& crate::wire::be_value(tcp.subrange(8, 12)) <= u32::MAX
            &&& writes32(header, 4, crate::wire::be_value(tcp.subrange(4, 8)) as u32)
            &&& writes32(header, 8, crate::wire::be_value(tcp.subrange(8, 12)) as u32)
            &&& tcp[12] == header[12]
            &&& tcp[13] == header[13]
        }),
{
    let tcp = header + payload;
    crate::wire::lemma_be_value_2(header[0], header[1]);
    crate::wire::lemma_be_value_2(header[2], header[3]);
    crate::wire::lemma_be_value_4(header[4], header[5], header[6], header[7]);
    crate::wire::lemma_be_value_4(header[8], header[9], header[10], header[11]);
    assert(tcp.subrange(0, 2) =~= seq![header[0], header[1]]);
    assert(tcp.subrange(2, 4) =~= seq![header[2], header[3]]);
    assert(tcp.subrange(4, 8) =~= seq![header[4], header[5], header[6], header[7]]);
    assert(tcp.subrange(8, 12) =~= seq![header[8], header[9], header[10], header[11]]);
}

/// What is too short for its headers is no segment.
pub proof fn law_short_packets_are_no_segments(buf: &[u8], seg: Option<TcpSegmentView<'_>>)
    requires
        call_ensures(parse_tcp_segment, (buf,), seg),
    ensures
        buf@.len() < 40 ==> seg is None,
        buf@.len() >= 40 && 64 <= buf@[0] < 69 && buf@[9] == 6 ==> seg is None,
        buf@.len() >= 40 && 69 <= buf@[0] < 80 && buf@[9] == 6 && 4 * (buf@[0] - 64) + 20
            > buf@.len() ==> seg is None,
        buf@.len() >= 40 && !(64 <= buf@[0] < 80 && buf@[9] == 6) && buf@[12] < 80 ==> seg is None,
{
    assert(buf@.skip(0) =~= buf@);
}

proof fn lemma_options_from(options: Seq<u8>, i: int)
    requires
        0 <= i <= options.len(),
    ensures
        crate::kio::tcpraw::ts_option(options, i) == crate::kio::tcpraw::ts_option(
            options.skip(i),
            0,
        ),
{
    lemma_options_shifted(options, i, 0);
}

proof fn lemma_options_shifted(options: Seq<u8>, i: int, j: int)
    requires
        0 <= i <= options.len(),
        0 <= j <= options.len() - i,
    ensures
        crate::kio::tcpraw::ts_option(options, i + j) == crate::kio::tcpraw::ts_option(
            options.skip(i),
            j,
        ),
    decreases options.len() - i - j,
{
    let s = options.skip(i);
    if j + 1 < s.len() {
        if s[j] <= 1 {
            lemma_options_shifted(options, i, j + 1);
        } else {
            let len = s[j + 1] as int;
            if len >= 2 && j + len <= s.len() {
                lemma_options_shifted(options, i, j + len);
                if s[j] == 8 && len == 10 {
                    assert(s.subrange(j + 2, j + 6) =~= options.subrange(i + j + 2, i + j + 6));
                }
            }
        }
    }
}

/// Options are passed over one by one: the fillers 0 and 1 are single bytes, any
/// other option is as long as its second byte says.
pub proof fn law_options_are_passed_over(
    options: &[u8],
    ts: Option<u32>,
    rest: &[u8],
    later: Option<u32>,
    kind: u8,
    body: Seq<u8>,
)
    requires
        call_ensures(extract_ts_val, (options,), ts),
        call_ensures(extract_ts_val, (rest,), later),
    ensures
        kind <= 1 && options@ == seq![kind] + rest@ ==> ts == later,
        kind > 1 && kind != 8 && body.len() <= 253 && options@ == seq![
            kind,
            (body.len() + 2) as u8,
        ] + body + rest@ ==> ts == later,
        body.len() <= 253 && body.len() != 8 && options@ == seq![8u8, (body.len() + 2) as u8] + body
            + rest@ ==> ts == later,
        kind > 1 && options@.len() >= 2 && options@[0] == kind && options@[1] < 2 ==> ts is None,
        kind > 1 && options@.len() >= 2 && options@[0] == kind && options@[1] > options@.len()
            ==> ts is None,
        options@.len() < 2 ==> ts is None,
{
    let o = options@;
    if kind <= 1 && o == seq![kind] + rest@ {
        lemma_options_from(o, 1);
        assert(o.skip(1) =~= rest@);
        if rest@.len() == 0 {
            assert(o.len() == 1);
        }
    }
    let n = body.len() + 2;
    if body.len() <= 253 && (o == seq![kind, n as u8] + body + rest@ || o == seq![8u8, n as u8]
        + body + rest@) {
        lemma_options_from(o, n as int);
        assert(o.skip(n as int) =~= rest@);
        assert(o[1] == n);
    }
}

/// The timestamp is the first number of the option that is 8 and ten bytes long.
pub proof fn law_timestamp_is_found(
    options: &[u8],
    ts: Option<u32>,
    val: u32,
    echo: Seq<u8>,
    rest: Seq<u8>,
)
    requires
        call_ensures(extract_ts_val, (options,), ts),
        echo.len() == 4,
        options@.len() == 10 + rest.len(),
        options@[0] == 8,
        options@[1] == 10,
        writes32(options@, 2, val),
        options@.skip(6) == echo + rest,
    ensures
        ts == Some(val),
{
    let o = options@;
    crate::wire::lemma_be_value_4(o[2], o[3], o[4], o[5]);
    assert(o.subrange(2, 6) =~= seq![o[2], o[3], o[4], o[5]]);
}

/// A flow follows its peer: an acknowledgement says what is sent next; a
/// timestamp is echoed; and what was expected next is acknowledged up to behind
/// its last byte, with one more for each of SYN and FIN, counting round.
pub proof fn law_flow_follows_its_peer(flow: &mut TcpFlowState, seg: &TcpSegmentView<'_>, n: int)
    requires
        call_ensures(update_flow_from_segment, (flow, seg), ()),
        n == seg.payload@.len() + (if seg.syn { 1int } else { 0 }) + (if seg.fin { 1int } else {
            0
        }),
        n < 0x1_0000_0000,
    ensures
        seg.ack_flag ==> final(flow).seq == seg.ack,
        !seg.ack_flag ==> final(flow).seq == old(flow).seq,
        seg.ts_val is Some ==> final(flow).ts_ecr == seg.ts_val->0,
        seg.ts_val is None ==> final(flow).ts_ecr == old(flow).ts_ecr,
        n > 0 && (old(flow).ack == seg.seq || old(flow).ack == 0) && seg.seq + n < 0x1_0000_0000
            ==> final(flow).ack - seg.seq == n,
        n > 0 && (old(flow).ack == seg.seq || old(flow).ack == 0) && seg.seq + n >= 0x1_0000_0000
            ==> final(flow).ack + 0x1_0000_0000 - seg.seq == n,
        n == 0 || (old(flow).ack != seg.seq && old(flow).ack != 0) ==> final(flow).ack == old(flow).ack,
{
}

/// What is sent is the segment of the flow's own ends and numbers, with the
/// clock's lowest 32 bits as timestamp; a datagram of more than 1400 bytes is
/// not sent; and what went out moves the flow on by its bytes, counting round.
pub proof fn law_flow_sends_its_own_segments(
    f: &TcpRawFlow,
    buf: &[u8],
    now_ms: u64,
    r: Result<Vec<u8>, RawSendError>,
    ts: u32,
    turns: int,
    pkt: Vec<u8>,
    g: &mut TcpRawFlow,
    n: usize,
)
    requires
        call_ensures(TcpRawFlow::raw_segment, (f, buf, now_ms), r),
        now_ms == 0x1_0000_0000 * turns + ts,
        call_ensures(
            build_tcp_segment,
            (
                &f.src_ip,
                &f.dst_ip,
                f.src_port,
                f.dst_port,
                f.state.seq,
                f.state.ack,
                ts,
                f.state.ts_ecr,
                buf,
            ),
            pkt,
        ),
        n <= 1400,
        call_ensures(TcpRawFlow::segment_sent, (g, n), ()),
    ensures
        buf@.len() > 1400 ==> r is Err,
        buf@.len() <= 1400 ==> r is Ok && r->Ok_0@ == pkt@,
        old(g).state.seq + n < 0x1_0000_0000 ==> final(g).state.seq - old(g).state.seq == n,
        old(g).state.seq + n >= 0x1_0000_0000 ==> final(g).state.seq + 0x1_0000_0000 - old(g).state.seq == n,
        final(g).state.ack == old(g).state.ack && final(g).state.ts_ecr == old(g).state.ts_ecr,
        final(g).src_port == old(g).src_port && final(g).dst_port == old(g).dst_port,
{
    assert(now_ms % 0x1_0000_0000 == ts);
}

/// A client takes in what its peer sent to it, and nothing else; data that is
/// marked as pushed goes to the reader.
pub proof fn law_client_takes_in_its_peers_segments(
    f: &mut TcpRawFlow,
    pkt: &[u8],
    payload: Option<Vec<u8>>,
    seg: Option<TcpSegmentView<'_>>,
    state: &mut TcpFlowState,
)
    requires
        call_ensures(TcpRawFlow::client_capture, (f, pkt), payload),
        call_ensures(parse_tcp_segment, (pkt,), seg),
        *old(state) == old(f).state,
        seg is Some ==> call_ensures(update_flow_from_segment, (state, &seg->0), ()),
    ensures
        ({
            let own = seg is Some && seg->0.src_port == old(f).dst_port && seg->0.dst_port == old(f).src_port;
            &&& !own ==> payload is None && *final(f) == *old(f)
            &&& own ==> final(f).state == *final(state)
            &&& own && seg->0.psh && seg->0.payload@.len() > 0 ==> payload is Some && payload->0@
                == seg->0.payload@
            &&& own && !(seg->0.psh && seg->0.payload@.len() > 0) ==> payload is None
        }),
{
}

/// A server takes in what is sent to its port, from whomever, and tells peers
/// apart by their address and port.
pub proof fn law_server_tells_its_peers_apart(
    s: &mut TcpRawServer,
    ip: &[u8; 4],
    pkt: &[u8],
    r: Option<(u64, Vec<u8>)>,
    seg: Option<TcpSegmentView<'_>>,
    key: u64,
)
    requires
        call_ensures(TcpRawServer::server_capture, (s, ip, pkt), r),
        call_ensures(parse_tcp_segment, (pkt,), seg),
        seg is Some ==> key == 0x100_0000_0000 * ip@[0] + 0x1_0000_0000 * ip@[1] + 0x100_0000
            * ip@[2] + 0x1_0000 * ip@[3] + seg->0.src_port,
    ensures
        ({
            let own = seg is Some && seg->0.dst_port == old(s).local_port;
            &&& !own ==> r is None && final(s).flows@ == old(s).flows@
            &&& own && seg->0.psh && seg->0.payload@.len() > 0 ==> r is Some && (r->0).0 == key
                && (r->0).1@ == seg->0.payload@
            &&& own && !(seg->0.psh && seg->0.payload@.len() > 0) ==> r is None
            &&& own && !old(s).flows@.contains_key(key) ==> final(s).flows@ == old(s).flows@
            &&& own ==> final(s).flows@.remove(key) == old(s).flows@.remove(key)
            &&& own && seg->0.ack_flag && old(s).flows@.contains_key(key) ==> final(s).flows@.contains_key(key) && final(s).flows@[key].seq == seg->0.ack
        }),
        final(s).local_port == old(s).local_port,
{
    crate::wire::lemma_be_value_4(ip@[0], ip@[1], ip@[2], ip@[3]);
    assert(ip@ =~= seq![ip@[0], ip@[1], ip@[2], ip@[3]]);
    if seg is Some {
        assert(crate::kio::tcpraw::peer_key(ip@, seg->0.src_port) == key);
        let flows = old(s).flows@;
        if flows.contains_key(key) {
            let f = crate::kio::tcpraw::flow_after(flows[key], seg->0@);
            assert(flows.insert(key, f).remove(key) =~= flows.remove(key));
        }
    }
}

/// Only data that is marked as pushed goes to a reader, whole.
pub proof fn law_pushed_data_is_delivered(seg: &TcpSegmentView<'_>, p: Option<Vec<u8>>)
    requires
        call_ensures(deliver, (seg,), p),
    ensures
        p is Some == (seg.psh && seg.payload@.len() > 0),
        p is Some ==> p->0@ == seg.payload@,
{
}

/// A batch goes out from its first datagram to its last: what was sent counts
/// once; a socket that takes none is waited for with the next one; and it is done
/// when all have been sent, and not before.
pub proof fn law_batch_goes_on_behind_what_was_sent(
    total: usize,
    start: (BatchSend, BatchStep),
    b: &mut BatchSend,
    event: BatchEvent,
    step: BatchStep,
    c: &mut BatchSend,
    ok: bool,
    one: BatchStep,
)
    requires
        call_ensures(BatchSend::start, (total,), start),
        call_ensures(BatchSend::tried, (b, event), step),
        call_ensures(BatchSend::one_done, (c, ok), one),
        old(b).offset < old(b).total,
        old(c).offset < old(c).total,
        event matches BatchEvent::Sent(n) ==> old(b).offset + n <= old(b).total,
    ensures
        start.0.offset == 0 && start.0.total == total,
        total == 0 ==> start.1 == BatchStep::Done,
        total > 0 ==> start.1 == BatchStep::SendFrom(0),
        event matches BatchEvent::Sent(n) ==> final(b).offset - old(b).offset == n && (n > 0
            && final(b).offset < old(b).total ==> step == BatchStep::SendFrom(final(b).offset)) && (
        n > 0 && final(b).offset == old(b).total ==> step == BatchStep::Done) && (n == 0 ==> step
            == BatchStep::SendOne(old(b).offset)),
        event == BatchEvent::WouldBlock ==> step == BatchStep::SendOne(old(b).offset)
            && final(b).offset == old(b).offset,
        event == BatchEvent::Failed ==> step == BatchStep::Fail,
        ok ==> final(c).offset - old(c).offset == 1,
        ok && final(c).offset < old(c).total ==> one == BatchStep::SendFrom(final(c).offset),
        ok && final(c).offset == old(c).total ==> one == BatchStep::Done,
        !ok ==> one == BatchStep::Fail && final(c).offset == old(c).offset,
{
}

/// A socket that takes none at present is no failure.
pub proof fn law_full_socket_is_no_failure(event: BatchEvent, r: Option<usize>)
    requires
        call_ensures(try_send_batch, (event,), r),
    ensures
        r is None == (event == BatchEvent::Failed),
        event == BatchEvent::WouldBlock ==> r == Some(0usize),
        event matches BatchEvent::Sent(n) ==> r == Some(n),
{
}

/// Of a batch that was received each datagram whose sender is known comes out, as
/// long as it came, with its sender, behind those before it.
pub proof fn law_received_datagrams_keep_their_senders(
    bufs: &Vec<Vec<u8>>,
    lens: &Vec<(usize, Option<u64>)>,
    out: Vec<(Vec<u8>, u64)>,
    more: &Vec<(usize, Option<u64>)>,
    longer: Vec<(Vec<u8>, u64)>,
    n: usize,
    peer: Option<u64>,
)
    requires
        call_ensures(received_batch, (bufs, lens), out),
        call_ensures(received_batch, (bufs, more), longer),
        more@ == lens@.push((n, peer)),
        more@.len() <= bufs@.len(),
        n <= bufs@[lens@.len() as int]@.len(),
    ensures
        lens@.len() == 0 ==> out@.len() == 0,
        peer is None ==> crate::kio::net::datagram_views(longer@)
            == crate::kio::net::datagram_views(out@),
        peer is Some ==> longer@.len() == out@.len() + 1 && crate::kio::net::datagram_views(
            longer@,
        ).drop_last() == crate::kio::net::datagram_views(out@) && longer@.last().1 == peer->0
            && longer@.last().0@ == bufs@[lens@.len() as int]@.take(n as int),
{
    let rows = crate::wire::byte_rows(bufs@);
    assert(more@.drop_last() =~= lens@);
    let a = crate::kio::net::datagram_views(out@);
    let b = crate::kio::net::datagram_views(longer@);
    assert(a.len() == out@.len());
    assert(b.len() == longer@.len());
    if peer is Some {
        let d = (rows[lens@.len() as int].take(n as int), peer->0);
        assert(b == a.push(d));
        assert(b.drop_last() =~= a);
        assert(b.last() == (longer@.last().0@, longer@.last().1));
    }
}

/// The sum of words, with carries added back in, is the number that the bytes
/// write but for multiples of 65535, and 0 only where all are zero.
pub proof fn law_sum_is_the_number(data: &[u8], sum: u32)
    requires
        call_ensures(ones_complement_sum, (data,), sum),
    ensures
        sum <= 65535,
        (crate::wire::be_value(evened(data@)) - sum) % 65535 == 0,
        sum == 0 ==> forall|i: int| 0 <= i < data@.len() ==> #[trigger] data@[i] == 0,
{
    lemma_sum_of_evened(data@);
    lemma_sum_is_value(evened(data@));
    let total = crate::kio::tcpraw::word_sum(data@) as int;
    let v = crate::wire::be_value(evened(data@)) as int;
    assert((v - total) % 65535 == 0);
    assert((total - sum) % 65535 == 0);
    assert((v - sum) % 65535 == 0);
    if sum == 0 {
        lemma_zero_sum(data@);
    }
}

proof fn lemma_zero_sum(s: Seq<u8>)
    requires
        crate::kio::tcpraw::word_sum(s) == 0,
    ensures
        forall|i: int| 0 <= i < s.len() ==> #[trigger] s[i] == 0,
    decreases s.len(),
{
    if s.len() >= 2 {
        lemma_zero_sum(s.skip(2));
        assert forall|i: int| 0 <= i < s.len() implies #[trigger] s[i] == 0 by {
            if i >= 2 {
                assert(s.skip(2)[i - 2] == 0);
            }
        }
    }
}

/// A server begins without flows. A signal is seen once.
pub proof fn law_signal_is_seen_once(
    port: u16,
    s: TcpRawServer,
    fresh: SignalFlag,
    f: &mut SignalFlag,
    g: &mut SignalFlag,
    first: bool,
    h: &mut SignalFlag,
    second: bool,
)
    requires
        call_ensures(TcpRawServer::new, (port,), s),
        call_ensures(SignalFlag::new, (), fresh),
        call_ensures(SignalFlag::fire, (f,), ()),
        *old(g) == *final(f),
        call_ensures(sigusr1_received, (g,), first),
        *old(h) == *final(g),
        call_ensures(sigusr1_received, (h,), second),
    ensures
        s.local_port == port && s.flows@.dom().len() == 0,
        !fresh.fired,
        first,
        !second,
{
}

} // verus!
