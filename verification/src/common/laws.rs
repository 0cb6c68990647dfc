//! What the shared parts are for, stated over what calls take and give: the
//! framing of compressed streams, addresses with ranges of ports, modes, keys
//! and the statistics log.

use crate::common::multiport::{expand_addr, parse_multi_port, AddrError, HostPort};
use crate::common::snappy_frame::{SnappyStreamDecoder, SnappyStreamEncoder};
use vstd::prelude::*;

verus! {

/// The three bytes of a length, lowest first.
pub open spec fn le3(n: nat) -> Seq<u8> {
    seq![(n % 256) as u8, (n / 256 % 256) as u8, (n / 65536) as u8]
}

/// A chunk of the framing format: its kind, the length of what follows in three
/// bytes, a checksum of four bytes, and the data.
pub open spec fn chunk(kind: u8, crc: Seq<u8>, data: Seq<u8>) -> Seq<u8> {
    seq![kind] + le3(crc.len() + data.len()) + crc + data
}

/// The length of a chunk is the number in all three bytes behind its kind,
/// lowest first.
pub proof fn law_chunk_length_is_three_bytes(kind: u8, n: nat, rest: Seq<u8>)
    requires
        n < 0x100_0000,
    ensures
        crate::common::snappy_frame::chunk_len(seq![kind] + le3(n) + rest) == n,
{
    let s = seq![kind] + le3(n) + rest;
    assert(s[1] == n % 256 && s[2] == n / 256 % 256 && s[3] == n / 65536);
}

proof fn lemma_chunk(kind: u8, crc: Seq<u8>, data: Seq<u8>, rest: Seq<u8>)
    requires
        crc.len() + data.len() < 0x100_0000,
    ensures
        ({
            let s = chunk(kind, crc, data) + rest;
            let n = (crc.len() + data.len()) as int;
            &&& s.len() == 4 + n + rest.len()
            &&& s[0] == kind
            &&& crate::common::snappy_frame::chunk_len(s) == n
            &&& s.subrange(4, 4 + n) == crc + data
            &&& s.skip(4 + n) == rest
        }),
{
    let s = chunk(kind, crc, data) + rest;
    let n = (crc.len() + data.len()) as int;
    law_chunk_length_is_three_bytes(kind, n as nat, crc + data + rest);
    assert(s =~= seq![kind] + le3(n as nat) + (crc + data + rest));
    assert(s.subrange(4, 4 + n) =~= crc + data);
    assert(s.skip(4 + n) =~= rest);
}

/// A stored chunk gives its data, whatever its checksum, and then what follows
/// it gives.
pub proof fn law_stored_chunk_gives_its_data(crc: Seq<u8>, data: Seq<u8>, rest: Seq<u8>)
    requires
        crc.len() == 4,
        crc.len() + data.len() < 0x100_0000,
    ensures
        ({
            let d = crate::common::snappy_frame::decoded(true, chunk(1, crc, data) + rest);
            let later = crate::common::snappy_frame::decoded(true, rest);
            &&& d.out == data + later.out
            &&& d.hdr_ok
            &&& d.rest == later.rest
        }),
{
    lemma_chunk(1, crc, data, rest);
    assert((crc + data).skip(4) =~= data);
    lemma_header_stays(rest);
}

/// A compressed chunk gives what its block holds, or nothing where it is no
/// block, and then what follows it gives.
pub proof fn law_compressed_chunk_gives_its_block(crc: Seq<u8>, block: Seq<u8>, rest: Seq<u8>)
    requires
        crc.len() == 4,
        crc.len() + block.len() < 0x100_0000,
    ensures
        ({
            let d = crate::common::snappy_frame::decoded(true, chunk(0, crc, block) + rest);
            let later = crate::common::snappy_frame::decoded(true, rest);
            &&& crate::common::snappy_frame::snappy_block(block) matches Some(data) ==> d.out
                == data + later.out
            &&& crate::common::snappy_frame::snappy_block(block) is None ==> d.out == later.out
            &&& d.hdr_ok
            &&& d.rest == later.rest
        }),
{
    lemma_chunk(0, crc, block, rest);
    assert((crc + block).skip(4) =~= block);
    let later = crate::common::snappy_frame::decoded(true, rest);
    assert(Seq::<u8>::empty() + later.out =~= later.out);
    lemma_header_stays(rest);
}

/// A chunk of any other kind is passed over with its whole length, and so is one
/// that is too short for its checksum.
pub proof fn law_other_chunks_are_passed_over(kind: u8, body: Seq<u8>, rest: Seq<u8>)
    requires
        kind > 1 || body.len() < 4,
        body.len() < 0x100_0000,
    ensures
        crate::common::snappy_frame::decoded(
            true,
            seq![kind] + le3(body.len()) + body + rest,
        ) == crate::common::snappy_frame::decoded(true, rest),
{
    lemma_chunk(kind, Seq::empty(), body, rest);
    assert(chunk(kind, Seq::empty(), body) + rest =~= seq![kind] + le3(body.len()) + body + rest);
    let later = crate::common::snappy_frame::decoded(true, rest);
    assert(Seq::<u8>::empty() + later.out =~= later.out);
}

/// A chunk that has not come in whole gives nothing and is kept.
pub proof fn law_partial_chunk_is_kept(kind: u8, n: nat, part: Seq<u8>)
    requires
        part.len() < n < 0x100_0000,
    ensures
        crate::common::snappy_frame::decoded(true, seq![kind] + le3(n) + part)
            == (crate::common::snappy_frame::Decoded {
            out: Seq::empty(),
            hdr_ok: true,
            rest: seq![kind] + le3(n) + part,
        }),
{
    law_chunk_length_is_three_bytes(kind, n, part);
}

proof fn lemma_header_stays(s: Seq<u8>)
    ensures
        crate::common::snappy_frame::decoded(true, s).hdr_ok,
    decreases s.len(),
{
    if s.len() >= 4 && s.len() >= 4 + crate::common::snappy_frame::chunk_len(s) {
        lemma_header_stays(s.skip(4 + crate::common::snappy_frame::chunk_len(s) as int));
    }
}

/// The letters `sNaPpY` stand at `i`.
pub open spec fn letters_at(s: Seq<u8>, i: int) -> bool {
    s[i] == 0x73 && s[i + 1] == 0x4e && s[i + 2] == 0x61 && s[i + 3] == 0x50 && s[i + 4] == 0x70
        && s[i + 5] == 0x59
}

proof fn lemma_identifier(s: Seq<u8>)
    requires
        s.len() >= 10,
    ensures
        crate::common::snappy_frame::at_identifier(s) == (s[0] == 0xff && letters_at(s, 4)),
{
    let t = s.subrange(4, 10);
    assert(t[0] == s[4] && t[1] == s[5] && t[2] == s[6] && t[3] == s[7] && t[4] == s[8] && t[5]
        == s[9]);
    let m = crate::common::snappy_frame::magic();
    if letters_at(s, 4) {
        assert(t =~= m);
    }
    if t == m {
        assert(t[0] == m[0] && t[1] == m[1] && t[2] == m[2] && t[3] == m[3] && t[4] == m[4] && t[5]
            == m[5]);
    }
}

/// A stream begins with the first chunk of kind 255 that holds `sNaPpY`, whatever
/// its length bytes; what stands before it is passed over, and behind it stand
/// chunks. Until it is found, too little to hold it is kept.
pub proof fn law_stream_begins_with_its_identifier(s: Seq<u8>, i: int)
    requires
        0 <= i,
        forall|j: int|
            0 <= j < i && j + 10 <= s.len() ==> !(#[trigger] s[j] == 0xff && letters_at(s, j + 4)),
    ensures
        i + 10 <= s.len() && s[i] == 0xff && letters_at(s, i + 4)
            ==> crate::common::snappy_frame::decoded(false, s)
            == crate::common::snappy_frame::decoded(true, s.skip(i + 10)),
        i + 9 == s.len() ==> crate::common::snappy_frame::decoded(false, s)
            == (crate::common::snappy_frame::Decoded {
            out: Seq::empty(),
            hdr_ok: false,
            rest: s.skip(i),
        }),
        s.len() < 10 ==> crate::common::snappy_frame::decoded(false, s)
            == (crate::common::snappy_frame::Decoded {
            out: Seq::empty(),
            hdr_ok: false,
            rest: s,
        }),
    decreases i,
{
    if s.len() >= 10 {
        lemma_identifier(s);
    }
    if i == 0 {
        assert(s.skip(0) =~= s);
    } else if s.len() >= 10 {
        let t = s.skip(1);
        assert(!(s[0] == 0xff && letters_at(s, 4)));
        assert forall|j: int| 0 <= j < i - 1 && j + 10 <= t.len() implies !(#[trigger] t[j] == 0xff
            && letters_at(t, j + 4)) by {
            assert(s[j + 1] == t[j]);
            assert(letters_at(t, j + 4) == letters_at(s, j + 5));
        }
        law_stream_begins_with_its_identifier(t, i - 1);
        if i <= s.len() {
            assert(t.skip(i - 1) =~= s.skip(i));
        }
        if i + 10 <= s.len() {
            assert(t.skip(i + 9) =~= s.skip(i + 10));
        }
    }
}

/// Feeding goes on where the last feed ended: two pieces give what the whole
/// gives, and nothing that came in is forgotten.
pub proof fn law_feeding_in_pieces(
    d: &mut SnappyStreamDecoder,
    a: &[u8],
    ra: std::io::Result<Vec<u8>>,
    e: &mut SnappyStreamDecoder,
    b: &[u8],
    rb: std::io::Result<Vec<u8>>,
    whole: &mut SnappyStreamDecoder,
    ab: &[u8],
    rab: std::io::Result<Vec<u8>>,
)
    requires
        call_ensures(SnappyStreamDecoder::feed, (d, a), ra),
        call_ensures(SnappyStreamDecoder::feed, (e, b), rb),
        call_ensures(SnappyStreamDecoder::feed, (whole, ab), rab),
        *old(e) == *final(d),
        *old(whole) == *old(d),
        ab@ == a@ + b@,
    ensures
        ra is Ok && rb is Ok && rab is Ok,
        rab->Ok_0@ == ra->Ok_0@ + rb->Ok_0@,
        final(whole).pending() == final(e).pending(),
        final(whole).started() == final(e).started(),
{
    let p = old(d).pending();
    crate::common::snappy_frame::law_decode_in_pieces(old(d).started(), p + a@, b@);
    assert(p + ab@ =~= p + a@ + b@);
}

/// A decoder behind the identifier that is fed the rest of a stored chunk, or all
/// of it, puts out the data of the chunk, and then what stands behind it gives.
pub proof fn law_stored_data_is_fed_through(
    d: &mut SnappyStreamDecoder,
    input: &[u8],
    r: std::io::Result<Vec<u8>>,
    crc: Seq<u8>,
    data: Seq<u8>,
    rest: Seq<u8>,
)
    requires
        call_ensures(SnappyStreamDecoder::feed, (d, input), r),
        old(d).started(),
        crc.len() == 4,
        crc.len() + data.len() < 0x100_0000,
        old(d).pending() + input@ == chunk(1, crc, data) + rest,
    ensures
        r is Ok,
        r->Ok_0@ == data + crate::common::snappy_frame::decoded(true, rest).out,
        rest.len() < 4 ==> r->Ok_0@ == data && final(d).pending() == rest,
        final(d).started(),
{
    law_stored_chunk_gives_its_data(crc, data, rest);
    let later = crate::common::snappy_frame::decoded(true, rest);
    if rest.len() < 4 {
        assert(later.out =~= Seq::<u8>::empty());
        assert(data + later.out =~= data);
    }
}

/// What an encoder puts out, a decoder that is at the same place of the stream
/// turns back into the data.
pub proof fn law_encoded_data_is_fed_through(
    e: &mut SnappyStreamEncoder,
    data: &[u8],
    bytes: Vec<u8>,
    d: &mut SnappyStreamDecoder,
    input: &[u8],
    r: std::io::Result<Vec<u8>>,
)
    requires
        call_ensures(SnappyStreamEncoder::encode, (e, data), bytes),
        call_ensures(SnappyStreamDecoder::feed, (d, input), r),
        input@ == bytes@,
        old(d).started() == old(e).started(),
        old(d).pending() == Seq::<u8>::empty(),
    ensures
        r is Ok,
        r->Ok_0@ == data@,
        final(d).pending() == Seq::<u8>::empty(),
        final(d).started() == final(e).started(),
        final(e).started() == (old(e).started() || data@.len() > 0),
{
    assert(Seq::<u8>::empty() + input@ =~= bytes@);
}

/// A number is written with its last digit last, behind what the digits before
/// it write; a number below ten is one digit.
pub proof fn law_decimal_digits(n: nat)
    ensures
        n < 10 ==> crate::text::decimal(n).len() == 1,
        n >= 10 ==> crate::text::decimal(n).drop_last() == crate::text::decimal(n / 10),
        crate::text::decimal(n).len() > 0,
        crate::text::decimal(n).last() as int == 48 + n % 10,
        n > 0 ==> crate::text::decimal(n)[0] != '0',
        forall|i: int|
            0 <= i < crate::text::decimal(n).len() ==> '0' <= #[trigger] crate::text::decimal(n)[i]
                <= '9',
    decreases n,
{
    let d = crate::text::decimal(n);
    assert((48 + n % 10) as char as int == 48 + n % 10);
    if n >= 10 {
        law_decimal_digits(n / 10);
        assert(d.drop_last() =~= crate::text::decimal(n / 10));
    } else {
        assert(n > 0 ==> (48 + n) as char != '0');
    }
}

/// The digits of a number write it.
pub proof fn lemma_decimal_value(n: nat)
    ensures
        crate::common::multiport::decimal_value(crate::text::decimal(n)) == n,
    decreases n,
{
    let d = crate::text::decimal(n);
    law_decimal_digits(n);
    reveal_with_fuel(crate::common::multiport::decimal_value, 2);
    assert('0' as nat == 48);
    assert((d.last() as nat - '0' as nat) as nat == n % 10);
    if n >= 10 {
        lemma_decimal_value(n / 10);
    } else {
        assert(d.drop_last() =~= Seq::<char>::empty());
    }
}

/// Numbers are written differently where they differ.
pub proof fn law_decimal_is_unique(m: nat, n: nat)
    requires
        crate::text::decimal(m) == crate::text::decimal(n),
    ensures
        m == n,
{
    lemma_decimal_value(m);
    lemma_decimal_value(n);
}

/// Padding puts zeros before a number, as many as it takes to fill the width.
pub proof fn law_padding_fills_the_width(n: nat, width: nat)
    ensures
        ({
            let p = crate::text::padded(n, width);
            let d = crate::text::decimal(n);
            &&& p.len() >= width
            &&& p.len() == width || p == d
            &&& d.len() <= p.len()
            &&& p.skip(p.len() - d.len()) == d
            &&& forall|i: int| 0 <= i < p.len() - d.len() ==> #[trigger] p[i] == '0'
        }),
{
    let p = crate::text::padded(n, width);
    let d = crate::text::decimal(n);
    assert(p.skip(p.len() - d.len()) =~= d);
}

/// Replacing leaves what stands before the first mark alone, puts the text in
/// the place of the mark, and goes on behind it.
pub proof fn law_marks_are_replaced_in_place(
    before: Seq<char>,
    rest: Seq<char>,
    a: char,
    b: char,
    by: Seq<char>,
)
    requires
        a != b,
        !before.contains(a),
    ensures
        crate::text::replaced(before, a, b, by) == before,
        crate::text::replaced(before + seq![a, b] + rest, a, b, by) == before + by
            + crate::text::replaced(rest, a, b, by),
    decreases before.len(),
{
    let s = before + seq![a, b] + rest;
    if before.len() == 0 {
        assert(s.skip(2) =~= rest);
        assert(before + by + crate::text::replaced(rest, a, b, by) =~= by + crate::text::replaced(
            rest,
            a,
            b,
            by,
        ));
    } else {
        let t = before.skip(1);
        assert(before[0] != a) by {
            assert(before.contains(before[0]));
        }
        assert forall|i: int| 0 <= i < t.len() implies t[i] != a by {
            assert(before.contains(before[i + 1]));
        }
        law_marks_are_replaced_in_place(t, rest, a, b, by);
        assert(s.skip(1) =~= t + seq![a, b] + rest);
        assert(seq![before[0]] + t =~= before);
        assert(before + by + crate::text::replaced(rest, a, b, by) =~= seq![before[0]] + (t + by
            + crate::text::replaced(rest, a, b, by)));
        if before.len() >= 2 {
            assert(crate::text::replaced(before, a, b, by) =~= seq![before[0]]
                + crate::text::replaced(t, a, b, by));
        }
    }
}

proof fn lemma_no_other(n: nat, c: char)
    requires
        !('0' <= c <= '9'),
    ensures
        !crate::text::decimal(n).contains(c),
{
    law_decimal_digits(n);
}

proof fn lemma_last_colon(host: Seq<char>, ports: Seq<char>)
    requires
        !ports.contains(':'),
    ensures
        ({
            let addr = host + seq![':'] + ports;
            &&& addr.index_of_last(':') == Some(host.len() as int)
            &&& addr.take(host.len() as int) == host
            &&& addr.skip(host.len() as int + 1) == ports
        }),
{
    let addr = host + seq![':'] + ports;
    assert(addr[host.len() as int] == ':');
    assert(addr.contains(':'));
    addr.index_of_last_ensures(':');
    let i = addr.index_of_last(':')->0;
    if i > host.len() {
        assert(ports[i - host.len() - 1] == addr[i]);
        assert(ports.contains(addr[i]));
    }
    assert(addr.take(host.len() as int) =~= host);
    assert(addr.skip(host.len() as int + 1) =~= ports);
}

proof fn lemma_first_dash(a: Seq<char>, b: Seq<char>)
    requires
        !a.contains('-'),
    ensures
        ({
            let t = a + seq!['-'] + b;
            &&& t.index_of_first('-') == Some(a.len() as int)
            &&& t.take(a.len() as int) == a
            &&& t.skip(a.len() as int + 1) == b
        }),
{
    let t = a + seq!['-'] + b;
    assert(t[a.len() as int] == '-');
    assert(t.contains('-'));
    t.index_of_first_ensures('-');
    let i = t.index_of_first('-')->0;
    if i < a.len() {
        assert(a[i] == t[i]);
        assert(a.contains(a[i]));
    }
    assert(t.take(a.len() as int) =~= a);
    assert(t.skip(a.len() as int + 1) =~= b);
}

proof fn lemma_port_value(n: nat)
    ensures
        crate::common::multiport::port_value(crate::text::decimal(n)) == (if n <= 65535 {
            Some(n as u16)
        } else {
            None
        }),
{
    law_decimal_digits(n);
    lemma_decimal_value(n);
    let d = crate::text::decimal(n);
    assert(d[0] != '+');
    assert forall|i: int| 0 <= i < d.len() implies crate::common::multiport::is_digit(
        #[trigger] d[i],
    ) by {}
}

/// A range stands for each of its ports once, in order, on the same host: an
/// address `host:min-max` whose host is an address gives `host:p` for every `p`
/// from `min` to `max`, and nothing else.
pub proof fn law_range_gives_each_port_once(
    addr: &str,
    r: Result<Vec<HostPort>, AddrError>,
    host: Seq<char>,
    min: nat,
    max: nat,
)
    requires
        call_ensures(parse_multi_port, (addr,), r),
        addr@ == host + seq![':'] + crate::text::decimal(min) + seq!['-'] + crate::text::decimal(
            max,
        ),
        host.len() > 0,
    ensures
        0 < min <= max <= 65535 && crate::common::ip_literal::is_ip_literal(host) ==> {
            &&& r is Ok
            &&& r->Ok_0@.len() == max - min + 1
            &&& forall|p: int|
                min <= p <= max ==> (#[trigger] r->Ok_0@[p - min]).host@ == host
                    && r->Ok_0@[p - min].port == p
        },
        min == 0 || min > max || max > 65535 ==> r is Err,
        !crate::common::ip_literal::is_ip_literal(host) ==> r is Err,
{
    let a = crate::text::decimal(min);
    let b = crate::text::decimal(max);
    let ports = a + seq!['-'] + b;
    lemma_no_other(min, ':');
    lemma_no_other(max, ':');
    lemma_no_other(min, '-');
    assert(!ports.contains(':')) by {
        assert forall|i: int| 0 <= i < ports.len() implies ports[i] != ':' by {
            if i < a.len() {
                assert(a.contains(a[i]));
            } else if i > a.len() {
                assert(b.contains(b[i - a.len() - 1]));
            }
        }
    }
    assert(addr@ =~= host + seq![':'] + ports);
    lemma_last_colon(host, ports);
    lemma_first_dash(a, b);
    lemma_port_value(min);
    lemma_port_value(max);
    let said = crate::common::multiport::multi_port(addr@);
    assert(said is Ok == (0 < min <= max <= 65535 && crate::common::ip_literal::is_ip_literal(
        host,
    )));
    if r is Ok {
        let v = r->Ok_0@;
        let rows = crate::common::multiport::host_ports(v);
        assert(said->Ok_0 == rows);
        assert(said->Ok_0.len() == max - min + 1);
        assert(rows.len() == v.len());
        assert forall|p: int| min <= p <= max implies (#[trigger] v[p - min]).host@ == host && v[p
            - min].port == p by {
            assert(rows[p - min] == v[p - min]@);
        }
    }
}

/// One port stands for itself: `host:p` gives `host:p`.
pub proof fn law_one_port_gives_itself(
    addr: &str,
    r: Result<Vec<HostPort>, AddrError>,
    host: Seq<char>,
    p: nat,
)
    requires
        call_ensures(parse_multi_port, (addr,), r),
        addr@ == host + seq![':'] + crate::text::decimal(p),
        host.len() > 0,
    ensures
        p <= 65535 && crate::common::ip_literal::is_ip_literal(host) ==> {
            &&& r is Ok
            &&& r->Ok_0@.len() == 1
            &&& r->Ok_0@[0].host@ == host
            &&& r->Ok_0@[0].port == p
        },
        p > 65535 || !crate::common::ip_literal::is_ip_literal(host) ==> r is Err,
{
    let d = crate::text::decimal(p);
    lemma_no_other(p, ':');
    lemma_no_other(p, '-');
    lemma_last_colon(host, d);
    d.index_of_first_ensures('-');
    lemma_port_value(p);
    let said = crate::common::multiport::multi_port(addr@);
    assert(said is Ok == (p <= 65535 && crate::common::ip_literal::is_ip_literal(host)));
    if r is Ok {
        let rows = crate::common::multiport::host_ports(r->Ok_0@);
        assert(said->Ok_0 == rows);
        assert(said->Ok_0.len() == 1);
        assert(rows.len() == r->Ok_0@.len());
        assert(rows[0] == r->Ok_0@[0]@);
    }
}

/// Without a host, any: `:min-max` and `:p` stand for ports of `0.0.0.0`, where
/// they stand for any.
pub proof fn law_no_host_is_any_host(addr: &str, r: Result<Vec<HostPort>, AddrError>, i: int)
    requires
        call_ensures(parse_multi_port, (addr,), r),
        addr@.len() > 0,
        addr@[0] == ':',
        !addr@.skip(1).contains(':'),
        r is Ok,
        0 <= i < r->Ok_0@.len(),
    ensures
        r->Ok_0@[i].host@ == "0.0.0.0"@,
{
    assert(addr@ =~= Seq::<char>::empty() + seq![':'] + addr@.skip(1));
    lemma_last_colon(Seq::empty(), addr@.skip(1));
    let said = crate::common::multiport::multi_port(addr@);
    let rows = crate::common::multiport::host_ports(r->Ok_0@);
    assert(said->Ok_0 == rows);
    assert(rows[i] == r->Ok_0@[i]@);
    assert(said->Ok_0[i].0 == "0.0.0.0"@);
}

/// Whatever is accepted: all addresses are of one host, which is an address, and
/// their ports follow each other, one by one.
pub proof fn law_accepted_ports_follow_each_other(
    addr: &str,
    r: Result<Vec<HostPort>, AddrError>,
    i: int,
    j: int,
)
    requires
        call_ensures(parse_multi_port, (addr,), r),
        r is Ok,
        0 <= i <= j < r->Ok_0@.len(),
    ensures
        r->Ok_0@[j].port == r->Ok_0@[i].port + (j - i),
        r->Ok_0@[j].host@ == r->Ok_0@[i].host@,
        addr@.contains(':'),
        crate::common::ip_literal::is_ip_literal(r->Ok_0@[i].host@),
{
    addr@.index_of_last_ensures(':');
    let said = crate::common::multiport::multi_port(addr@);
    let rows = crate::common::multiport::host_ports(r->Ok_0@);
    assert(said->Ok_0 == rows);
    assert(rows.len() == r->Ok_0@.len());
    assert(rows[i] == r->Ok_0@[i]@);
    assert(rows[j] == r->Ok_0@[j]@);
    assert(said->Ok_0[j].0 == said->Ok_0[i].0);
    assert(said->Ok_0[j].1 == said->Ok_0[i].1 + (j - i));
}

/// An address is written as its host, a colon and its port.
pub proof fn law_address_is_written_in_full(hp: &HostPort, text: String)
    requires
        call_ensures(HostPort::to_text, (hp,), text),
    ensures
        text@ == hp.host@ + seq![':'] + crate::text::decimal(hp.port as nat),
{
}

/// An address without a host gets one; any other stays as it is.
pub proof fn law_missing_host_is_written_out(addr: &str, text: String, rest: Seq<char>)
    requires
        call_ensures(expand_addr, (addr,), text),
    ensures
        addr@ == seq![':'] + rest ==> text@ == "0.0.0.0"@ + seq![':'] + rest,
        addr@.len() == 0 || addr@[0] != ':' ==> text@ == addr@,
{
    if addr@ == seq![':'] + rest {
        assert("0.0.0.0"@ + addr@ =~= "0.0.0.0"@ + seq![':'] + rest);
    }
}

/// What is wrong with an address: it has no port; its port, or one of its range,
/// is no number up to 65535; its range is empty or begins with 0; or its host is
/// no address.
pub proof fn law_refused_addresses(
    addr: &str,
    r: Result<Vec<HostPort>, AddrError>,
    host: Seq<char>,
    min: nat,
    max: nat,
)
    requires
        call_ensures(parse_multi_port, (addr,), r),
    ensures
        !addr@.contains(':') ==> r == Err::<Vec<HostPort>, AddrError>(AddrError::MissingPort),
        addr@ == host + seq![':'] ==> r == Err::<Vec<HostPort>, AddrError>(AddrError::InvalidPort),
        addr@ == host + seq![':'] + crate::text::decimal(min) && min > 65535 ==> r == Err::<
            Vec<HostPort>,
            AddrError,
        >(AddrError::InvalidPort),
        addr@ == host + seq![':'] + (crate::text::decimal(min) + seq!['-'] + crate::text::decimal(
            max,
        )) ==> {
            &&& min > 65535 || max > 65535 ==> r == Err::<Vec<HostPort>, AddrError>(
                AddrError::InvalidPort,
            )
            &&& max < min <= 65535 || (min == 0 && max <= 65535) ==> r == Err::<
                Vec<HostPort>,
                AddrError,
            >(AddrError::InvalidRange { min: min as u16, max: max as u16 })
        },
{
    let none = Seq::<char>::empty();
    lemma_no_other(min, ':');
    lemma_no_other(max, ':');
    lemma_no_other(min, '-');
    lemma_port_value(min);
    lemma_port_value(max);
    if !addr@.contains(':') {
        addr@.index_of_last_ensures(':');
    }
    if addr@ == host + seq![':'] {
        assert(host + seq![':'] + none =~= addr@);
        lemma_last_colon(host, none);
        none.index_of_first_ensures('-');
    }
    let one = crate::text::decimal(min);
    if addr@ == host + seq![':'] + one {
        lemma_last_colon(host, one);
        one.index_of_first_ensures('-');
    }
    let range = one + seq!['-'] + crate::text::decimal(max);
    if addr@ == host + seq![':'] + range {
        assert forall|i: int| 0 <= i < range.len() implies range[i] != ':' by {
            let k = one.len() as int;
            if i < k {
                assert(one.contains(one[i]));
            } else if i > k {
                let d = crate::text::decimal(max);
                assert(range[i] == d[i - k - 1]);
                assert(d.contains(d[i - k - 1]));
            }
        }
        lemma_last_colon(host, range);
        lemma_first_dash(one, crate::text::decimal(max));
    }
}

/// A stream of data names itself once: the first piece that is encoded begins with
/// the identifier, and what is encoded later is as it would be without its first
/// ten bytes. A fresh encoder, and a fresh decoder, are before the identifier.
pub proof fn law_stream_names_itself_once(
    fresh: SnappyStreamEncoder,
    e: &mut SnappyStreamEncoder,
    data: &[u8],
    first: Vec<u8>,
    f: &mut SnappyStreamEncoder,
    later: Vec<u8>,
    d: SnappyStreamDecoder,
)
    requires
        call_ensures(SnappyStreamEncoder::new, (), fresh),
        call_ensures(SnappyStreamDecoder::new, (), d),
        *old(e) == fresh,
        call_ensures(SnappyStreamEncoder::encode, (e, data), first),
        *old(f) == *final(e),
        call_ensures(SnappyStreamEncoder::encode, (f, data), later),
        data@.len() > 0,
    ensures
        !fresh.started(),
        !d.started() && d.pending().len() == 0,
        first@.len() >= 10,
        first@[0] == 0xff && first@[1] == 6 && first@[2] == 0 && first@[3] == 0 && letters_at(
            first@,
            4,
        ),
        later@ == first@.skip(10),
{
    let t = first@.take(10);
    let id = crate::common::snappy_frame::stream_identifier();
    assert(t == id);
    assert forall|i: int| 0 <= i < 10 implies first@[i] == #[trigger] id[i] by {
        assert(first@[i] == t[i]);
    }
    assert(id[0] == 0xff && id[1] == 6 && id[2] == 0 && id[3] == 0);
    assert(id[4] == 0x73 && id[5] == 0x4e && id[6] == 0x61 && id[7] == 0x50 && id[8] == 0x70
        && id[9] == 0x59);
}

} // verus!
