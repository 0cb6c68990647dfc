//! The Snappy framing format on a stream: chunks that arrive in any pieces are
//! put together and decompressed, and data is framed for sending.

use std::io::Write;
use vstd::prelude::*;
use vstd::slice::slice_subrange;

verus! {

/// `std::io::Error`, which is carried through and never looked into.
#[verifier::external_type_specification]
#[verifier::external_body]
pub struct ExIoError(std::io::Error);

/// What a Snappy block holds, or `None` where it is no such block.
pub uninterp spec fn snappy_block(block: Seq<u8>) -> Option<Seq<u8>>;

/// Data as a Snappy framing stream of its own.
pub uninterp spec fn snappy_stream(data: Seq<u8>) -> Seq<u8>;

/// Calls `snap::raw::Decoder::decompress_vec`, which keeps nothing between
/// calls: the result depends on the block alone. Its errors are all alike
/// here.
#[verifier::external_body]
fn decompress_block(block: &[u8]) -> (data: Option<Vec<u8>>)
    ensures
        match data {
            Some(d) => snappy_block(block@) == Some(d@),
            None => snappy_block(block@) is None,
        },
{
    snap::raw::Decoder::new().decompress_vec(block).ok()
}

/// Calls `snap::write::FrameEncoder` on one piece of data. It writes nothing
/// for no data, and otherwise the stream identifier and chunks whose contents,
/// put together, are the data: each chunk is stored as it is, or is a block
/// that decompresses to its part.
#[verifier::external_body]
fn compress_stream(data: &[u8]) -> (stream: Vec<u8>)
    ensures
        stream@ == snappy_stream(data@),
        data@.len() == 0 ==> stream@.len() == 0,
        data@.len() > 0 ==> stream@.len() >= 10 && stream@.take(10) == stream_identifier()
            && decoded(true, stream@.skip(10)) == (Decoded {
            out: data@,
            hdr_ok: true,
            rest: Seq::empty(),
        }),
{
    let mut enc = snap::write::FrameEncoder::new(Vec::new());
    enc.write_all(data).ok();
    enc.flush().ok();
    std::mem::take(enc.get_mut())
}

/// `sNaPpY`.
pub open spec fn magic() -> Seq<u8> {
    seq![0x73u8, 0x4eu8, 0x61u8, 0x50u8, 0x70u8, 0x59u8]
}

/// The chunk that begins a stream.
pub open spec fn stream_identifier() -> Seq<u8> {
    seq![0xffu8, 6u8, 0u8, 0u8] + magic()
}

/// What a decoder has put out and where it stands: whether it has seen the
/// stream identifier, and what it has not consumed.
pub struct Decoded {
    pub out: Seq<u8>,
    pub hdr_ok: bool,
    pub rest: Seq<u8>,
}

/// The length that the header of a chunk announces.
pub open spec fn chunk_len(s: Seq<u8>) -> nat {
    (s[1] + s[2] * 256 + s[3] * 0x1_0000) as nat
}

/// What a chunk contributes: compressed and stored chunks their data, behind a
/// checksum of four bytes; anything else nothing.
pub open spec fn chunk_out(kind: u8, body: Seq<u8>) -> Seq<u8> {
    if body.len() < 4 {
        Seq::empty()
    } else if kind == 0 {
        match snappy_block(body.skip(4)) {
            Some(d) => d,
            None => Seq::empty(),
        }
    } else if kind == 1 {
        body.skip(4)
    } else {
        Seq::empty()
    }
}

/// `s` begins with the stream identifier; its length bytes are not looked at.
pub open spec fn at_identifier(s: Seq<u8>) -> bool {
    s[0] == 0xff && s.subrange(4, 10) == magic()
}

/// What comes of the bytes `s`. Before the stream identifier, bytes are
/// skipped until it is found; behind it stand chunks, and one that is not
/// complete is left for later.
pub open spec fn decoded(hdr_ok: bool, s: Seq<u8>) -> Decoded
    decreases s.len(),
{
    if !hdr_ok {
        if s.len() < 10 {
            Decoded { out: Seq::empty(), hdr_ok, rest: s }
        } else if at_identifier(s) {
            decoded(true, s.skip(10))
        } else {
            decoded(false, s.skip(1))
        }
    } else if s.len() < 4 || s.len() < 4 + chunk_len(s) {
        Decoded { out: Seq::empty(), hdr_ok, rest: s }
    } else {
        let n = chunk_len(s) as int;
        let later = decoded(true, s.skip(4 + n));
        Decoded { out: chunk_out(s[0], s.subrange(4, 4 + n)) + later.out, ..later }
    }
}

/// Cutting a stream does not matter: decoding `a`, and then what it left
/// behind with `b` appended, gives what decoding `a + b` gives.
pub proof fn law_decode_in_pieces(hdr_ok: bool, a: Seq<u8>, b: Seq<u8>)
    ensures
        ({
            let first = decoded(hdr_ok, a);
            let second = decoded(first.hdr_ok, first.rest + b);
            decoded(hdr_ok, a + b) == (Decoded { out: first.out + second.out, ..second })
        }),
    decreases a.len(),
{
    let first = decoded(hdr_ok, a);
    let second = decoded(first.hdr_ok, first.rest + b);
    if !hdr_ok {
        if a.len() < 10 {
            assert(first.out + second.out =~= second.out);
        } else {
            assert((a + b).subrange(4, 10) =~= a.subrange(4, 10));
            if at_identifier(a) {
                law_decode_in_pieces(true, a.skip(10), b);
                assert((a + b).skip(10) =~= a.skip(10) + b);
            } else {
                law_decode_in_pieces(false, a.skip(1), b);
                assert((a + b).skip(1) =~= a.skip(1) + b);
            }
        }
    } else if a.len() < 4 || a.len() < 4 + chunk_len(a) {
        assert(first.out + second.out =~= second.out);
    } else {
        let n = chunk_len(a) as int;
        law_decode_in_pieces(true, a.skip(4 + n), b);
        assert((a + b).skip(4 + n) =~= a.skip(4 + n) + b);
        assert((a + b).subrange(4, 4 + n) =~= a.subrange(4, 4 + n));
        let chunk = chunk_out(a[0], a.subrange(4, 4 + n));
        let later = decoded(true, a.skip(4 + n));
        assert(chunk + (later.out + second.out) =~= (chunk + later.out) + second.out);
    }
}

/// A decoder of the Snappy framing format that keeps its place in the stream
/// from one piece of data to the next.
pub struct SnappyStreamDecoder {
    buf: Vec<u8>,
    pos: usize,
    hdr_ok: bool,
}

impl SnappyStreamDecoder {
    #[verifier::type_invariant]
    spec fn inv(&self) -> bool {
        self.pos <= self.buf@.len()
    }

    /// The stream identifier has been seen.
    pub closed spec fn started(&self) -> bool {
        self.hdr_ok
    }

    /// The bytes that have come in and were not consumed.
    pub closed spec fn pending(&self) -> Seq<u8> {
        self.buf@.skip(self.pos as int)
    }

    /// A decoder at the start of a stream.
    pub fn new() -> (d: Self)
        ensures
            !d.started(),
            d.pending() == Seq::<u8>::empty(),
    {
        let d = SnappyStreamDecoder { buf: Vec::new(), pos: 0, hdr_ok: false };
        assert(d.pending() =~= Seq::<u8>::empty());
        d
    }

    /// Takes in the next piece of the stream and returns what it completes.
    /// Chunks that do not decompress are passed over, so this does not fail.
    pub fn feed(&mut self, data: &[u8]) -> (r: std::io::Result<Vec<u8>>)
        ensures
            r is Ok,
            ({
                let d = decoded(old(self).started(), old(self).pending() + data@);
                &&& r->Ok_0@ == d.out
                &&& final(self).started() == d.hdr_ok
                &&& final(self).pending() == d.rest
            }),
    {
        proof {
            use_type_invariant(&*self);
        }
        let ghost all = self.pending() + data@;
        let ghost hdr0 = self.hdr_ok;
        let mut pos: usize = self.pos;
        let mut hdr_ok: bool = self.hdr_ok;
        let mut buf: Vec<u8> = Vec::new();
        self.pos = 0;
        std::mem::swap(&mut buf, &mut self.buf);
        crate::wire::push_slice(&mut buf, data);
        assert(buf@.skip(pos as int) =~= all);
        if pos > 65536 {
            buf = buf.split_off(pos);
            pos = 0;
            assert(buf@.skip(0) =~= all);
        }
        let mut out: Vec<u8> = Vec::new();
        assert(out@ + decoded(hdr0, all).out =~= decoded(hdr0, all).out);
        loop
            invariant
                pos <= buf@.len(),
                ({
                    let later = decoded(hdr_ok, buf@.skip(pos as int));
                    decoded(hdr0, all) == (Decoded { out: out@ + later.out, ..later })
                }),
            ensures
                pos <= buf@.len(),
                decoded(hdr0, all) == (Decoded { out: out@, hdr_ok, rest: buf@.skip(pos as int) }),
            decreases buf@.len() - pos,
        {
            let avail: usize = buf.len() - pos;
            let ghost s = buf@.skip(pos as int);
            let ghost out0 = out@;
            if !hdr_ok {
                if avail < 10 {
                    assert(out@ + Seq::<u8>::empty() =~= out@);
                    break;
                }
                if !is_identifier(&buf, pos) {
                    assert(buf@.skip(pos + 1) =~= s.skip(1));
                    pos = pos + 1;
                } else {
                    assert(buf@.skip(pos + 10) =~= s.skip(10));
                    pos = pos + 10;
                    hdr_ok = true;
                }
            } else {
                if avail < 4 {
                    assert(out@ + Seq::<u8>::empty() =~= out@);
                    break;
                }
                let kind: u8 = buf[pos];
                let n: usize = buf[pos + 1] as usize + buf[pos + 2] as usize * 256 + buf[pos
                    + 3] as usize * 0x1_0000;
                if n > avail - 4 {
                    assert(out@ + Seq::<u8>::empty() =~= out@);
                    break;
                }
                let ghost later = decoded(true, s.skip(4 + n));
                let ghost chunk = chunk_out(kind, s.subrange(4, 4 + n));
                assert(buf@.skip(pos + 4 + n) =~= s.skip(4 + n));
                if n >= 4 && kind <= 1 {
                    let body: &[u8] = slice_subrange(buf.as_slice(), pos + 8, pos + 4 + n);
                    assert(body@ =~= s.subrange(4, 4 + n).skip(4));
                    if kind == 0 {
                        if let Some(d) = decompress_block(body) {
                            let mut d: Vec<u8> = d;
                            out.append(&mut d);
                        }
                    } else {
                        crate::wire::push_slice(&mut out, body);
                    }
                }
                assert(out@ =~= out0 + chunk);
                assert((out0 + chunk) + later.out =~= out0 + (chunk + later.out));
                pos = pos + 4 + n;
            }
        }
        self.buf = buf;
        self.pos = pos;
        self.hdr_ok = hdr_ok;
        Ok(out)
    }
}

/// The stream identifier stands at `pos`.
fn is_identifier(buf: &Vec<u8>, pos: usize) -> (b: bool)
    requires
        pos + 10 <= buf.len(),
    ensures
        b == at_identifier(buf@.skip(pos as int)),
{
    let b = buf[pos] == 0xff && buf[pos + 4] == 0x73 && buf[pos + 5] == 0x4e && buf[pos + 6] == 0x61
        && buf[pos + 7] == 0x50 && buf[pos + 8] == 0x70 && buf[pos + 9] == 0x59;
    proof {
        let six = buf@.skip(pos as int).subrange(4, 10);
        if b {
            assert(six =~= magic());
        } else if six == magic() {
            assert(six[0] == 0x73 && six[1] == 0x4e && six[2] == 0x61 && six[3] == 0x50 && six[4]
                == 0x70 && six[5] == 0x59);
        }
    }
    b
}

impl Default for SnappyStreamDecoder {
    fn default() -> (d: Self)
        ensures
            !d.started(),
            d.pending() == Seq::<u8>::empty(),
    {
        Self::new()
    }
}

/// The sending side of a compressed stream: one stream over all the pieces,
/// with its identifier at the very start.
pub struct SnappyStreamEncoder {
    started: bool,
}

impl SnappyStreamEncoder {
    /// Something has been sent.
    pub closed spec fn started(&self) -> bool {
        self.started
    }

    /// An encoder at the start of a stream.
    pub fn new() -> (e: Self)
        ensures
            !e.started(),
    {
        SnappyStreamEncoder { started: false }
    }

    /// The next bytes of the stream: `data` compressed.
    pub fn encode(&mut self, data: &[u8]) -> (bytes: Vec<u8>)
        ensures
            final(self).started() == (old(self).started() || data@.len() > 0),
            bytes@ == (if old(self).started() && data@.len() > 0 {
                snappy_stream(data@).skip(10)
            } else {
                snappy_stream(data@)
            }),
            !old(self).started() && data@.len() > 0 ==> bytes@.len() >= 10 && bytes@.take(10)
                == stream_identifier(),
            decoded(old(self).started(), bytes@) == (Decoded {
                out: data@,
                hdr_ok: final(self).started(),
                rest: Seq::empty(),
            }),
    {
        let stream: Vec<u8> = compress_stream(data);
        if data.is_empty() {
            assert(stream@ =~= Seq::<u8>::empty());
            assert(data@ =~= Seq::<u8>::empty());
            return stream;
        }
        if self.started {
            let mut stream: Vec<u8> = stream;
            let rest: Vec<u8> = stream.split_off(10);
            assert(rest@ =~= snappy_stream(data@).skip(10));
            return rest;
        }
        self.started = true;
        assert(at_identifier(stream@)) by {
            assert(stream@[0] == stream@.take(10)[0]);
            assert(stream@.subrange(4, 10) =~= stream@.take(10).subrange(4, 10));
            assert(stream_identifier().subrange(4, 10) =~= magic());
        }
        stream
    }
}

/// What goes in comes out: where a decoder has consumed all that an encoder
/// sent before, feeding it the encoder's next bytes puts out the data that
/// they were made from and leaves nothing behind, however the bytes are cut.
pub proof fn law_compressed_data_comes_back(started: bool, data: Seq<u8>, a: Seq<u8>, b: Seq<u8>)
    requires
        decoded(started, a + b) == (Decoded {
            out: data,
            hdr_ok: started || data.len() > 0,
            rest: Seq::empty(),
        }),
    ensures
        ({
            let first = decoded(started, a);
            let second = decoded(first.hdr_ok, first.rest + b);
            &&& first.out + second.out == data
            &&& second.rest == Seq::<u8>::empty()
            &&& second.hdr_ok == (started || data.len() > 0)
        }),
{
    law_decode_in_pieces(started, a, b);
}

} // verus!
