//! Packets that are encrypted on their way to the network and decrypted on their
//! way back.

use vstd::prelude::*;
use vstd::slice::{slice_subrange, slice_to_vec};

verus! {

/// Whether packets carry a nonce and a checksum: all but those of the method
/// `null` do.
pub fn has_encryption(crypt: &str) -> (b: bool)
    ensures
        b == (crypt@ != "null"@),
{
    let name: String = crypt.to_owned();
    name != "null".to_owned()
}

/// The identity under which acknowledgements draw their nonces, which differs
/// from that of data, so that no nonce is drawn twice.
pub fn ack_session_id(conv: u32) -> (id: u64)
    ensures
        id == (conv as u64) ^ 0xA11C_B0FFu64,
        id != conv,
{
    let c: u64 = conv as u64;
    let id: u64 = c ^ 0xA11C_B0FF;
    assert(c ^ 0xA11C_B0FFu64 != c) by (bit_vector);
    id
}

/// What the cipher made of a datagram.
pub enum Opened {
    /// A sealed packet, opened.
    Sealed(Vec<u8>),
    /// A packet behind a header, decrypted where it stood: its length. It is the
    /// end of the datagram.
    Tail(usize),
    /// The packet does not check out.
    Bad,
}

/// Why a packet cannot be handed over.
#[derive(Clone, Copy, Debug, PartialEq, Eq, Structural)]
pub enum OpenError {
    /// The opened packet is longer than the buffer.
    TooLong,
}

/// How packets are put into datagrams.
#[derive(Clone, Copy, Debug, PartialEq, Eq, Structural)]
pub enum Wrapping {
    /// Sealed by the cipher.
    Seal,
    /// Encrypted behind a header with a nonce and a checksum.
    Header,
    /// As they are.
    Bare,
}

/// A way of sending datagrams that encrypts them.
pub struct CryptoTransport {
    encrypts: bool,
    aead: bool,
}

/// The packet that a datagram of `n` bytes in `buf` holds: none where it does
/// not check out.
pub open spec fn packet_in(w: Wrapping, buf: Seq<u8>, n: nat, opened: Opened) -> Seq<u8> {
    if n == 0 {
        Seq::empty()
    } else if w == Wrapping::Bare {
        buf.take(n as int)
    } else {
        match opened {
            Opened::Sealed(plain) => plain@,
            Opened::Tail(len) => buf.subrange(n - len, n as int),
            Opened::Bad => Seq::empty(),
        }
    }
}

/// What becomes of a datagram of `n` bytes in `buf`: how long its packet is, and
/// the buffer, with the packet at its front.
pub open spec fn decrypted(w: Wrapping, buf: Seq<u8>, n: nat, opened: Opened) -> (
    Result<usize, OpenError>,
    Seq<u8>,
) {
    let p = packet_in(w, buf, n, opened);
    if p.len() > buf.len() {
        (Err(OpenError::TooLong), buf)
    } else {
        (Ok(p.len() as usize), crate::wire::overlaid(buf, p))
    }
}

impl CryptoTransport {
    /// Whether packets are encrypted or at least carry a checksum.
    pub closed spec fn encrypts(&self) -> bool {
        self.encrypts
    }

    /// Whether packets are sealed.
    pub closed spec fn seals(&self) -> bool {
        self.aead
    }

    /// How packets are put into datagrams, data and acknowledgements alike.
    pub open spec fn wrapping(&self) -> Wrapping {
        if self.seals() {
            Wrapping::Seal
        } else if self.encrypts() {
            Wrapping::Header
        } else {
            Wrapping::Bare
        }
    }

    /// How packets are put into datagrams: see [`CryptoTransport::wrapping`].
    pub fn wrap(&self) -> (w: Wrapping)
        ensures
            w == self.wrapping(),
    {
        if self.aead {
            Wrapping::Seal
        } else if self.encrypts {
            Wrapping::Header
        } else {
            Wrapping::Bare
        }
    }

    /// A transport for the method named `method`; `aead` says whether its cipher
    /// seals packets.
    pub fn new(method: &str, aead: bool) -> (t: Self)
        ensures
            t.encrypts() == (method@ != "null"@),
            t.seals() == aead,
    {
        CryptoTransport { encrypts: self::has_encryption(method), aead }
    }

    /// Whether packets are encrypted or at least carry a checksum.
    pub fn has_encryption(&self) -> (b: bool)
        ensures
            b == self.encrypts(),
    {
        self.encrypts
    }

    /// The identities under which data and acknowledgements draw their nonces.
    /// They differ.
    pub fn nonce_ids(&self) -> (ids: (u64, u64))
        ensures
            ids.0 == crate::kcp::config::DEFAULT_CONV,
            ids.1 == (crate::kcp::config::DEFAULT_CONV as u64) ^ 0xA11C_B0FFu64,
            ids.0 != ids.1,
    {
        let conv: u32 = crate::kcp::config::DEFAULT_CONV;
        (conv as u64, self::ack_session_id(conv))
    }

    /// Whether a batch of packets is encrypted elsewhere than in the task that
    /// sends it. Acknowledgements never are; other batches are where `heavy`
    /// says that they are worth it.
    pub fn offloads(&self, urgent: bool, heavy: bool) -> (b: bool)
        ensures
            b == (!urgent && heavy),
    {
        !urgent && heavy
    }

    /// Puts the packet of a datagram to the front of the buffer that the
    /// datagram came in, and says how long it is: 0 for one that does not check
    /// out.
    pub fn decrypt_in_place(&self, buf: &mut [u8], n: usize, opened: Opened) -> (r: Result<
        usize,
        OpenError,
    >)
        requires
            n <= old(buf)@.len(),
            opened matches Opened::Tail(len) ==> len <= n,
        ensures
            (r, final(buf)@) == decrypted(self.wrapping(), old(buf)@, n as nat, opened),
    {
        let ghost buf0 = buf@;
        if n == 0 {
            assert(crate::wire::overlaid(buf0, Seq::empty()) =~= buf0);
            return Ok(0);
        }
        if self.wrap() == Wrapping::Bare {
            assert(crate::wire::overlaid(buf0, buf0.take(n as int)) =~= buf0);
            return Ok(n);
        }
        match opened {
            Opened::Sealed(plain) => {
                if plain.len() > buf.len() {
                    return Err(OpenError::TooLong);
                }
                let len: usize = crate::wire::copy_prefix(plain.as_slice(), buf);
                Ok(len)
            },
            Opened::Tail(len) => {
                let body: Vec<u8> = slice_to_vec(slice_subrange(buf, n - len, n));
                let copied: usize = crate::wire::copy_prefix(body.as_slice(), buf);
                Ok(copied)
            },
            Opened::Bad => {
                assert(crate::wire::overlaid(buf0, Seq::empty()) =~= buf0);
                Ok(0)
            },
        }
    }
}

/// A cipher as a pair of functions: the datagram that it makes of a nonce and a
/// packet, and what it makes of a datagram, which is the datagram as decrypted
/// where it stood and what was found in it.
pub struct Cipher {
    pub seal: spec_fn(Seq<u8>, Seq<u8>) -> Seq<u8>,
    pub open: spec_fn(Seq<u8>) -> (Seq<u8>, Opened),
}

impl Cipher {
    /// The datagram that carries a packet.
    pub open spec fn datagram(self, w: Wrapping, nonce: Seq<u8>, p: Seq<u8>) -> Seq<u8> {
        if w == Wrapping::Bare {
            p
        } else {
            (self.seal)(nonce, p)
        }
    }

    /// A buffer that the datagram `d` came in, once the cipher has worked on it:
    /// the datagram stands at its front.
    pub open spec fn received(self, w: Wrapping, d: Seq<u8>, buf: Seq<u8>) -> bool {
        let now = if w == Wrapping::Bare {
            d
        } else {
            (self.open)(d).0
        };
        now.len() == d.len() <= buf.len() && buf.take(d.len() as int) == now
    }

    /// The cipher opens what it has sealed: a sealed packet is handed back, and
    /// one behind a header is the end of the decrypted datagram. No datagram is
    /// shorter than its packet.
    pub open spec fn opens_what_it_seals(self, w: Wrapping) -> bool {
        forall|nonce: Seq<u8>, p: Seq<u8>|
            p.len() <= usize::MAX ==> {
                let d = #[trigger] (self.seal)(nonce, p);
                let (now, opened) = (self.open)(d);
                &&& now.len() == d.len() >= p.len()
                &&& match w {
                    Wrapping::Seal => opened matches Opened::Sealed(plain) && plain@ == p,
                    Wrapping::Header => opened == Opened::Tail(p.len() as usize) && now.skip(
                        d.len() - p.len(),
                    ) == p,
                    Wrapping::Bare => true,
                }
            }
    }
}

/// What is sent is received: with each of the wrappings, a packet that went out
/// in a datagram comes out of it, whole and at the front of the buffer, where
/// the cipher opens what it has sealed.
pub proof fn law_packets_come_out_as_they_went_in(
    c: Cipher,
    w: Wrapping,
    nonce: Seq<u8>,
    p: Seq<u8>,
    buf: Seq<u8>,
)
    requires
        w != Wrapping::Bare ==> c.opens_what_it_seals(w),
        0 < p.len() <= usize::MAX,
        c.received(w, c.datagram(w, nonce, p), buf),
    ensures
        ({
            let d = c.datagram(w, nonce, p);
            let (r, after) = decrypted(w, buf, d.len(), (c.open)(d).1);
            &&& r == Ok::<usize, OpenError>(p.len() as usize)
            &&& after.len() == buf.len()
            &&& after.take(p.len() as int) == p
        }),
{
    let d = c.datagram(w, nonce, p);
    let n = d.len() as int;
    let (now, opened) = (c.open)(d);
    if w == Wrapping::Header {
        assert(buf.subrange(n - p.len(), n) =~= buf.take(n).skip(n - p.len()));
        assert(now.skip(n - p.len()) == p);
    }
    assert(packet_in(w, buf, d.len(), opened) == p);
    assert(crate::wire::overlaid(buf, p).take(p.len() as int) =~= p);
}

/// A datagram that does not check out is no error: nothing is received, and the
/// buffer is left alone.
pub proof fn law_bad_datagrams_are_passed_over(w: Wrapping, buf: Seq<u8>, n: nat)
    requires
        w != Wrapping::Bare,
    ensures
        decrypted(w, buf, n, Opened::Bad) == (Ok::<usize, OpenError>(0usize), buf),
{
    assert(crate::wire::overlaid(buf, Seq::empty()) =~= buf);
}

/// What became of an attempt to receive a datagram: one came with so many bytes
/// and held a packet of so many, none is there, or the socket failed.
#[derive(Clone, Copy, Debug, PartialEq, Eq, Structural)]
pub enum Datagram {
    Came { n: usize, plain: usize },
    Nothing,
    Failed,
}

/// What follows on it.
#[derive(Clone, Copy, Debug, PartialEq, Eq, Structural)]
pub enum RecvNext {
    /// Hand over a packet of so many bytes.
    Return(usize),
    /// Wait for a datagram.
    Wait,
    /// Take a datagram if one is there.
    Try,
    /// Nothing is there.
    WouldBlock,
    /// The socket failed.
    Fail,
}

/// Receiving: datagrams that do not check out are passed over. After one that
/// was waited for, the next is taken if it is there; `waited` says that this one
/// was waited for.
pub fn recv_next(waited: bool, d: Datagram) -> (next: RecvNext)
    ensures
        next == (match d {
            Datagram::Came { n, plain } => if plain > 0 || n == 0 {
                RecvNext::Return(plain)
            } else if waited {
                RecvNext::Try
            } else {
                RecvNext::Wait
            },
            Datagram::Nothing => RecvNext::Wait,
            Datagram::Failed => RecvNext::Fail,
        }),
{
    match d {
        Datagram::Came { n, plain } => if plain > 0 || n == 0 {
            RecvNext::Return(plain)
        } else if waited {
            RecvNext::Try
        } else {
            RecvNext::Wait
        },
        Datagram::Nothing => RecvNext::Wait,
        Datagram::Failed => RecvNext::Fail,
    }
}

/// Receiving without waiting.
pub fn try_recv_next(d: Datagram) -> (next: RecvNext)
    ensures
        next == (match d {
            Datagram::Came { n, plain } => if plain > 0 || n == 0 {
                RecvNext::Return(plain)
            } else {
                RecvNext::Try
            },
            Datagram::Nothing => RecvNext::WouldBlock,
            Datagram::Failed => RecvNext::Fail,
        }),
{
    match d {
        Datagram::Came { n, plain } => if plain > 0 || n == 0 {
            RecvNext::Return(plain)
        } else {
            RecvNext::Try
        },
        Datagram::Nothing => RecvNext::WouldBlock,
        Datagram::Failed => RecvNext::Fail,
    }
}

} // verus!
