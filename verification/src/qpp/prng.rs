//! The xoshiro256** generator and the key stream that it drives.

use crate::crypto::{hmac_sha256_tag, pbkdf2_sha1_32};
use vstd::bytes::u64_from_le_bytes;
use vstd::prelude::*;
use vstd::slice::slice_subrange;
use vstd::string::StringSliceAdditionalSpecFns;

verus! {

/// Rounds of PBKDF2 for the shuffle keys and for the generator's state.
pub const PBKDF2_LOOPS: u32 = 128;

/// Key stream bytes taken from one 64-bit word before the next one is drawn.
pub const PAD_SWITCH: u8 = 8;

/// `x` rotated left by `k` bits, `0 < k < 64`.
pub open spec fn rotl(x: u64, k: int) -> u64 {
    (x << (k as u64)) | (x >> ((64 - k) as u64))
}

/// `a * b` modulo 2^64.
pub open spec fn mul64(a: u64, b: u64) -> u64 {
    ((a * b) % 0x1_0000_0000_0000_0000) as u64
}

/// The word that xoshiro256** puts out in state `s`.
pub open spec fn xoshiro_out(s: Seq<u64>) -> u64 {
    mul64(rotl(mul64(s[1], 5), 7), 9)
}

/// The state that follows `s`.
pub open spec fn xoshiro_next(s: Seq<u64>) -> Seq<u64> {
    let s2 = s[2] ^ s[0];
    let s3 = s[3] ^ s[1];
    seq![s[0] ^ s3, s[1] ^ s2, s2 ^ (s[1] << 17u64), rotl(s3, 45)]
}

fn rol64(x: u64, k: u32) -> (r: u64)
    requires
        0 < k < 64,
    ensures
        r == rotl(x, k as int),
{
    (x << (k as u64)) | (x >> ((64 - k) as u64))
}

/// Steps the generator and returns its next word.
pub fn xoshiro256ss(s: &mut [u64; 4]) -> (result: u64)
    ensures
        result == xoshiro_out(old(s)@),
        final(s)@ == xoshiro_next(old(s)@),
{
    let ghost s0 = s@;
    let result: u64 = rol64(s[1].wrapping_mul(5), 7).wrapping_mul(9);
    let t: u64 = s[1] << 17;
    s[2] = s[2] ^ s[0];
    s[3] = s[3] ^ s[1];
    s[1] = s[1] ^ s[2];
    s[0] = s[0] ^ s[3];
    s[2] = s[2] ^ t;
    s[3] = rol64(s[3], 45);
    assert(s@ =~= xoshiro_next(s0));
    result
}

/// Where a key stream stands: the generator's state, the word that bytes are
/// taken from, and how many of its bytes have been used.
pub struct KeyStream {
    pub state: Seq<u64>,
    pub word: u64,
    pub used: nat,
}

impl KeyStream {
    /// The byte that masks the next byte of data.
    pub open spec fn mask(self) -> u8 {
        (self.word >> ((8 * self.used) as u64)) as u8
    }

    /// Where the pad in force begins, of `num_pads` pads of 256 bytes.
    pub open spec fn base(self, num_pads: u16) -> int {
        ((self.word as u16) % num_pads) * 256
    }

    /// The stream after one byte of data.
    pub open spec fn step(self) -> KeyStream {
        if self.used + 1 == PAD_SWITCH {
            KeyStream {
                state: xoshiro_next(self.state),
                word: xoshiro_out(self.state),
                used: 0,
            }
        } else {
            KeyStream { used: self.used + 1, ..self }
        }
    }

    /// The stream after `n` bytes of data.
    pub open spec fn after(self, n: nat) -> KeyStream
        decreases n,
    {
        if n == 0 {
            self
        } else {
            self.after((n - 1) as nat).step()
        }
    }
}

/// A stateful xoshiro256** generator.
#[derive(Debug)]
pub struct Rand {
    xoshiro: [u64; 4],
    seed64: u64,
    count: u8,
}

impl View for Rand {
    type V = KeyStream;

    closed spec fn view(&self) -> KeyStream {
        KeyStream { state: self.xoshiro@, word: self.seed64, used: self.count as nat }
    }
}

impl Clone for Rand {
    fn clone(&self) -> (r: Self)
        ensures
            r@ == self@,
    {
        proof {
            use_type_invariant(self);
        }
        Rand { xoshiro: self.xoshiro, seed64: self.seed64, count: self.count }
    }
}

impl Rand {
    #[verifier::type_invariant]
    spec fn wf(&self) -> bool {
        self.count < PAD_SWITCH
    }

    /// The parts of the key stream: state, word, bytes used of the word.
    pub(crate) fn parts(&self) -> (p: ([u64; 4], u64, u8))
        ensures
            self@ == (KeyStream { state: p.0@, word: p.1, used: p.2 as nat }),
            p.2 < PAD_SWITCH,
    {
        proof {
            use_type_invariant(self);
        }
        (self.xoshiro, self.seed64, self.count)
    }

    /// Puts the key stream where the three parts say.
    pub(crate) fn set_parts(&mut self, xoshiro: [u64; 4], seed64: u64, count: u8)
        requires
            count < PAD_SWITCH,
        ensures
            final(self)@ == (KeyStream { state: xoshiro@, word: seed64, used: count as nat }),
    {
        *self = Rand { xoshiro, seed64, count };
    }

    /// Steps the generator and returns the next 64-bit word, which becomes the
    /// word that key stream bytes are taken from.
    pub fn next_u64(&mut self) -> (r: u64)
        ensures
            r == xoshiro_out(old(self)@.state),
            final(self)@ == (KeyStream { state: xoshiro_next(old(self)@.state), word: r, ..old(self)@ }),
    {
        proof {
            use_type_invariant(&*self);
        }
        let mut xoshiro: [u64; 4] = self.xoshiro;
        let r: u64 = xoshiro256ss(&mut xoshiro);
        self.xoshiro = xoshiro;
        self.seed64 = r;
        r
    }
}

/// The four words that a 32-byte key makes of the generator's state.
pub open spec fn state_of_key(key: Seq<u8>) -> Seq<u64> {
    Seq::new(4, |i: int| vstd::bytes::spec_u64_from_le_bytes(key.subrange(8 * i, 8 * i + 8)))
}

/// The key stream of a generator whose state begins as `s`: its first word is
/// drawn at once.
pub open spec fn stream_from_state(s: Seq<u64>) -> KeyStream {
    KeyStream { state: xoshiro_next(s), word: xoshiro_out(s), used: 0 }
}

/// The 32-byte key from which a seed's generator starts.
pub open spec fn prng_key(seed: Seq<u8>) -> Seq<u8> {
    crate::crypto::pbkdf2_sha1(
        crate::crypto::hmac_sha256(seed, "PERMUTATION_MATRIX_SELECTOR".spec_bytes()),
        "___QUANTUM_PERMUTATION_PAD_PRNG_SALT___".spec_bytes(),
        PBKDF2_LOOPS as nat,
        32,
    )
}

/// The key stream of a seed, at its start.
pub open spec fn seed_stream(seed: Seq<u8>) -> KeyStream {
    stream_from_state(state_of_key(prng_key(seed)))
}

/// Starts the generator from a 32-byte key.
pub fn prng_from_key(key: &[u8]) -> (rand: Rand)
    requires
        key@.len() == 32,
    ensures
        rand@ == stream_from_state(state_of_key(key@)),
{
    let a: u64 = u64_from_le_bytes(slice_subrange(key, 0, 8));
    let b: u64 = u64_from_le_bytes(slice_subrange(key, 8, 16));
    let c: u64 = u64_from_le_bytes(slice_subrange(key, 16, 24));
    let d: u64 = u64_from_le_bytes(slice_subrange(key, 24, 32));
    let mut xoshiro: [u64; 4] = [a, b, c, d];
    assert(xoshiro@ =~= state_of_key(key@));
    let seed64: u64 = xoshiro256ss(&mut xoshiro);
    Rand { xoshiro, seed64, count: 0 }
}

/// Creates the generator of a seed.
pub fn create_prng(seed: &[u8]) -> (rand: Rand)
    ensures
        rand@ == seed_stream(seed@),
{
    let sum = hmac_sha256_tag(seed, "PERMUTATION_MATRIX_SELECTOR".as_bytes());
    let key = pbkdf2_sha1_32(
        sum.as_slice(),
        "___QUANTUM_PERMUTATION_PAD_PRNG_SALT___".as_bytes(),
        PBKDF2_LOOPS,
    );
    prng_from_key(key.as_slice())
}

} // verus!
