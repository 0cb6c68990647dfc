//! Encryption and decryption through permutation pads.

use crate::crypto::pbkdf2_sha1_32;
use crate::qpp::cipher::shuffle_pad;
use crate::qpp::prng::{create_prng, xoshiro256ss, Rand, PAD_SWITCH, PBKDF2_LOOPS};
use crate::qpp::seed::seed_to_chunks;
use vstd::prelude::*;
use vstd::string::StringSliceAdditionalSpecFns;

verus! {

/// The AES-256 key that a chunk gives for shuffling.
pub open spec fn shuffle_key(chunk: Seq<u8>) -> Seq<u8> {
    crate::crypto::pbkdf2_sha1(
        chunk,
        "___QUANTUM_PERMUTATION_PAD_SHUFFLE_SALT___".spec_bytes(),
        PBKDF2_LOOPS as nat,
        32,
    )
}

/// The byte values in order.
pub open spec fn identity_pad() -> Seq<u8> {
    Seq::new(256, |j: int| j as u8)
}

/// Pad number `i` of a key.
pub open spec fn key_pad(key: Seq<u8>, i: int) -> Seq<u8> {
    let chunks = crate::qpp::seed::seed_chunks(key);
    crate::qpp::cipher::shuffled(
        Seq::new(chunks.len(), |c: int| shuffle_key(chunks[c])),
        crate::crypto::hmac_sha256(
            chunks[i % (chunks.len() as int)],
            crate::qpp::cipher::pad_message(i as u16),
        ),
        identity_pad(),
        255,
    )
}

/// The first `n` pads of a key, one after the other.
pub open spec fn key_pads(key: Seq<u8>, n: int) -> Seq<u8> {
    Seq::new((n * 256) as nat, |x: int| key_pad(key, x / 256)[x % 256])
}

/// A pad is a permutation of the byte values.
pub proof fn law_key_pad_is_permutation(key: Seq<u8>, i: int)
    ensures
        crate::qpp::cipher::is_permutation(key_pad(key, i)),
        key_pad(key, i).len() == 256,
{
    let chunks = crate::qpp::seed::seed_chunks(key);
    crate::qpp::cipher::law_shuffle_keeps_permutation(
        Seq::new(chunks.len(), |c: int| shuffle_key(chunks[c])),
        crate::crypto::hmac_sha256(
            chunks[i % (chunks.len() as int)],
            crate::qpp::cipher::pad_message(i as u16),
        ),
        identity_pad(),
        255,
    );
}

/// Byte `b` encrypted where the key stream stands at `k`.
pub open spec fn encrypt_byte(pads: Seq<u8>, num_pads: u16, k: crate::qpp::prng::KeyStream, b: u8) -> u8 {
    pads[k.base(num_pads) + (b ^ k.mask())]
}

/// Byte `b` decrypted where the key stream stands at `k`.
pub open spec fn decrypt_byte(rpads: Seq<u8>, num_pads: u16, k: crate::qpp::prng::KeyStream, b: u8) -> u8 {
    rpads[k.base(num_pads) + b] ^ k.mask()
}

/// `data` encrypted from where the key stream stands at `k`.
pub open spec fn encrypted(
    pads: Seq<u8>,
    num_pads: u16,
    k: crate::qpp::prng::KeyStream,
    data: Seq<u8>,
) -> Seq<u8> {
    Seq::new(data.len(), |i: int| encrypt_byte(pads, num_pads, k.after(i as nat), data[i]))
}

/// `data` decrypted from where the key stream stands at `k`.
pub open spec fn decrypted(
    rpads: Seq<u8>,
    num_pads: u16,
    k: crate::qpp::prng::KeyStream,
    data: Seq<u8>,
) -> Seq<u8> {
    Seq::new(data.len(), |i: int| decrypt_byte(rpads, num_pads, k.after(i as nat), data[i]))
}

/// Encrypts `data` in place through `num_pads` pads of 256 bytes each, and
/// leaves the key stream where the next byte of the stream takes it up.
/// Without pads, or without data, nothing happens.
pub fn encrypt_with_pads(pads: &[u8], data: &mut [u8], rand: &mut Rand, num_pads: u16)
    requires
        old(data)@.len() > 0 ==> pads@.len() >= num_pads * 256,
    ensures
        num_pads == 0 || old(data)@.len() == 0 ==> final(data)@ == old(data)@ && final(rand)@ == old(rand)@,
        num_pads != 0 ==> final(data)@ == encrypted(pads@, num_pads, old(rand)@, old(data)@)
            && final(rand)@ == old(rand)@.after(old(data)@.len()),
{
    if data.is_empty() || num_pads == 0 {
        assert(data@ =~= encrypted(pads@, num_pads, rand@, data@) || num_pads == 0);
        return;
    }
    let ghost k0 = rand@;
    let ghost data0 = data@;
    let size: usize = data.len();
    let parts = rand.parts();
    let mut xoshiro: [u64; 4] = parts.0;
    let mut r: u64 = parts.1;
    let mut base: usize = (r as u16 % num_pads) as usize * 256;
    let mut count: u8 = parts.2;
    let mut offset: usize = 0;
    while offset < size
        invariant
            0 < num_pads,
            pads@.len() >= num_pads * 256,
            size == data0.len(),
            data@.len() == size,
            offset <= size,
            count < PAD_SWITCH,
            k0.after(offset as nat) == (crate::qpp::prng::KeyStream {
                state: xoshiro@,
                word: r,
                used: count as nat,
            }),
            base == k0.after(offset as nat).base(num_pads),
            forall|i: int|
                0 <= i < offset ==> data@[i] == encrypt_byte(
                    pads@,
                    num_pads,
                    k0.after(i as nat),
                    data0[i],
                ),
            forall|i: int| offset <= i < size ==> data@[i] == data0[i],
        decreases size - offset,
    {
        let rr: u8 = (r >> (count * 8) as u64) as u8;
        let masked: u8 = data[offset] ^ rr;
        data[offset] = pads[base + masked as usize];
        count = count + 1;
        if count == PAD_SWITCH {
            r = xoshiro256ss(&mut xoshiro);
            base = (r as u16 % num_pads) as usize * 256;
            count = 0;
        }
        offset = offset + 1;
    }
    rand.set_parts(xoshiro, r, count);
    assert(data@ =~= encrypted(pads@, num_pads, k0, data0));
}

/// Decrypts `data` in place through `num_pads` reverse pads of 256 bytes each, and
/// leaves the key stream where the next byte of the stream takes it up.
/// Without pads, or without data, nothing happens.
pub fn decrypt_with_pads(rpads: &[u8], data: &mut [u8], rand: &mut Rand, num_pads: u16)
    requires
        old(data)@.len() > 0 ==> rpads@.len() >= num_pads * 256,
    ensures
        num_pads == 0 || old(data)@.len() == 0 ==> final(data)@ == old(data)@ && final(rand)@ == old(rand)@,
        num_pads != 0 ==> final(data)@ == decrypted(rpads@, num_pads, old(rand)@, old(data)@)
            && final(rand)@ == old(rand)@.after(old(data)@.len()),
{
    if data.is_empty() || num_pads == 0 {
        assert(data@ =~= decrypted(rpads@, num_pads, rand@, data@) || num_pads == 0);
        return;
    }
    let ghost k0 = rand@;
    let ghost data0 = data@;
    let size: usize = data.len();
    let parts = rand.parts();
    let mut xoshiro: [u64; 4] = parts.0;
    let mut r: u64 = parts.1;
    let mut base: usize = (r as u16 % num_pads) as usize * 256;
    let mut count: u8 = parts.2;
    let mut offset: usize = 0;
    while offset < size
        invariant
            0 < num_pads,
            rpads@.len() >= num_pads * 256,
            size == data0.len(),
            data@.len() == size,
            offset <= size,
            count < PAD_SWITCH,
            k0.after(offset as nat) == (crate::qpp::prng::KeyStream {
                state: xoshiro@,
                word: r,
                used: count as nat,
            }),
            base == k0.after(offset as nat).base(num_pads),
            forall|i: int|
                0 <= i < offset ==> data@[i] == decrypt_byte(
                    rpads@,
                    num_pads,
                    k0.after(i as nat),
                    data0[i],
                ),
            forall|i: int| offset <= i < size ==> data@[i] == data0[i],
        decreases size - offset,
    {
        let rr: u8 = (r >> (count * 8) as u64) as u8;
        data[offset] = rpads[base + data[offset] as usize] ^ rr;
        count = count + 1;
        if count == PAD_SWITCH {
            r = xoshiro256ss(&mut xoshiro);
            base = (r as u16 % num_pads) as usize * 256;
            count = 0;
        }
        offset = offset + 1;
    }
    rand.set_parts(xoshiro, r, count);
    assert(data@ =~= decrypted(rpads@, num_pads, k0, data0));
}

/// The inverse of a permutation of the byte values.
fn invert_pad(pad: &Vec<u8>) -> (rpad: Vec<u8>)
    requires
        pad@.len() == 256,
        crate::qpp::cipher::is_permutation(pad@),
    ensures
        rpad@.len() == 256,
        forall|v: int| 0 <= v < 256 ==> rpad@[(#[trigger] pad@[v]) as int] == v,
{
    let mut rpad: Vec<u8> = Vec::new();
    let mut j: usize = 0;
    while j < 256
        invariant
            j <= 256,
            rpad@.len() == j,
        decreases 256 - j,
    {
        rpad.push(0);
        j = j + 1;
    }
    let mut v: usize = 0;
    while v < 256
        invariant
            v <= 256,
            pad@.len() == 256,
            rpad@.len() == 256,
            crate::qpp::cipher::is_permutation(pad@),
            forall|w: int| 0 <= w < v ==> rpad@[(#[trigger] pad@[w]) as int] == w,
        decreases 256 - v,
    {
        let slot: usize = pad[v] as usize;
        rpad[slot] = v as u8;
        v = v + 1;
    }
    rpad
}

/// Each of the first `num_pads` reverse pads undoes its pad: looking a byte up
/// in the pad and the result up in the reverse pad gives the byte back.
pub open spec fn inverse_pads(pads: Seq<u8>, rpads: Seq<u8>, num_pads: u16) -> bool {
    &&& pads.len() >= num_pads * 256
    &&& rpads.len() >= num_pads * 256
    &&& forall|p: int, v: int|
        #![trigger pads[p * 256 + v]]
        0 <= p < num_pads && 0 <= v < 256 ==> rpads[p * 256 + pads[p * 256 + v]] == v
}

/// Decryption undoes encryption: data that was encrypted through pads comes
/// back when it is decrypted through their reverse pads from the same place of
/// the key stream.
pub proof fn law_decrypt_undoes_encrypt(
    pads: Seq<u8>,
    rpads: Seq<u8>,
    num_pads: u16,
    k: crate::qpp::prng::KeyStream,
    data: Seq<u8>,
)
    requires
        num_pads > 0,
        inverse_pads(pads, rpads, num_pads),
    ensures
        decrypted(rpads, num_pads, k, encrypted(pads, num_pads, k, data)) == data,
{
    let enc = encrypted(pads, num_pads, k, data);
    assert forall|i: int| 0 <= i < data.len() implies decrypt_byte(
        rpads,
        num_pads,
        k.after(i as nat),
        enc[i],
    ) == data[i] by {
        let ki = k.after(i as nat);
        let m = ki.mask();
        let b = data[i];
        let p = ((ki.word as u16) % num_pads) as int;
        let v = (b ^ m) as int;
        assert(enc[i] == pads[p * 256 + v]);
        assert((b ^ m) ^ m == b) by (bit_vector);
    }
    assert(decrypted(rpads, num_pads, k, enc) =~= data);
}

/// `m` bytes of the key stream and `n` more are `m + n` bytes of it.
pub proof fn lemma_after_after(k: crate::qpp::prng::KeyStream, m: nat, n: nat)
    ensures
        k.after(m).after(n) == k.after(m + n),
    decreases n,
{
    if n > 0 {
        lemma_after_after(k, m, (n - 1) as nat);
        assert((m + n - 1) as nat == m + (n - 1) as nat);
    }
}

/// The cipher works on a stream: encrypting two pieces one after the other
/// gives what encrypting them as one piece gives.
pub proof fn law_encrypt_pieces(
    pads: Seq<u8>,
    num_pads: u16,
    k: crate::qpp::prng::KeyStream,
    a: Seq<u8>,
    b: Seq<u8>,
)
    ensures
        encrypted(pads, num_pads, k, a + b) == encrypted(pads, num_pads, k, a) + encrypted(
            pads,
            num_pads,
            k.after(a.len()),
            b,
        ),
        k.after(a.len()).after(b.len()) == k.after((a + b).len()),
{
    lemma_after_after(k, a.len(), b.len());
    let whole = encrypted(pads, num_pads, k, a + b);
    let parts = encrypted(pads, num_pads, k, a) + encrypted(pads, num_pads, k.after(a.len()), b);
    assert forall|i: int| 0 <= i < whole.len() implies whole[i] == parts[i] by {
        if i >= a.len() {
            lemma_after_after(k, a.len(), (i - a.len()) as nat);
        }
    }
    assert(whole =~= parts);
}

/// The same of decryption: pieces may be cut anywhere.
pub proof fn law_decrypt_pieces(
    rpads: Seq<u8>,
    num_pads: u16,
    k: crate::qpp::prng::KeyStream,
    a: Seq<u8>,
    b: Seq<u8>,
)
    ensures
        decrypted(rpads, num_pads, k, a + b) == decrypted(rpads, num_pads, k, a) + decrypted(
            rpads,
            num_pads,
            k.after(a.len()),
            b,
        ),
        k.after(a.len()).after(b.len()) == k.after((a + b).len()),
{
    lemma_after_after(k, a.len(), b.len());
    let whole = decrypted(rpads, num_pads, k, a + b);
    let parts = decrypted(rpads, num_pads, k, a) + decrypted(rpads, num_pads, k.after(a.len()), b);
    assert forall|i: int| 0 <= i < whole.len() implies whole[i] == parts[i] by {
        if i >= a.len() {
            lemma_after_after(k, a.len(), (i - a.len()) as nat);
        }
    }
    assert(whole =~= parts);
}

/// A quantum permutation pad: pads for encryption, their inverses for
/// decryption, and a key stream for each direction.
#[derive(Debug)]
pub struct QuantumPermutationPad {
    /// Encryption pads, 256 bytes each.
    pub pads: Vec<u8>,
    /// Decryption pads, each the inverse of its encryption pad.
    pub rpads: Vec<u8>,
    /// How many pads there are.
    pub num_pads: u16,
    /// The key stream for encryption.
    pub enc_rand: Rand,
    /// The key stream for decryption.
    pub dec_rand: Rand,
}

impl QuantumPermutationPad {
    /// How many pads there are.
    pub open spec fn num_pads(&self) -> u16 {
        self.num_pads
    }

    /// What the encryption pads hold.
    pub open spec fn forward(&self) -> Seq<u8> {
        self.pads@
    }

    /// What the decryption pads hold.
    pub open spec fn reverse(&self) -> Seq<u8> {
        self.rpads@
    }

    /// Where the key stream for encryption stands.
    pub open spec fn enc_stream(&self) -> crate::qpp::prng::KeyStream {
        self.enc_rand@
    }

    /// Where the key stream for decryption stands.
    pub open spec fn dec_stream(&self) -> crate::qpp::prng::KeyStream {
        self.dec_rand@
    }

    /// There is at least one pad, and each pad has its inverse.
    pub open spec fn wf(&self) -> bool {
        &&& self.num_pads() > 0
        &&& inverse_pads(self.forward(), self.reverse(), self.num_pads())
    }

    /// Makes the pads of a key: `num_pads` of them, or one where that is 0.
    pub fn new(key: &[u8], num_pads: u16) -> (qpp: Self)
        ensures
            qpp.num_pads() == (if num_pads == 0 { 1 } else { num_pads }),
            qpp.forward() == key_pads(key@, qpp.num_pads() as int),
            qpp.reverse().len() == qpp.forward().len(),
            qpp.wf(),
            qpp.enc_stream() == crate::qpp::prng::seed_stream(key@),
            qpp.dec_stream() == crate::qpp::prng::seed_stream(key@),
    {
        let num_pads: u16 = if num_pads == 0 {
            1
        } else {
            num_pads
        };
        let chunks = seed_to_chunks(key);
        let ghost rows = crate::wire::byte_rows(chunks@);
        let mut keys: Vec<Vec<u8>> = Vec::new();
        let mut c: usize = 0;
        while c < chunks.len()
            invariant
                c <= chunks@.len(),
                rows == crate::wire::byte_rows(chunks@),
                keys@.len() == c,
                forall|x: int|
                    0 <= x < c ==> (#[trigger] keys@[x])@ == shuffle_key(rows[x])
                        && keys@[x]@.len() == 32,
            decreases chunks@.len() - c,
        {
            keys.push(
                pbkdf2_sha1_32(
                    chunks[c].as_slice(),
                    "___QUANTUM_PERMUTATION_PAD_SHUFFLE_SALT___".as_bytes(),
                    PBKDF2_LOOPS,
                ),
            );
            c = c + 1;
        }
        let ghost key_rows = Seq::new(rows.len(), |x: int| shuffle_key(rows[x]));
        assert(crate::wire::byte_rows(keys@) =~= key_rows);

        let mut pads: Vec<u8> = Vec::new();
        let mut rpads: Vec<u8> = Vec::new();
        let mut i: u16 = 0;
        while i < num_pads
            invariant
                i <= num_pads,
                rows == crate::qpp::seed::seed_chunks(key@),
                rows == crate::wire::byte_rows(chunks@),
                chunks@.len() > 0,
                key_rows == Seq::new(rows.len(), |x: int| shuffle_key(rows[x])),
                crate::wire::byte_rows(keys@) == key_rows,
                forall|x: int| 0 <= x < keys@.len() ==> (#[trigger] keys@[x])@.len() == 32,
                pads@ == key_pads(key@, i as int),
                rpads@.len() == i * 256,
                inverse_pads(pads@, rpads@, i),
            decreases num_pads - i,
        {
            let mut pad: Vec<u8> = Vec::new();
            let mut j: usize = 0;
            while j < 256
                invariant
                    j <= 256,
                    pad@.len() == j,
                    forall|y: int| 0 <= y < j ==> pad@[y] == y,
                decreases 256 - j,
            {
                pad.push(j as u8);
                j = j + 1;
            }
            assert(pad@ =~= identity_pad());
            let chunk: &Vec<u8> = &chunks[i as usize % chunks.len()];
            shuffle_pad(chunk.as_slice(), &mut pad, i, &keys);
            assert(pad@ == key_pad(key@, i as int));
            proof {
                law_key_pad_is_permutation(key@, i as int);
            }
            let mut rpad = invert_pad(&pad);
            let ghost pads0 = pads@;
            let ghost rpads0 = rpads@;
            let ghost pad0 = pad@;
            let ghost rpad0 = rpad@;
            pads.append(&mut pad);
            rpads.append(&mut rpad);
            assert(pads@ =~= key_pads(key@, i + 1));
            assert(inverse_pads(pads@, rpads@, (i + 1) as u16)) by {
                assert forall|p: int, v: int|
                    #![trigger pads@[p * 256 + v]]
                    0 <= p < i + 1 && 0 <= v < 256 implies rpads@[p * 256 + pads@[p * 256 + v]]
                    == v by {
                    if p < i {
                        assert(pads@[p * 256 + v] == pads0[p * 256 + v]);
                    } else {
                        assert(pads@[p * 256 + v] == pad0[v]);
                        assert(rpads@[p * 256 + pad0[v]] == rpad0[pad0[v] as int]);
                    }
                }
            }
            i = i + 1;
        }
        QuantumPermutationPad {
            pads,
            rpads,
            num_pads,
            enc_rand: create_prng(key),
            dec_rand: create_prng(key),
        }
    }

    /// Encrypts data in place, going on where the last call left off.
    pub fn encrypt(&mut self, data: &mut [u8])
        requires
            old(self).wf(),
        ensures
            final(data)@ == encrypted(
                old(self).forward(),
                old(self).num_pads(),
                old(self).enc_stream(),
                old(data)@,
            ),
            final(self).enc_stream() == old(self).enc_stream().after(old(data)@.len()),
            final(self).dec_stream() == old(self).dec_stream(),
            final(self).forward() == old(self).forward(),
            final(self).reverse() == old(self).reverse(),
            final(self).num_pads() == old(self).num_pads(),
    {
        encrypt_with_pads(self.pads.as_slice(), data, &mut self.enc_rand, self.num_pads);
    }

    /// Decrypts data in place, going on where the last call left off.
    pub fn decrypt(&mut self, data: &mut [u8])
        requires
            old(self).wf(),
        ensures
            final(data)@ == decrypted(
                old(self).reverse(),
                old(self).num_pads(),
                old(self).dec_stream(),
                old(data)@,
            ),
            final(self).dec_stream() == old(self).dec_stream().after(old(data)@.len()),
            final(self).enc_stream() == old(self).enc_stream(),
            final(self).forward() == old(self).forward(),
            final(self).reverse() == old(self).reverse(),
            final(self).num_pads() == old(self).num_pads(),
    {
        decrypt_with_pads(self.rpads.as_slice(), data, &mut self.dec_rand, self.num_pads);
    }

    /// The number of pads.
    pub fn count(&self) -> (n: u16)
        ensures
            n == self.num_pads(),
    {
        self.num_pads
    }
}

/// Two devices of one key understand each other: what the first encrypts, the
/// second decrypts to the same data, as long as the one has decrypted as many
/// bytes as the other has encrypted.
pub proof fn law_peers_understand(
    a: QuantumPermutationPad,
    b: QuantumPermutationPad,
    key: Seq<u8>,
    sent: nat,
    data: Seq<u8>,
)
    requires
        b.wf(),
        a.num_pads() == b.num_pads(),
        a.forward() == key_pads(key, a.num_pads() as int),
        b.forward() == key_pads(key, b.num_pads() as int),
        a.enc_stream() == crate::qpp::prng::seed_stream(key).after(sent),
        b.dec_stream() == crate::qpp::prng::seed_stream(key).after(sent),
    ensures
        decrypted(
            b.reverse(),
            b.num_pads(),
            b.dec_stream(),
            encrypted(a.forward(), a.num_pads(), a.enc_stream(), data),
        ) == data,
        a.enc_stream().after(data.len()) == crate::qpp::prng::seed_stream(key).after(
            sent + data.len(),
        ),
        b.dec_stream().after(data.len()) == crate::qpp::prng::seed_stream(key).after(
            sent + data.len(),
        ),
{
    law_decrypt_undoes_encrypt(
        b.forward(),
        b.reverse(),
        b.num_pads(),
        b.dec_stream(),
        data,
    );
    lemma_after_after(crate::qpp::prng::seed_stream(key), sent, data.len());
}

} // verus!
