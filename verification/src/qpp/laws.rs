//! What the permutation pads are for: how a key reaches the pads, and how pads
//! and key stream change data. The laws speak of what calls take and give.

use crate::qpp::cipher::shuffle_pad;
use crate::qpp::pad::{decrypt_with_pads, encrypt_with_pads, QuantumPermutationPad};
use crate::qpp::prng::{create_prng, prng_from_key, xoshiro256ss, Rand};
use crate::qpp::seed::{qpp_minimum_seed_length_inner, seed_to_chunks};
use vstd::prelude::*;
use vstd::string::StringSliceAdditionalSpecFns;

verus! {

/// `k` copies of a seed, one behind the other.
pub open spec fn repeated(seed: Seq<u8>, k: nat) -> Seq<u8>
    decreases k,
{
    if k == 0 {
        Seq::empty()
    } else {
        repeated(seed, (k - 1) as nat) + seed
    }
}

/// What a chunk is derived as from 32 bytes.
pub open spec fn chunk_from(window: Seq<u8>) -> Seq<u8> {
    crate::crypto::pbkdf2_sha1(
        window,
        "___QUANTUM_PERMUTATION_PAD_SEED_DERIVE___".spec_bytes(),
        1024,
        32,
    )
}

proof fn lemma_repeated(seed: Seq<u8>, k: nat, x: int)
    requires
        seed.len() > 0,
    ensures
        repeated(seed, k).len() == k * seed.len(),
        0 <= x < k * seed.len() ==> repeated(seed, k)[x] == seed[x % (seed.len() as int)],
    decreases k,
{
    let n = seed.len() as int;
    if k > 0 {
        lemma_repeated(seed, (k - 1) as nat, x);
        assert(k * n == (k - 1) * n + n) by (nonlinear_arith);
        let before = (k - 1) * n;
        if before <= x < before + n {
            assert(x == n * (k - 1) + (x - before)) by (nonlinear_arith)
                requires
                    before == (k - 1) * n,
            ;
            vstd::arithmetic::div_mod::lemma_fundamental_div_mod_converse(x, n, k - 1, x - before);
        }
    } else {
        assert(0 * n == 0);
    }
}

/// The windows that chunks are derived from run through the seed without a gap
/// and begin again at its end: chunk `i` comes from bytes `32 * i` to
/// `32 * i + 31` of the seed repeated without end. So all of the key counts.
pub proof fn law_chunks_run_through_the_seed(seed: &[u8], chunks: Vec<Vec<u8>>, i: int, k: nat)
    requires
        call_ensures(seed_to_chunks, (seed,), chunks),
        seed@.len() >= 32,
        0 <= i < chunks@.len(),
        32 * i + 32 <= k * seed@.len(),
    ensures
        chunks@[i]@ == chunk_from(repeated(seed@, k).subrange(32 * i, 32 * i + 32)),
        32 * i + 32 <= seed@.len() ==> chunks@[i]@ == chunk_from(
            seed@.subrange(32 * i, 32 * i + 32),
        ),
{
    let w = crate::qpp::seed::seed_window(seed@, i);
    lemma_repeated(seed@, k, 0);
    assert forall|j: int| 0 <= j < 32 implies w[j] == repeated(seed@, k)[32 * i + j] by {
        lemma_repeated(seed@, k, 32 * i + j);
    }
    assert(w =~= repeated(seed@, k).subrange(32 * i, 32 * i + 32));
    assert(crate::wire::byte_rows(chunks@)[i] == chunks@[i]@);
    assert(crate::wire::byte_rows(chunks@) == crate::qpp::seed::seed_chunks(seed@));
    assert(crate::qpp::seed::seed_chunks(seed@).len() == chunks@.len());
    assert(crate::qpp::seed::stretched_seed(seed@) == seed@);
    assert(crate::qpp::seed::derive_chunk(w) == chunk_from(w));
    if 32 * i + 32 <= seed@.len() {
        assert forall|j: int| 0 <= j < 32 implies w[j] == seed@[32 * i + j] by {
            vstd::arithmetic::div_mod::lemma_small_mod(
                (32 * i + j) as nat,
                seed@.len(),
            );
        }
        assert(w =~= seed@.subrange(32 * i, 32 * i + 32));
    }
}

/// The windows put together: for a seed of 32 bytes and more, the first `n`
/// windows are the first `32 * n` bytes of the seed repeated without end.
pub proof fn law_windows_make_up_the_seed(seed: Seq<u8>, n: nat, k: nat)
    requires
        seed.len() >= 32,
        32 * n <= k * seed.len(),
    ensures
        crate::common::kcptun_session::joined(
            Seq::new(n, |i: int| crate::qpp::seed::seed_window(seed, i)),
        ) == repeated(seed, k).take((32 * n) as int),
    decreases n,
{
    lemma_repeated(seed, k, 0);
    let all = Seq::new(n, |i: int| crate::qpp::seed::seed_window(seed, i));
    if n == 0 {
        assert(repeated(seed, k).take(0) =~= Seq::empty());
    } else {
        let m = (n - 1) as nat;
        law_windows_make_up_the_seed(seed, m, k);
        assert(all.drop_last() =~= Seq::new(m, |i: int| crate::qpp::seed::seed_window(seed, i)));
        let w = crate::qpp::seed::seed_window(seed, m as int);
        assert forall|j: int| 0 <= j < 32 implies w[j] == repeated(seed, k)[32 * m + j] by {
            lemma_repeated(seed, k, 32 * m + j);
        }
        assert(repeated(seed, k).take((32 * m) as int) + w =~= repeated(seed, k).take(
            (32 * n) as int,
        ));
    }
}

/// A short seed is stretched to 32 bytes first, and all chunks come from those.
pub proof fn law_short_seed_is_stretched(seed: &[u8], chunks: Vec<Vec<u8>>, i: int)
    requires
        call_ensures(seed_to_chunks, (seed,), chunks),
        seed@.len() < 32,
        0 <= i < chunks@.len(),
    ensures
        chunks@[i]@ == chunk_from(chunk_from(seed@)),
{
    let s = chunk_from(seed@);
    let w = crate::qpp::seed::seed_window(s, i);
    assert(crate::wire::byte_rows(chunks@)[i] == chunks@[i]@);
    assert(crate::wire::byte_rows(chunks@) == crate::qpp::seed::seed_chunks(seed@));
    assert(crate::qpp::seed::derive_chunk(seed@) == s);
    assert(crate::qpp::seed::derive_chunk(w) == chunk_from(w));
    assert(crate::qpp::seed::stretched_seed(seed@) == s);
    assert(crate::qpp::seed::seed_chunks(seed@).len() == chunks@.len());
    assert forall|j: int| 0 <= j < 32 implies w[j] == s[j] by {
        vstd::arithmetic::div_mod::lemma_mod_multiples_vanish(i, j, 32);
        vstd::arithmetic::div_mod::lemma_small_mod(j as nat, 32);
    }
    assert(w =~= s);
}

/// There are as many chunks as it takes to hold a seed that tells all orders of
/// 256 values apart, and no more.
pub proof fn law_chunks_hold_the_least_seed(seed: &[u8], chunks: Vec<Vec<u8>>, k: usize)
    requires
        call_ensures(seed_to_chunks, (seed,), chunks),
        call_ensures(qpp_minimum_seed_length_inner, (8u8,), k),
        k > 0,
    ensures
        32 * (chunks@.len() - 1) < k <= 32 * chunks@.len(),
{
    assert(crate::wire::byte_rows(chunks@).len() == chunks@.len());
}

/// The number that binary digits in ASCII write.
pub open spec fn binary_value(s: Seq<u8>) -> nat
    decreases s.len(),
{
    if s.len() == 0 {
        0
    } else {
        2 * binary_value(s.drop_last()) + (if s.last() == 0x31 {
            1nat
        } else {
            0
        })
    }
}

proof fn lemma_binary_digits(n: nat)
    ensures
        binary_value(crate::qpp::cipher::binary_digits(n)) == n,
        crate::qpp::cipher::binary_digits(n).len() > 0,
        forall|i: int|
            0 <= i < crate::qpp::cipher::binary_digits(n).len() ==> (
            #[trigger] crate::qpp::cipher::binary_digits(n)[i] == 0x30
                || crate::qpp::cipher::binary_digits(n)[i] == 0x31),
        n > 0 ==> crate::qpp::cipher::binary_digits(n)[0] == 0x31,
    decreases n,
{
    let d = crate::qpp::cipher::binary_digits(n);
    if n < 2 {
        assert(d.drop_last() =~= Seq::<u8>::empty());
        reveal_with_fuel(binary_value, 2);
    } else {
        lemma_binary_digits(n / 2);
        assert(d.drop_last() =~= crate::qpp::cipher::binary_digits(n / 2));
    }
}

/// A pad is named by `QPP_` and its number in binary digits, without leading
/// zeros: no two pads share a name.
pub proof fn law_pads_are_named_by_number(id: u16)
    ensures
        ({
            let m = crate::qpp::cipher::pad_message(id);
            let tag = "QPP_".spec_bytes();
            let digits = m.skip(tag.len() as int);
            &&& m.take(tag.len() as int) == tag
            &&& digits.len() > 0
            &&& forall|i: int|
                0 <= i < digits.len() ==> (#[trigger] digits[i] == 0x30 || digits[i] == 0x31)
            &&& binary_value(digits) == id
            &&& id > 0 ==> digits[0] == 0x31
        }),
{
    lemma_binary_digits(id as nat);
    let tag = "QPP_".spec_bytes();
    let d = crate::qpp::cipher::binary_digits(id as nat);
    assert((tag + d).take(tag.len() as int) =~= tag);
    assert((tag + d).skip(tag.len() as int) =~= d);
}

/// Pad `i` of a key: it is shuffled under the keys of all chunks, and begins
/// with its name under chunk `r`, where the chunks are gone through again and
/// again.
pub proof fn law_pads_take_turns_on_the_chunks(
    key: &[u8],
    num_pads: u16,
    qpp: QuantumPermutationPad,
    chunks: Vec<Vec<u8>>,
    i: int,
    q: int,
    r: int,
    v: int,
)
    requires
        call_ensures(QuantumPermutationPad::new, (key, num_pads), qpp),
        call_ensures(seed_to_chunks, (key,), chunks),
        0 <= i < num_pads,
        i == q * chunks@.len() + r,
        0 <= r < chunks@.len(),
        0 <= v < 256,
    ensures
        qpp.pads@.len() == 256 * num_pads,
        qpp.pads@[256 * i + v] == crate::qpp::cipher::shuffled(
            Seq::new(
                chunks@.len(),
                |c: int|
                    crate::crypto::pbkdf2_sha1(
                        chunks@[c]@,
                        "___QUANTUM_PERMUTATION_PAD_SHUFFLE_SALT___".spec_bytes(),
                        128,
                        32,
                    ),
            ),
            crate::crypto::hmac_sha256(
                chunks@[r]@,
                crate::qpp::cipher::pad_message(i as u16),
            ),
            Seq::new(256, |j: int| j as u8),
            255,
        )[v],
{
    let rows = crate::qpp::seed::seed_chunks(key@);
    assert(crate::wire::byte_rows(chunks@) == rows);
    assert(i == chunks@.len() * q + r) by (nonlinear_arith)
        requires
            i == q * chunks@.len() + r,
    ;
    vstd::arithmetic::div_mod::lemma_fundamental_div_mod_converse(
        i,
        chunks@.len() as int,
        q,
        r,
    );
    assert(rows[r] == chunks@[r]@);
    let keys = Seq::new(
        chunks@.len(),
        |c: int|
            crate::crypto::pbkdf2_sha1(
                chunks@[c]@,
                "___QUANTUM_PERMUTATION_PAD_SHUFFLE_SALT___".spec_bytes(),
                128,
                32,
            ),
    );
    assert(keys =~= Seq::new(rows.len(), |c: int| crate::qpp::pad::shuffle_key(rows[c]))) by {
        assert forall|c: int| 0 <= c < rows.len() implies keys[c] == crate::qpp::pad::shuffle_key(
            rows[c],
        ) by {
            assert(rows[c] == chunks@[c]@);
        }
    }
    assert((256 * i + v) / 256 == i && (256 * i + v) % 256 == v);
    assert(Seq::new(256, |j: int| j as u8) =~= crate::qpp::pad::identity_pad());
}

/// Keys encrypt the 32 bytes one after the other, each both halves.
pub proof fn law_sum_is_encrypted_key_by_key(a: Seq<Seq<u8>>, b: Seq<Seq<u8>>, k: Seq<u8>, s: Seq<u8>)
    ensures
        crate::qpp::cipher::encrypt_sum(Seq::empty(), s) == s,
        crate::qpp::cipher::encrypt_sum(seq![k], s) == crate::crypto::aes256_block(k, s.take(16))
            + crate::crypto::aes256_block(k, s.subrange(16, 32)),
        crate::qpp::cipher::encrypt_sum(a + b, s) == crate::qpp::cipher::encrypt_sum(
            b,
            crate::qpp::cipher::encrypt_sum(a, s),
        ),
    decreases b.len(),
{
    reveal_with_fuel(crate::qpp::cipher::encrypt_sum, 2);
    assert(seq![k].drop_last() =~= Seq::<Seq<u8>>::empty());
    assert(s.subrange(0, 16) =~= s.take(16));
    if b.len() == 0 {
        assert(a + b =~= a);
    } else {
        law_sum_is_encrypted_key_by_key(a, b.drop_last(), k, s);
        assert((a + b).drop_last() =~= a + b.drop_last());
        assert((a + b).last() == b.last());
    }
}

/// The number that eight bytes write, highest first.
pub open spec fn first_eight(s: Seq<u8>) -> int {
    ((((((s[0] * 256 + s[1]) * 256 + s[2]) * 256 + s[3]) * 256 + s[4]) * 256 + s[5]) * 256 + s[6])
        * 256 + s[7]
}

proof fn lemma_first_eight(s: Seq<u8>)
    requires
        s.len() >= 8,
    ensures
        crate::wire::be_value(s.take(8)) == first_eight(s),
{
    reveal_with_fuel(crate::wire::be_value, 9);
    assert(s.take(8).drop_last() =~= s.take(7));
    assert(s.take(7).drop_last() =~= s.take(6));
    assert(s.take(6).drop_last() =~= s.take(5));
    assert(s.take(5).drop_last() =~= s.take(4));
    assert(s.take(4).drop_last() =~= s.take(3));
    assert(s.take(3).drop_last() =~= s.take(2));
    assert(s.take(2).drop_last() =~= s.take(1));
    assert(s.take(1).drop_last() =~= s.take(0));
}

/// A shuffle goes down from the top: step `n` puts at `p.len() - n` the value
/// that stood, among those from there down, at the place drawn by the first
/// eight bytes of the sum, and the value that it displaces takes that place.
/// All other values stay.
pub proof fn law_shuffle_draws_from_the_top_down(
    keys: Seq<Seq<u8>>,
    sum: Seq<u8>,
    p: Seq<u8>,
    n: nat,
    x: int,
)
    requires
        0 < n < p.len(),
        0 <= x < p.len(),
        crate::qpp::cipher::shuffled(keys, sum, p, (n - 1) as nat).len() == p.len(),
        crate::qpp::cipher::sum_after(keys, sum, n).len() >= 8,
    ensures
        ({
            let before = crate::qpp::cipher::shuffled(keys, sum, p, (n - 1) as nat);
            let after = crate::qpp::cipher::shuffled(keys, sum, p, n);
            let top = p.len() - n;
            let j = first_eight(crate::qpp::cipher::sum_after(keys, sum, n)) % (top + 1);
            &&& crate::qpp::cipher::sum_after(keys, sum, n) == crate::qpp::cipher::encrypt_sum(
                keys,
                crate::qpp::cipher::sum_after(keys, sum, (n - 1) as nat),
            )
            &&& 0 <= j <= top
            &&& after.len() == p.len()
            &&& after[top] == before[j]
            &&& after[j] == before[top]
            &&& x != top && x != j ==> after[x] == before[x]
        }),
        crate::qpp::cipher::shuffled(keys, sum, p, 0) == p,
        crate::qpp::cipher::sum_after(keys, sum, 0) == sum,
{
    lemma_first_eight(crate::qpp::cipher::sum_after(keys, sum, n));
}

/// A pad is shuffled all the way down, from the name of the pad under its chunk.
pub proof fn law_pad_is_shuffled_to_the_end(
    chunk: &[u8],
    pad: &mut Vec<u8>,
    id: u16,
    keys: &Vec<Vec<u8>>,
)
    requires
        call_ensures(shuffle_pad, (chunk, pad, id, keys), ()),
        old(pad)@.len() > 0,
    ensures
        final(pad)@ == crate::qpp::cipher::shuffled(
            Seq::new(keys@.len(), |i: int| keys@[i]@),
            crate::crypto::hmac_sha256(chunk@, crate::qpp::cipher::pad_message(id)),
            old(pad)@,
            (old(pad)@.len() - 1) as nat,
        ),
{
    assert(Seq::new(keys@.len(), |i: int| keys@[i]@) =~= crate::wire::byte_rows(keys@));
}

/// Rotating on by the rest of 64 bits goes all the way round.
pub proof fn law_rotation_goes_round(x: u64)
    ensures
        crate::qpp::prng::rotl(crate::qpp::prng::rotl(x, 7), 57) == x,
        crate::qpp::prng::rotl(crate::qpp::prng::rotl(x, 45), 19) == x,
{
    assert(((x << 7u64) | (x >> 57u64)) << 57u64 | ((x << 7u64) | (x >> 57u64)) >> 7u64 == x)
        by (bit_vector);
    assert(((x << 45u64) | (x >> 19u64)) << 19u64 | ((x << 45u64) | (x >> 19u64)) >> 45u64 == x)
        by (bit_vector);
}

/// A step of the generator can be followed back: from the state that it leaves,
/// `t`, and the second word that it began with, the others are found.
pub proof fn law_generator_step_can_be_followed_back(s: &mut [u64; 4], out: u64)
    requires
        call_ensures(xoshiro256ss, (s,), out),
    ensures
        ({
            let a = old(s)@;
            let t = final(s)@;
            let turned = (t[3] << 19u64) | (t[3] >> 45u64);
            &&& t.len() == 4
            &&& a[0] == t[0] ^ turned
            &&& a[3] == turned ^ a[1]
            &&& a[2] == (t[1] ^ a[1]) ^ a[0]
            &&& t[1] ^ t[2] == a[1] ^ (a[1] << 17u64)
            &&& out == ({
                let five = (a[1] * 5) % 0x1_0000_0000_0000_0000;
                let f = five as u64;
                (((f << 7u64) | (f >> 57u64)) * 9) % 0x1_0000_0000_0000_0000
            })
        }),
{
    let a0 = old(s)@[0];
    let a1 = old(s)@[1];
    let a2 = old(s)@[2];
    let a3 = old(s)@[3];
    let s3 = a3 ^ a1;
    let s2 = a2 ^ a0;
    law_rotation_goes_round(s3);
    assert((a0 ^ s3) ^ s3 == a0) by (bit_vector);
    assert((a3 ^ a1) ^ a1 == a3) by (bit_vector);
    assert(((a1 ^ s2) ^ a1) ^ a0 == s2 ^ a0) by (bit_vector);
    assert((a2 ^ a0) ^ a0 == a2) by (bit_vector);
    let sh = a1 << 17u64;
    assert((a1 ^ s2) ^ (s2 ^ sh) == a1 ^ sh) by (bit_vector);
}

/// A word gives its eight bytes, lowest first, as masks, and stays in force for
/// eight bytes of data; then the generator's next word follows.
pub proof fn law_word_masks_eight_bytes(k: crate::qpp::prng::KeyStream, n: nat)
    requires
        k.used < 8,
    ensures
        k.used == 0 ==> k.mask() == k.word % 256,
        k.used == 1 ==> k.mask() == k.word / 0x100 % 256,
        k.used == 2 ==> k.mask() == k.word / 0x1_0000 % 256,
        k.used == 3 ==> k.mask() == k.word / 0x100_0000 % 256,
        k.used == 4 ==> k.mask() == k.word / 0x1_0000_0000 % 256,
        k.used == 5 ==> k.mask() == k.word / 0x100_0000_0000 % 256,
        k.used == 6 ==> k.mask() == k.word / 0x1_0000_0000_0000 % 256,
        k.used == 7 ==> k.mask() == k.word / 0x100_0000_0000_0000,
        k.used + n < 8 ==> k.after(n) == (crate::qpp::prng::KeyStream { used: k.used + n, ..k }),
        k.used + n == 8 ==> k.after(n) == (crate::qpp::prng::KeyStream {
            state: crate::qpp::prng::xoshiro_next(k.state),
            word: crate::qpp::prng::xoshiro_out(k.state),
            used: 0,
        }),
    decreases n,
{
    let w = k.word;
    assert((w >> 0u64) as u8 == w % 256) by (bit_vector);
    assert((w >> 8u64) as u8 == w / 0x100 % 256) by (bit_vector);
    assert((w >> 16u64) as u8 == w / 0x1_0000 % 256) by (bit_vector);
    assert((w >> 24u64) as u8 == w / 0x100_0000 % 256) by (bit_vector);
    assert((w >> 32u64) as u8 == w / 0x1_0000_0000 % 256) by (bit_vector);
    assert((w >> 40u64) as u8 == w / 0x100_0000_0000 % 256) by (bit_vector);
    assert((w >> 48u64) as u8 == w / 0x1_0000_0000_0000 % 256) by (bit_vector);
    assert((w >> 56u64) as u8 == w / 0x100_0000_0000_0000) by (bit_vector);
    if n > 0 && k.used + n <= 8 {
        law_word_masks_eight_bytes(k, (n - 1) as nat);
    }
}

/// The pad in force is picked by the low 16 bits of the word, modulo the number
/// of pads.
pub proof fn law_word_picks_the_pad(k: crate::qpp::prng::KeyStream, num_pads: u16, q: int, p: int)
    requires
        num_pads > 0,
        k.word % 0x1_0000 == q * num_pads + p,
        0 <= p < num_pads,
    ensures
        k.base(num_pads) == 256 * p,
{
    let w = k.word;
    let m = num_pads as int;
    assert(w as u16 == w % 0x1_0000) by (bit_vector);
    assert(q * m + p == m * q + p) by (nonlinear_arith);
    vstd::arithmetic::div_mod::lemma_fundamental_div_mod_converse((w % 0x1_0000) as int, m, q, p);
}

/// A byte is encrypted by masking it and looking it up in the pad in force, and
/// decrypted the other way round, at every place of the data.
pub proof fn law_bytes_are_masked_and_looked_up(
    pads: &[u8],
    data: &mut [u8],
    rand: &mut Rand,
    num_pads: u16,
    i: int,
)
    requires
        num_pads > 0,
        0 <= i < old(data)@.len(),
    ensures
        call_ensures(encrypt_with_pads, (pads, data, rand, num_pads), ()) ==> {
            let k = old(rand)@.after(i as nat);
            &&& final(data)@.len() == old(data)@.len()
            &&& final(data)@[i] == pads@[k.base(num_pads) + (old(data)@[i] ^ k.mask())]
            &&& final(rand)@ == old(rand)@.after(old(data)@.len())
        },
        call_ensures(decrypt_with_pads, (pads, data, rand, num_pads), ()) ==> {
            let k = old(rand)@.after(i as nat);
            &&& final(data)@.len() == old(data)@.len()
            &&& final(data)@[i] == pads@[k.base(num_pads) + old(data)@[i]] ^ k.mask()
            &&& final(rand)@ == old(rand)@.after(old(data)@.len())
        },
{
}

/// What one device encrypts in a call, another of the same pads decrypts in a
/// call, from the same place of the key stream.
pub proof fn law_calls_undo_each_other(
    a: &mut QuantumPermutationPad,
    b: &mut QuantumPermutationPad,
    sent: &mut [u8],
    got: &mut [u8],
)
    requires
        call_ensures(QuantumPermutationPad::encrypt, (a, sent), ()),
        call_ensures(QuantumPermutationPad::decrypt, (b, got), ()),
        old(b).wf(),
        old(a).num_pads == old(b).num_pads,
        old(a).pads@ == old(b).pads@,
        old(a).enc_rand@ == old(b).dec_rand@,
        old(got)@ == final(sent)@,
    ensures
        final(got)@ == old(sent)@,
        final(a).enc_rand@ == final(b).dec_rand@,
        final(a).pads@ == old(a).pads@,
        final(b).rpads@ == old(b).rpads@,
{
    crate::qpp::pad::law_decrypt_undoes_encrypt(
        old(b).pads@,
        old(b).rpads@,
        old(b).num_pads,
        old(b).dec_rand@,
        old(sent)@,
    );
}

/// Both directions of a device begin with the key stream of the key, and no
/// pads at all stand for one.
pub proof fn law_directions_begin_alike(key: &[u8], num_pads: u16, qpp: QuantumPermutationPad, r: Rand)
    requires
        call_ensures(QuantumPermutationPad::new, (key, num_pads), qpp),
        call_ensures(create_prng, (key,), r),
    ensures
        qpp.enc_rand@ == r@,
        qpp.dec_rand@ == r@,
        num_pads > 0 ==> qpp.num_pads == num_pads,
        num_pads == 0 ==> qpp.num_pads == 1,
{
}

/// A generator takes its four words from the 32 bytes of its key, lowest byte
/// first, in order, and draws its first word at once.
pub proof fn law_generator_starts_from_its_key(key: &[u8], r: Rand, s: &mut [u64; 4], out: u64)
    requires
        call_ensures(prng_from_key, (key,), r),
        call_ensures(xoshiro256ss, (s,), out),
        key@.len() == 32,
        old(s)@[0] == vstd::bytes::spec_u64_from_le_bytes(key@.subrange(0, 8)),
        old(s)@[1] == vstd::bytes::spec_u64_from_le_bytes(key@.subrange(8, 16)),
        old(s)@[2] == vstd::bytes::spec_u64_from_le_bytes(key@.subrange(16, 24)),
        old(s)@[3] == vstd::bytes::spec_u64_from_le_bytes(key@.subrange(24, 32)),
    ensures
        r@.state == final(s)@,
        r@.word == out,
        r@.used == 0,
{
    assert(old(s)@ =~= crate::qpp::prng::state_of_key(key@));
}

/// The generator of a seed starts from a key that HMAC and PBKDF2 make of it.
pub proof fn law_generator_of_a_seed(seed: &[u8], r: Rand, key: &[u8], from_key: Rand)
    requires
        call_ensures(create_prng, (seed,), r),
        call_ensures(prng_from_key, (key,), from_key),
        key@ == crate::crypto::pbkdf2_sha1(
            crate::crypto::hmac_sha256(seed@, "PERMUTATION_MATRIX_SELECTOR".spec_bytes()),
            "___QUANTUM_PERMUTATION_PAD_PRNG_SALT___".spec_bytes(),
            128,
            32,
        ),
    ensures
        r@ == from_key@,
{
}

/// Drawing a word steps the generator once, and the word is what masks come from
/// next.
pub proof fn law_drawing_steps_the_generator(r: &mut Rand, w: u64, s: &mut [u64; 4], out: u64)
    requires
        call_ensures(Rand::next_u64, (r,), w),
        call_ensures(xoshiro256ss, (s,), out),
        old(s)@ == old(r)@.state,
    ensures
        w == out,
        final(r)@.state == final(s)@,
        final(r)@.word == w,
        final(r)@.used == old(r)@.used,
{
}

/// A seed is long enough where its bytes tell all orders of the values apart, and
/// a byte less would not. There is one order of nothing, and another value can
/// stand in as many places as there are values then.
pub proof fn law_least_seed_tells_all_orders_apart(qubits: u8, len: usize, n: nat)
    requires
        call_ensures(qpp_minimum_seed_length_inner, (qubits,), len),
        qubits < 64,
    ensures
        crate::qpp::seed::factorial(vstd::arithmetic::power2::pow2(qubits as nat))
            <= vstd::arithmetic::power::pow(256, len as nat),
        len > 0 ==> vstd::arithmetic::power::pow(256, (len - 1) as nat)
            < crate::qpp::seed::factorial(vstd::arithmetic::power2::pow2(qubits as nat)),
        crate::qpp::seed::factorial(0) == 1,
        crate::qpp::seed::factorial(n + 1) == (n + 1) * crate::qpp::seed::factorial(n),
{
}

} // verus!
