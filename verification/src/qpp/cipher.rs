//! Pads: permutations of the byte values, shuffled by a key.

use crate::crypto::{aes256_encrypt, hmac_sha256_tag};
use vstd::prelude::*;
use vstd::slice::slice_subrange;
use vstd::string::StringSliceAdditionalSpecFns;

verus! {

/// The binary digits of `n` in ASCII, without leading zeros.
pub open spec fn binary_digits(n: nat) -> Seq<u8>
    decreases n,
{
    if n < 2 {
        seq![(48 + n) as u8]
    } else {
        binary_digits(n / 2).push((48 + n % 2) as u8)
    }
}

/// The message that names pad `id`: `QPP_` and the number in binary.
pub open spec fn pad_message(id: u16) -> Seq<u8> {
    "QPP_".spec_bytes() + binary_digits(id as nat)
}

/// Appends the binary digits of `n` to `out`.
fn push_binary(out: &mut Vec<u8>, n: u16)
    ensures
        final(out)@ == old(out)@ + binary_digits(n as nat),
    decreases n,
{
    if n < 2 {
        out.push(48 + n as u8);
    } else {
        push_binary(out, n / 2);
        out.push(48 + (n % 2) as u8);
    }
    assert(out@ =~= old(out)@ + binary_digits(n as nat));
}

/// 32 bytes encrypted block by block under each of the keys in turn.
pub open spec fn encrypt_sum(keys: Seq<Seq<u8>>, sum: Seq<u8>) -> Seq<u8>
    decreases keys.len(),
{
    if keys.len() == 0 {
        sum
    } else {
        let s = encrypt_sum(keys.drop_last(), sum);
        crate::crypto::aes256_block(keys.last(), s.subrange(0, 16)) + crate::crypto::aes256_block(
            keys.last(),
            s.subrange(16, 32),
        )
    }
}

/// `sum` after `n` rounds of encryption under all the keys.
pub open spec fn sum_after(keys: Seq<Seq<u8>>, sum: Seq<u8>, n: nat) -> Seq<u8>
    decreases n,
{
    if n == 0 {
        sum
    } else {
        encrypt_sum(keys, sum_after(keys, sum, (n - 1) as nat))
    }
}

/// `p` with the values at `i` and `j` exchanged.
pub open spec fn swapped(p: Seq<u8>, i: int, j: int) -> Seq<u8> {
    p.update(i, p[j]).update(j, p[i])
}

/// `p` after the first `n` steps of a Fisher-Yates shuffle: step `t` swaps the
/// value at `p.len() - t` with one at or below it, drawn from the sum after
/// `t` rounds.
pub open spec fn shuffled(keys: Seq<Seq<u8>>, sum: Seq<u8>, p: Seq<u8>, n: nat) -> Seq<u8>
    decreases n,
{
    if n == 0 {
        p
    } else {
        let i = p.len() - n;
        swapped(
            shuffled(keys, sum, p, (n - 1) as nat),
            i,
            (crate::wire::be_value(sum_after(keys, sum, n).take(8)) % ((i + 1) as nat)) as int,
        )
    }
}

/// Every value of `0 .. p.len()` stands in `p`, each in one place only.
pub open spec fn is_permutation(p: Seq<u8>) -> bool {
    &&& p.len() <= 256
    &&& forall|i: int| 0 <= i < p.len() ==> 0 <= #[trigger] p[i] < p.len()
    &&& forall|i: int, j: int| 0 <= i < j < p.len() ==> #[trigger] p[i] != #[trigger] p[j]
}

/// A shuffle only reorders: a permutation stays one through any number of its
/// steps.
pub proof fn law_shuffle_keeps_permutation(
    keys: Seq<Seq<u8>>,
    sum: Seq<u8>,
    p: Seq<u8>,
    n: nat,
)
    requires
        is_permutation(p),
        n < p.len() || n == 0,
    ensures
        is_permutation(shuffled(keys, sum, p, n)),
        shuffled(keys, sum, p, n).len() == p.len(),
    decreases n,
{
    if n > 0 {
        law_shuffle_keeps_permutation(keys, sum, p, (n - 1) as nat);
    }
}

/// Encrypts the 32 bytes of `sum` block by block under each key in turn.
fn encrypt_sum_in_place(keys: &Vec<Vec<u8>>, sum: &mut Vec<u8>)
    requires
        old(sum)@.len() == 32,
        forall|i: int| 0 <= i < keys@.len() ==> (#[trigger] keys@[i])@.len() == 32,
    ensures
        final(sum)@ == encrypt_sum(crate::wire::byte_rows(keys@), old(sum)@),
        final(sum)@.len() == 32,
{
    let ghost rows = crate::wire::byte_rows(keys@);
    let ghost sum0 = sum@;
    let mut b: usize = 0;
    assert(rows.take(0) =~= Seq::<Seq<u8>>::empty());
    while b < keys.len()
        invariant
            b <= keys@.len(),
            rows == crate::wire::byte_rows(keys@),
            forall|i: int| 0 <= i < keys@.len() ==> (#[trigger] keys@[i])@.len() == 32,
            sum@.len() == 32,
            sum@ == encrypt_sum(rows.take(b as int), sum0),
        decreases keys@.len() - b,
    {
        let mut low = aes256_encrypt(keys[b].as_slice(), slice_subrange(sum.as_slice(), 0, 16));
        let mut high = aes256_encrypt(keys[b].as_slice(), slice_subrange(sum.as_slice(), 16, 32));
        low.append(&mut high);
        assert(rows.take(b + 1).drop_last() =~= rows.take(b as int));
        assert(rows.take(b + 1).last() == keys@[b as int]@);
        *sum = low;
        b = b + 1;
    }
    assert(rows.take(b as int) =~= rows);
}

/// The first eight bytes of `sum` as one number, highest byte first.
fn draw(sum: &Vec<u8>) -> (v: u64)
    requires
        sum@.len() >= 8,
    ensures
        v == crate::wire::be_value(sum@.take(8)),
{
    let mut val: u64 = 0;
    let mut j: usize = 0;
    assert(sum@.take(0) =~= Seq::<u8>::empty());
    while j < 8
        invariant
            j <= 8,
            sum@.len() >= 8,
            val == crate::wire::be_value(sum@.take(j as int)),
            j == 0 ==> val < 1,
            j == 1 ==> val < 0x100,
            j == 2 ==> val < 0x1_0000,
            j == 3 ==> val < 0x100_0000,
            j == 4 ==> val < 0x1_0000_0000,
            j == 5 ==> val < 0x100_0000_0000,
            j == 6 ==> val < 0x1_0000_0000_0000,
            j == 7 ==> val < 0x100_0000_0000_0000,
        decreases 8 - j,
    {
        let byte: u8 = sum[j];
        assert(sum@.take(j + 1).drop_last() =~= sum@.take(j as int));
        val = val * 256 + byte as u64;
        j = j + 1;
    }
    val
}

/// Shuffles `pad` as the chunk, the pad's number and the keys determine.
pub fn shuffle_pad(chunk: &[u8], pad: &mut Vec<u8>, pad_id: u16, keys: &Vec<Vec<u8>>)
    requires
        old(pad)@.len() > 0,
        forall|i: int| 0 <= i < keys@.len() ==> (#[trigger] keys@[i])@.len() == 32,
    ensures
        final(pad)@ == shuffled(
            crate::wire::byte_rows(keys@),
            crate::crypto::hmac_sha256(chunk@, pad_message(pad_id)),
            old(pad)@,
            (old(pad)@.len() - 1) as nat,
        ),
        final(pad)@.len() == old(pad)@.len(),
{
    let ghost rows = crate::wire::byte_rows(keys@);
    let ghost pad0 = pad@;
    let mut message: Vec<u8> = vstd::slice::slice_to_vec("QPP_".as_bytes());
    push_binary(&mut message, pad_id);
    let mut sum: Vec<u8> = hmac_sha256_tag(chunk, message.as_slice());
    let ghost sum0 = sum@;
    let mut i: usize = pad.len() - 1;
    while i > 0
        invariant
            i < pad0.len() <= usize::MAX,
            pad@.len() == pad0.len(),
            rows == crate::wire::byte_rows(keys@),
            forall|x: int| 0 <= x < keys@.len() ==> (#[trigger] keys@[x])@.len() == 32,
            sum@.len() == 32,
            sum@ == sum_after(rows, sum0, (pad0.len() - 1 - i) as nat),
            pad@ == shuffled(rows, sum0, pad0, (pad0.len() - 1 - i) as nat),
        decreases i,
    {
        encrypt_sum_in_place(keys, &mut sum);
        let j: usize = (draw(&sum) % (i + 1) as u64) as usize;
        let a: u8 = pad[i];
        let b: u8 = pad[j];
        pad[i] = b;
        pad[j] = a;
        i = i - 1;
    }
}

} // verus!
