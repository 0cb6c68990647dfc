//! How long a seed must be, and how a seed is spread over chunks.

use crate::crypto::pbkdf2_sha1_32;
use vstd::arithmetic::power::{lemma_pow0, lemma_pow_positive, pow};
use vstd::arithmetic::power2::{lemma2_to64, lemma_pow2_pos, lemma_pow2_strictly_increases, pow2};
use vstd::bits::lemma_u64_shl_is_mul;
use vstd::prelude::*;
use vstd::slice::slice_to_vec;
use vstd::string::StringSliceAdditionalSpecFns;

verus! {

/// Rounds of PBKDF2 for each chunk of a seed.
pub const CHUNK_DERIVE_LOOPS: u32 = 1024;

/// Bits of the values that a pad permutes.
pub const QUBITS: u8 = 8;

/// The number of orders that `n` things can be put in.
pub open spec fn factorial(n: nat) -> nat
    decreases n,
{
    if n == 0 {
        1
    } else {
        n * factorial((n - 1) as nat)
    }
}

/// `k` bytes, and no fewer, tell `v` things apart.
pub open spec fn is_min_bytes(v: nat, k: nat) -> bool {
    &&& v <= pow(256, k)
    &&& k > 0 ==> pow(256, (k - 1) as nat) < v
}

/// Bytes needed to pick one permutation of `2^qubits` values.
pub open spec fn min_seed_len(qubits: nat) -> nat {
    choose|k: nat| is_min_bytes(factorial(pow2(qubits)), k)
}

/// The number whose base-256 digits are `d`, lowest first.
spec fn digits_value(d: Seq<u8>) -> nat
    decreases d.len(),
{
    if d.len() == 0 {
        0
    } else {
        digits_value(d.drop_last()) + d.last() as nat * pow(256, (d.len() - 1) as nat) as nat
    }
}

proof fn lemma_pow256(n: nat)
    ensures
        pow(256, n) > 0,
        pow(256, n + 1) == 256 * pow(256, n),
        pow(256, 0) == 1,
{
    lemma_pow0(256);
    lemma_pow_positive(256, n);
    reveal(pow);
}

proof fn lemma_digits_bound(d: Seq<u8>)
    ensures
        digits_value(d) < pow(256, d.len()),
    decreases d.len(),
{
    if d.len() == 0 {
        lemma_pow256(0);
    } else {
        lemma_digits_bound(d.drop_last());
        let n = (d.len() - 1) as nat;
        lemma_pow256(n);
        let p = pow(256, n);
        let t = d.last() as int;
        assert(t * p + p <= 256 * p) by (nonlinear_arith)
            requires
                t <= 255,
                p > 0,
        ;
    }
}

proof fn lemma_digits_zero(d: Seq<u8>)
    ensures
        digits_value(d) == 0 <==> (forall|i: int| 0 <= i < d.len() ==> d[i] == 0),
    decreases d.len(),
{
    if d.len() > 0 {
        let q = d.drop_last();
        lemma_digits_zero(q);
        let n = (d.len() - 1) as nat;
        lemma_pow256(n);
        let p = pow(256, n);
        let t = d.last() as int;
        assert(t * p == 0 <==> t == 0) by (nonlinear_arith)
            requires
                p > 0,
                t >= 0,
        ;
        if digits_value(d) == 0 {
            assert forall|i: int| 0 <= i < d.len() implies d[i] == 0 by {
                if i < q.len() {
                    assert(q[i] == 0);
                }
            }
        }
    }
}

/// Only one `k` is the least number of bytes for `v`.
proof fn lemma_min_bytes_unique(v: nat, j: nat, k: nat)
    requires
        is_min_bytes(v, j),
        is_min_bytes(v, k),
    ensures
        j == k,
{
    if j < k {
        lemma_pow_monotone(j, (k - 1) as nat);
    }
    if k < j {
        lemma_pow_monotone(k, (j - 1) as nat);
    }
}

proof fn lemma_pow_monotone(m: nat, n: nat)
    requires
        m <= n,
    ensures
        pow(256, m) <= pow(256, n),
    decreases n,
{
    if m < n {
        lemma_pow_monotone(m, (n - 1) as nat);
        lemma_pow256((n - 1) as nat);
    }
}

/// Multiplies the number whose digits `d` holds by `m`.
fn mul_digits(d: &mut Vec<u8>, m: u64)
    requires
        m > 0,
        old(d)@.len() > 0,
        old(d)@.last() != 0,
    ensures
        digits_value(final(d)@) == digits_value(old(d)@) * m,
        final(d)@.len() > 0,
        final(d)@.last() != 0,
{
    let ghost d0 = d@;
    let mut carry: u128 = 0;
    let mut j: usize = 0;
    let n: usize = d.len();
    proof {
        lemma_pow256(0);
        assert(d0.take(0) =~= Seq::<u8>::empty());
        assert(0 * m == 0) by (nonlinear_arith);
    }
    while j < n
        invariant
            n == d0.len(),
            d@.len() == n,
            j <= n,
            m > 0,
            carry <= m,
            d0.len() > 0,
            d0.last() != 0,
            j < n ==> d@.subrange(j as int, n as int) == d0.subrange(j as int, n as int),
            digits_value(d@.take(j as int)) + carry * pow(256, j as nat) == digits_value(
                d0.take(j as int),
            ) * m,
            j == n && carry == 0 ==> d@.last() != 0,
        decreases n - j,
    {
        let ghost before = d@;
        let ghost c0 = carry as int;
        assert(d@[j as int] == d@.subrange(j as int, n as int)[0]);
        assert(d0[j as int] == d0.subrange(j as int, n as int)[0]);
        let digit: u8 = d[j];
        assert(digit * m <= 255 * m) by (nonlinear_arith)
            requires
                digit <= 255,
        ;
        let t: u128 = digit as u128 * m as u128 + carry;
        d[j] = (t % 256) as u8;
        carry = t / 256;
        proof {
            let p = pow(256, j as nat);
            let low = (t % 256) as int;
            lemma_pow256(j as nat);
            assert(d@.take(j + 1).drop_last() =~= before.take(j as int));
            assert(d0.take(j + 1).drop_last() =~= d0.take(j as int));
            let a = digits_value(d0.take(j as int)) as int;
            let mm = m as int;
            assert(digits_value(d@.take(j + 1)) == digits_value(before.take(j as int)) + low * p);
            assert(digits_value(d0.take(j + 1)) == a + digit * p);
            assert(digits_value(before.take(j as int)) + low * p + carry * (256 * p) == (a + digit
                * p) * mm) by (nonlinear_arith)
                requires
                    digits_value(before.take(j as int)) + c0 * p == a * mm,
                    digit * mm + c0 == carry * 256 + low,
            ;
            if j + 1 < n {
                assert(d@.subrange(j + 1, n as int) =~= d0.subrange(j + 1, n as int)) by {
                    assert forall|x: int| j + 1 <= x < n implies d@[x] == d0[x] by {
                        assert(before.subrange(j as int, n as int)[x - j] == before[x]);
                        assert(d0.subrange(j as int, n as int)[x - j] == d0[x]);
                    }
                }
            } else if carry == 0 {
                assert(digit * mm >= 1) by (nonlinear_arith)
                    requires
                        digit >= 1,
                        mm >= 1,
                ;
            }
        }
        j = j + 1;
    }
    assert(d@.take(n as int) =~= d@);
    assert(d0.take(n as int) =~= d0);
    while carry > 0
        invariant
            d@.len() > 0,
            carry == 0 ==> d@.last() != 0,
            digits_value(d@) + carry * pow(256, d@.len()) == digits_value(d0) * m,
        decreases carry,
    {
        let ghost before = d@;
        let ghost c0 = carry as int;
        d.push((carry % 256) as u8);
        carry = carry / 256;
        proof {
            assert(d@.drop_last() =~= before);
            lemma_pow256(before.len());
            let p = pow(256, before.len());
            let low = c0 % 256;
            assert(low * p + carry * (256 * p) == c0 * p) by (nonlinear_arith)
                requires
                    c0 == carry * 256 + low,
            ;
        }
    }
    proof {
        assert(0 * pow(256, d@.len()) == 0);
    }
}

/// Bytes of seed that a permutation of `2^qubits` values calls for: as many as
/// it takes to number all of them.
pub fn qpp_minimum_seed_length_inner(qubits: u8) -> (len: usize)
    requires
        qubits < 64,
    ensures
        is_min_bytes(factorial(pow2(qubits as nat)), len as nat),
        len == min_seed_len(qubits as nat),
{
    proof {
        lemma2_to64();
        lemma_pow2_strictly_increases(qubits as nat, 64);
        lemma_pow2_pos(qubits as nat);
        lemma_u64_shl_is_mul(1, qubits as u64);
        lemma_pow256(0);
    }
    let n: u64 = 1u64 << (qubits as u64);
    let mut d: Vec<u8> = Vec::new();
    d.push(1);
    let mut i: u64 = 1;
    proof {
        assert(d@.drop_last() =~= Seq::<u8>::empty());
        reveal_with_fuel(digits_value, 2);
        assert(digits_value(d@) == 1 * pow(256, 0) as nat);
        reveal_with_fuel(factorial, 2);
    }
    while i < n
        invariant
            1 <= i <= n,
            d@.len() > 0,
            d@.last() != 0,
            digits_value(d@) == factorial(i as nat),
        decreases n - i,
    {
        i = i + 1;
        let ghost v = digits_value(d@);
        mul_digits(&mut d, i);
        assert(v * i == i * v) by (nonlinear_arith);
    }
    let len: usize = d.len();
    let top: u8 = d[len - 1];
    let mut zeros: usize = 0;
    while zeros + 1 < len && d[zeros] == 0
        invariant
            len == d@.len(),
            zeros < len,
            forall|x: int| 0 <= x < zeros ==> d@[x] == 0,
        decreases len - zeros,
    {
        zeros = zeros + 1;
    }
    let ghost low = d@.drop_last();
    proof {
        lemma_digits_bound(d@);
        lemma_digits_bound(low);
        lemma_digits_zero(low);
        let p = pow(256, (len - 1) as nat);
        lemma_pow256((len - 1) as nat);
        assert(top * p >= p) by (nonlinear_arith)
            requires
                top >= 1,
                p > 0,
        ;
        if top > 1 {
            assert(top * p > p) by (nonlinear_arith)
                requires
                    top > 1,
                    p > 0,
            ;
        }
        if zeros + 1 < len {
            assert(low[zeros as int] != 0);
        } else if len > 1 {
            lemma_pow256((len - 2) as nat);
        }
    }
    let bytes: usize = if top == 1 && zeros + 1 == len {
        len - 1
    } else {
        len
    };
    proof {
        let v = factorial(pow2(qubits as nat));
        let p = pow(256, (len - 1) as nat);
        if top == 1 && zeros + 1 == len {
            assert(forall|x: int| 0 <= x < low.len() ==> low[x] == 0);
            assert(top * p == p) by (nonlinear_arith)
                requires
                    top == 1,
            ;
        }
        assert(is_min_bytes(v, bytes as nat));
        lemma_min_bytes_unique(v, bytes as nat, min_seed_len(qubits as nat));
    }
    bytes
}

proof fn lemma_factorial_bound(n: nat)
    requires
        n <= 256,
    ensures
        factorial(n) <= pow(256, n),
    decreases n,
{
    if n == 0 {
        lemma_pow256(0);
    } else {
        lemma_factorial_bound((n - 1) as nat);
        lemma_pow256((n - 1) as nat);
        let f = factorial((n - 1) as nat) as int;
        let p = pow(256, (n - 1) as nat);
        assert(n * f <= 256 * p) by (nonlinear_arith)
            requires
                0 <= n <= 256,
                0 <= f <= p,
        ;
    }
}

/// A seed for byte pads is no longer than 256 bytes.
proof fn lemma_seed_len_bound(k: nat)
    requires
        is_min_bytes(factorial(pow2(QUBITS as nat)), k),
    ensures
        k <= 256,
{
    lemma2_to64();
    lemma_factorial_bound(256);
    if k > 256 {
        lemma_pow_monotone(256, (k - 1) as nat);
    }
}

/// PBKDF2 of a password with the salt for seed chunks.
pub open spec fn derive_chunk(password: Seq<u8>) -> Seq<u8> {
    crate::crypto::pbkdf2_sha1(
        password,
        "___QUANTUM_PERMUTATION_PAD_SEED_DERIVE___".spec_bytes(),
        CHUNK_DERIVE_LOOPS as nat,
        32,
    )
}

/// A seed of 32 bytes at least: a shorter one is stretched.
pub open spec fn stretched_seed(seed: Seq<u8>) -> Seq<u8> {
    if seed.len() < 32 {
        derive_chunk(seed)
    } else {
        seed
    }
}

/// Bytes `32 * i` to `32 * i + 31` of a seed that repeats without end.
pub open spec fn seed_window(seed: Seq<u8>, i: int) -> Seq<u8> {
    Seq::new(32, |j: int| seed[(i * 32 + j) % (seed.len() as int)])
}

/// How many chunks of 32 bytes hold a seed of the least length.
pub open spec fn chunk_count() -> nat {
    if min_seed_len(QUBITS as nat) == 0 {
        1
    } else {
        (min_seed_len(QUBITS as nat) + 31) / 32
    }
}

/// The chunks that a seed is spread over.
pub open spec fn seed_chunks(seed: Seq<u8>) -> Seq<Seq<u8>> {
    Seq::new(chunk_count(), |i: int| derive_chunk(seed_window(stretched_seed(seed), i)))
}

fn derive(password: &[u8]) -> (chunk: Vec<u8>)
    ensures
        chunk@ == derive_chunk(password@),
        chunk@.len() == 32,
{
    pbkdf2_sha1_32(
        password,
        "___QUANTUM_PERMUTATION_PAD_SEED_DERIVE___".as_bytes(),
        CHUNK_DERIVE_LOOPS,
    )
}

/// Spreads a seed over chunks of 32 bytes.
pub fn seed_to_chunks(seed: &[u8]) -> (chunks: Vec<Vec<u8>>)
    ensures
        crate::wire::byte_rows(chunks@) == seed_chunks(seed@),
        chunks@.len() > 0,
        forall|i: int| 0 <= i < chunks@.len() ==> (#[trigger] chunks@[i])@.len() == 32,
        seed@.len() < 32 ==> derive_chunk(seed@).len() == 32,
{
    let stretched: Vec<u8> = if seed.len() < 32 {
        derive(seed)
    } else {
        slice_to_vec(seed)
    };
    let byte_length: usize = qpp_minimum_seed_length_inner(QUBITS);
    proof {
        lemma_seed_len_bound(byte_length as nat);
    }
    let count: usize = if byte_length == 0 {
        1
    } else {
        (byte_length + 31) / 32
    };
    let mut chunks: Vec<Vec<u8>> = Vec::new();
    let mut i: usize = 0;
    while i < count
        invariant
            i <= count,
            count <= 8,
            stretched@ == stretched_seed(seed@),
            stretched@.len() >= 32,
            chunks@.len() == i,
            forall|x: int|
                0 <= x < i ==> (#[trigger] chunks@[x])@ == derive_chunk(
                    seed_window(stretched@, x),
                ) && chunks@[x]@.len() == 32,
        decreases count - i,
    {
        let mut window: Vec<u8> = Vec::new();
        let mut j: usize = 0;
        while j < 32
            invariant
                i < 8,
                j <= 32,
                stretched@.len() >= 32,
                window@.len() == j,
                forall|y: int| 0 <= y < j ==> window@[y] == seed_window(stretched@, i as int)[y],
            decreases 32 - j,
        {
            window.push(stretched[(i * 32 + j) % stretched.len()]);
            j = j + 1;
        }
        assert(window@ =~= seed_window(stretched@, i as int));
        chunks.push(derive(window.as_slice()));
        i = i + 1;
    }
    assert(crate::wire::byte_rows(chunks@) =~= seed_chunks(seed@));
    chunks
}

} // verus!
