//! Numbers as bytes on the wire, highest byte first.

use vstd::prelude::*;

verus! {

/// The number that bytes write, highest byte first.
pub open spec fn be_value(s: Seq<u8>) -> nat
    decreases s.len(),
{
    if s.len() == 0 {
        0
    } else {
        be_value(s.drop_last()) * 256 + s.last() as nat
    }
}

/// The lowest `n` bytes of a number, highest byte first.
pub open spec fn be_bytes(v: nat, n: nat) -> Seq<u8>
    decreases n,
{
    if n == 0 {
        Seq::empty()
    } else {
        be_bytes(v / 256, (n - 1) as nat).push((v % 256) as u8)
    }
}

/// Two bytes write the number `256 * a + b`.
pub proof fn lemma_be_value_2(a: u8, b: u8)
    ensures
        be_value(seq![a, b]) == a * 256 + b,
{
    reveal_with_fuel(be_value, 3);
    assert(seq![a, b].drop_last() =~= seq![a]);
    assert(seq![a].drop_last() =~= Seq::<u8>::empty());
}

/// What four bytes write.
pub proof fn lemma_be_value_4(a: u8, b: u8, c: u8, d: u8)
    ensures
        be_value(seq![a, b, c, d]) == ((a * 256 + b) * 256 + c) * 256 + d,
{
    lemma_be_value_2(a, b);
    reveal_with_fuel(be_value, 3);
    assert(seq![a, b, c, d].drop_last() =~= seq![a, b, c]);
    assert(seq![a, b, c].drop_last() =~= seq![a, b]);
}

/// The two bytes of a number below 2^16.
pub proof fn lemma_be_bytes_2(v: nat)
    requires
        v < 0x1_0000,
    ensures
        be_bytes(v, 2) == seq![(v / 256) as u8, (v % 256) as u8],
{
    reveal_with_fuel(be_bytes, 3);
    assert((v / 256) % 256 == v / 256);
    assert(be_bytes(v, 2) =~= seq![(v / 256) as u8, (v % 256) as u8]);
}

/// The four bytes of a number below 2^32.
pub proof fn lemma_be_bytes_4(v: nat)
    requires
        v < 0x1_0000_0000,
    ensures
        be_bytes(v, 4) == seq![
            (v / 0x100_0000) as u8,
            (v / 0x1_0000 % 256) as u8,
            (v / 0x100 % 256) as u8,
            (v % 256) as u8,
        ],
{
    reveal_with_fuel(be_bytes, 5);
    assert(v / 256 / 256 == v / 0x1_0000);
    assert(v / 256 / 256 / 256 == v / 0x100_0000);
    assert(be_bytes(v, 4) =~= seq![
        (v / 0x100_0000) as u8,
        (v / 0x1_0000 % 256) as u8,
        (v / 0x100 % 256) as u8,
        (v % 256) as u8,
    ]);
}

/// Reading back the bytes of a number gives the number.
pub proof fn law_be_round_trip(v: nat)
    ensures
        v < 0x1_0000 ==> be_value(be_bytes(v, 2)) == v,
        v < 0x1_0000_0000 ==> be_value(be_bytes(v, 4)) == v,
{
    if v < 0x1_0000 {
        lemma_be_bytes_2(v);
        lemma_be_value_2((v / 256) as u8, (v % 256) as u8);
    }
    if v < 0x1_0000_0000 {
        lemma_be_bytes_4(v);
        lemma_be_value_4(
            (v / 0x100_0000) as u8,
            (v / 0x1_0000 % 256) as u8,
            (v / 0x100 % 256) as u8,
            (v % 256) as u8,
        );
    }
}

/// Reads two bytes at `i`.
pub fn read_be16(s: &[u8], i: usize) -> (v: u16)
    requires
        i + 2 <= s@.len(),
    ensures
        v == be_value(s@.subrange(i as int, i + 2)),
{
    let a: u8 = s[i];
    let b: u8 = s[i + 1];
    proof {
        assert(s@.subrange(i as int, i + 2) =~= seq![a, b]);
        lemma_be_value_2(a, b);
    }
    a as u16 * 256 + b as u16
}

/// Reads four bytes at `i`.
pub fn read_be32(s: &[u8], i: usize) -> (v: u32)
    requires
        i + 4 <= s@.len(),
    ensures
        v == be_value(s@.subrange(i as int, i + 4)),
{
    let a: u8 = s[i];
    let b: u8 = s[i + 1];
    let c: u8 = s[i + 2];
    let d: u8 = s[i + 3];
    proof {
        assert(s@.subrange(i as int, i + 4) =~= seq![a, b, c, d]);
        lemma_be_value_4(a, b, c, d);
    }
    ((a as u32 * 256 + b as u32) * 256 + c as u32) * 256 + d as u32
}

/// Appends the two bytes of `v`.
pub fn push_be16(out: &mut Vec<u8>, v: u16)
    ensures
        final(out)@ == old(out)@ + be_bytes(v as nat, 2),
{
    proof {
        lemma_be_bytes_2(v as nat);
    }
    out.push((v / 256) as u8);
    out.push((v % 256) as u8);
    assert(out@ =~= old(out)@ + be_bytes(v as nat, 2));
}

/// Appends the four bytes of `v`.
pub fn push_be32(out: &mut Vec<u8>, v: u32)
    ensures
        final(out)@ == old(out)@ + be_bytes(v as nat, 4),
{
    proof {
        lemma_be_bytes_4(v as nat);
    }
    out.push((v / 0x100_0000) as u8);
    out.push((v / 0x1_0000 % 256) as u8);
    out.push((v / 0x100 % 256) as u8);
    out.push((v % 256) as u8);
    assert(out@ =~= old(out)@ + be_bytes(v as nat, 4));
}

/// Appends the bytes of a slice.
pub fn push_slice(out: &mut Vec<u8>, s: &[u8])
    ensures
        final(out)@ == old(out)@ + s@,
{
    out.extend_from_slice(s);
    assert(out@ =~= old(out)@ + s@);
}

/// The contents of a vector of byte vectors.
pub open spec fn byte_rows(rows: Seq<Vec<u8>>) -> Seq<Seq<u8>> {
    Seq::new(rows.len(), |i: int| rows[i]@)
}

/// `dst` with as much of `src` as fits written over its front.
pub open spec fn overlaid(dst: Seq<u8>, src: Seq<u8>) -> Seq<u8> {
    if src.len() >= dst.len() {
        src.take(dst.len() as int)
    } else {
        src + dst.skip(src.len() as int)
    }
}

/// Copies as much of `src` as fits to the front of `dst`, and says how much.
pub fn copy_prefix(src: &[u8], dst: &mut [u8]) -> (n: usize)
    ensures
        n == (if src@.len() <= old(dst)@.len() {
            src@.len()
        } else {
            old(dst)@.len()
        }),
        final(dst)@ == overlaid(old(dst)@, src@),
{
    let n: usize = if src.len() <= dst.len() {
        src.len()
    } else {
        dst.len()
    };
    let ghost dst0 = dst@;
    let mut i: usize = 0;
    while i < n
        invariant
            i <= n,
            n <= src@.len(),
            n <= dst@.len(),
            dst@.len() == dst0.len(),
            forall|j: int| 0 <= j < i ==> dst@[j] == src@[j],
            forall|j: int| i <= j < dst@.len() ==> dst@[j] == dst0[j],
        decreases n - i,
    {
        dst[i] = src[i];
        i = i + 1;
    }
    assert(dst@ =~= overlaid(dst0, src@));
    n
}

/// `s` cut or lengthened with zeros to `len`.
pub open spec fn resized(s: Seq<u8>, len: nat) -> Seq<u8> {
    if s.len() >= len {
        s.take(len as int)
    } else {
        s + zero_bytes((len - s.len()) as nat)
    }
}

/// `n` zeros.
pub open spec fn zero_bytes(n: nat) -> Seq<u8> {
    Seq::new(n, |i: int| 0u8)
}

/// Cuts or lengthens a buffer.
pub fn resize_bytes(v: &mut Vec<u8>, len: usize)
    ensures
        final(v)@ == resized(old(v)@, len as nat),
{
    let ghost v0 = v@;
    v.resize(len, 0);
    proof {
        if len > v0.len() {
            assert(v@.subrange(0, v0.len() as int) =~= v0);
            assert forall|i: int| 0 <= i < len implies v@[i] == resized(v0, len as nat)[i] by {
                if i < v0.len() {
                    assert(v@.subrange(0, v0.len() as int)[i] == v@[i]);
                }
            }
        }
        assert(v@ =~= resized(v0, len as nat));
    }
}

/// Copies the first `n` bytes of `src` to position `at` of `dst`.
pub fn copy_at(dst: &mut [u8], at: usize, src: &[u8], n: usize)
    requires
        at + n <= old(dst)@.len(),
        n <= src@.len(),
    ensures
        final(dst)@ == old(dst)@.take(at as int) + src@.take(n as int) + old(dst)@.skip(at + n),
{
    let ghost dst0 = dst@;
    let mut i: usize = 0;
    assert(dst.len() == dst0.len());
    while i < n
        invariant
            i <= n <= src@.len(),
            at + n <= dst0.len() <= usize::MAX,
            dst@.len() == dst0.len(),
            forall|j: int| 0 <= j < at ==> dst@[j] == dst0[j],
            forall|j: int| at <= j < at + i ==> dst@[j] == src@[j - at],
            forall|j: int| at + i <= j < dst@.len() ==> dst@[j] == dst0[j],
        decreases n - i,
    {
        dst[at + i] = src[i];
        i = i + 1;
    }
    assert(dst@ =~= dst0.take(at as int) + src@.take(n as int) + dst0.skip(at + n));
}

} // verus!
