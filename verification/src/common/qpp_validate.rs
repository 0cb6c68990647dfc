//! Which parameters of the permutation pad are safe.

use crate::text::push_decimal;
use vstd::prelude::*;
use vstd::string::*;

verus! {

/// The shortest key, in bytes, that is not warned about.
pub const QPP_MIN_SEED_LENGTH: usize = 256;

/// The smallest number of pads that is not warned about.
pub const MIN_PADS: u16 = 8;

/// `d` divides `a`.
pub open spec fn divides(d: int, a: int) -> bool {
    d != 0 && a % d == 0
}

/// `d` is the greatest common divisor of `a` and `b`.
pub open spec fn is_gcd(d: int, a: int, b: int) -> bool {
    &&& divides(d, a)
    &&& divides(d, b)
    &&& forall|e: int| e > 0 && #[trigger] divides(e, a) && divides(e, b) ==> e <= d
}

proof fn lemma_divides_rem(e: int, a: int, b: int)
    requires
        e > 0,
        b > 0,
        a >= 0,
    ensures
        divides(e, b) ==> (divides(e, a) <==> divides(e, a % b)),
{
    if divides(e, b) {
        let q = a / b;
        let k = b / e;
        vstd::arithmetic::div_mod::lemma_fundamental_div_mod(a, b);
        vstd::arithmetic::div_mod::lemma_fundamental_div_mod(b, e);
        assert(a == e * (k * q) + a % b) by (nonlinear_arith)
            requires
                a == b * q + a % b,
                b == e * k,
        ;
        vstd::arithmetic::div_mod::lemma_mod_multiples_vanish(k * q, a % b, e);
    }
}

/// The greatest common divisor; 0 for two zeros, which have none.
pub fn gcd(a: u64, b: u64) -> (d: u64)
    ensures
        a > 0 || b > 0 ==> d > 0 && is_gcd(d as int, a as int, b as int),
        a == 0 && b == 0 ==> d == 0,
{
    if a == 0 && b == 0 {
        return 0;
    }
    let mut x: u64 = a;
    let mut y: u64 = b;
    while y != 0
        invariant
            x > 0 || y > 0,
            forall|e: int|
                e > 0 ==> ((#[trigger] divides(e, x as int) && divides(e, y as int)) <==> (divides(
                    e,
                    a as int,
                ) && divides(e, b as int))),
        decreases y,
    {
        let t: u64 = y;
        let ghost x0 = x as int;
        y = x % y;
        x = t;
        proof {
            assert forall|e: int| e > 0 implies ((#[trigger] divides(e, x as int) && divides(
                e,
                y as int,
            )) <==> (divides(e, a as int) && divides(e, b as int))) by {
                lemma_divides_rem(e, x0, t as int);
                assert(divides(e, x0) && divides(e, t as int) <==> (divides(e, a as int)
                    && divides(e, b as int)));
            }
        }
    }
    proof {
        assert(divides(x as int, x as int) && divides(x as int, 0));
        assert forall|e: int| e > 0 && #[trigger] divides(e, a as int) && divides(
            e,
            b as int,
        ) implies e <= x by {
            assert(divides(e, x as int));
            vstd::arithmetic::div_mod::lemma_fundamental_div_mod(x as int, e);
            let k = x as int / e;
            assert(e <= x) by (nonlinear_arith)
                requires
                    x == e * k,
                    x > 0,
                    e > 0,
            ;
        }
    }
    x
}

/// The warning about a key of `len` bytes.
pub open spec fn key_warning(len: nat) -> Seq<char> {
    "QPP Warning: 'key' has size of "@ + crate::text::decimal(len) + " bytes, required "@
        + crate::text::decimal(QPP_MIN_SEED_LENGTH as nat) + " bytes at least"@
}

/// The warning about too few pads.
pub open spec fn pads_warning(count: u16) -> Seq<char> {
    "QPP Warning: QPPCount "@ + crate::text::decimal(count as nat) + ", required "@
        + crate::text::decimal(MIN_PADS as nat) + " at least"@
}

/// The warning about a number of pads that shares a factor with 256.
pub open spec fn prime_warning(count: u16) -> Seq<char> {
    "QPP Warning: QPPCount "@ + crate::text::decimal(count as nat)
        + ", choose a prime number for security"@
}

/// One line, or none.
pub open spec fn line_if(b: bool, line: Seq<char>) -> Seq<Seq<char>> {
    if b {
        seq![line]
    } else {
        Seq::empty()
    }
}

/// The warnings about a number of pads and a key of `len` bytes. An even
/// number of pads has a factor in common with 256.
pub open spec fn qpp_warnings(count: u16, len: nat) -> Seq<Seq<char>> {
    line_if(len < QPP_MIN_SEED_LENGTH, key_warning(len)) + line_if(
        count < MIN_PADS,
        pads_warning(count),
    ) + line_if(count % 2 == 0, prime_warning(count))
}

proof fn lemma_gcd_256(count: u16, d: int)
    requires
        count > 0,
        d > 0,
        is_gcd(d, count as int, 256),
    ensures
        d != 1 <==> count % 2 == 0,
{
    if count % 2 == 0 {
        assert(divides(2, count as int) && divides(2, 256));
    } else {
        // The divisors of 256 are powers of two, and only 1 is odd.
        lemma_divisor_of_256(d);
        vstd::arithmetic::div_mod::lemma_fundamental_div_mod(count as int, d);
        if d != 1 {
            let k = d / 2;
            let q = count as int / d;
            assert(count == 2 * (k * q)) by (nonlinear_arith)
                requires
                    count == d * q,
                    d == 2 * k,
            ;
        }
    }
}

proof fn lemma_divisor_of_256(d: int)
    requires
        d > 0,
        divides(d, 256),
    ensures
        d == 1 || d % 2 == 0,
{
    vstd::arithmetic::div_mod::lemma_fundamental_div_mod(256, d);
    let q = 256int / d;
    assert(d <= 256) by (nonlinear_arith)
        requires
            256 == d * q,
            d > 0,
    ;
    let e = d as u64;
    assert(e != 0 && e <= 256 && 256u64 % e == 0 ==> e == 1 || e % 2 == 0) by (bit_vector);
}

/// Checks the parameters of the permutation pad. No pads at all is an error;
/// a short key, few pads, and a number of pads that shares a factor with 256
/// are warned about, in this order.
pub fn validate_qpp_params(count: u16, key: &[u8]) -> (r: Result<Vec<String>, String>)
    ensures
        match r {
            Err(e) => count == 0 && e@ == "QPPCount must be greater than 0 when QPP is enabled"@,
            Ok(w) => count > 0 && crate::text::texts(w@) == qpp_warnings(
                count,
                key@.len(),
            ),
        },
{
    if count == 0 {
        return Err(String::from_str("QPPCount must be greater than 0 when QPP is enabled"));
    }
    let mut warnings: Vec<String> = Vec::new();
    if key.len() < QPP_MIN_SEED_LENGTH {
        let mut w: String = String::from_str("QPP Warning: 'key' has size of ");
        push_decimal(&mut w, key.len() as u64);
        w.append(" bytes, required ");
        push_decimal(&mut w, QPP_MIN_SEED_LENGTH as u64);
        w.append(" bytes at least");
        assert(w@ =~= key_warning(key@.len()));
        warnings.push(w);
    }
    if count < MIN_PADS {
        let mut w: String = String::from_str("QPP Warning: QPPCount ");
        push_decimal(&mut w, count as u64);
        w.append(", required ");
        push_decimal(&mut w, MIN_PADS as u64);
        w.append(" at least");
        assert(w@ =~= pads_warning(count));
        warnings.push(w);
    }
    let d: u64 = gcd(count as u64, 256);
    proof {
        lemma_gcd_256(count, d as int);
    }
    if d != 1 {
        let mut w: String = String::from_str("QPP Warning: QPPCount ");
        push_decimal(&mut w, count as u64);
        w.append(", choose a prime number for security");
        assert(w@ =~= prime_warning(count));
        warnings.push(w);
    }
    assert(crate::text::texts(warnings@) =~= qpp_warnings(count, key@.len()));
    Ok(warnings)
}

} // verus!
