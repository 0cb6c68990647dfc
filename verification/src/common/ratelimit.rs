//! A token bucket that paces what a connection sends.
//!
//! Tokens are counted in billionths of a byte, so that a nanosecond at `rate`
//! bytes per second adds exactly `rate` of them. The bucket holds one second's
//! worth and starts full. Times are nanoseconds on a clock that only goes
//! forward; waiting is the caller's part.

use vstd::prelude::*;

verus! {

/// Tokens of one byte.
pub const BYTE: u128 = 1_000_000_000;

/// A rate limiter. A rate of 0 is no limit.
#[derive(Clone, Copy, Debug, PartialEq, Eq, Structural)]
pub struct RateLimiter {
    rate: u32,
    tokens: u128,
    last: u64,
}

/// What a rate limiter holds.
pub struct Bucket {
    pub rate: nat,
    pub tokens: nat,
    pub last: nat,
}

impl Bucket {
    /// One second's worth of tokens.
    pub open spec fn burst(self) -> nat {
        self.rate * BYTE as nat
    }

    /// The bucket never holds more than its burst.
    pub open spec fn wf(self) -> bool {
        self.tokens <= self.burst()
    }

    /// The bucket at the time `now`: what has flowed in since the last look, up
    /// to the burst.
    pub open spec fn refilled(self, now: nat) -> Bucket {
        let elapsed = if now > self.last {
            (now - self.last) as nat
        } else {
            0
        };
        let full = self.tokens + elapsed * self.rate;
        Bucket {
            rate: self.rate,
            tokens: if full <= self.burst() {
                full
            } else {
                self.burst()
            },
            last: now,
        }
    }

    /// The bucket after `n` bytes were taken out, as far as it holds them.
    pub open spec fn taken(self, n: nat) -> Bucket {
        Bucket {
            tokens: if self.tokens >= n * BYTE as nat {
                (self.tokens - n * BYTE as nat) as nat
            } else {
                0
            },
            ..self
        }
    }

    /// How many nanoseconds it takes until `n` bytes have flowed in, to the
    /// nearest nanosecond.
    pub open spec fn wait_for(self, n: nat) -> nat {
        if self.tokens >= n * BYTE as nat {
            0
        } else {
            nearest((n * BYTE as nat - self.tokens) as nat, self.rate)
        }
    }
}

/// `a / b`, rounded to the nearest whole number, and to the even one where two
/// are as near.
pub open spec fn nearest(a: nat, b: nat) -> nat {
    let q = a / b;
    let r = a % b;
    if 2 * r > b || (2 * r == b && q % 2 == 1) {
        q + 1
    } else {
        q
    }
}

impl View for RateLimiter {
    type V = Bucket;

    closed spec fn view(&self) -> Bucket {
        Bucket { rate: self.rate as nat, tokens: self.tokens as nat, last: self.last as nat }
    }
}

proof fn lemma_rate_bounds(rate: nat, elapsed: nat)
    requires
        rate <= u32::MAX,
        elapsed <= u64::MAX,
    ensures
        elapsed * rate <= 0xFFFF_FFFF_FFFF_FFFF * 0xFFFF_FFFF,
{
    assert(elapsed * rate <= 0xFFFF_FFFF_FFFF_FFFF * 0xFFFF_FFFF) by (nonlinear_arith)
        requires
            0 <= rate <= 0xFFFF_FFFF,
            0 <= elapsed <= 0xFFFF_FFFF_FFFF_FFFF,
    ;
}

impl RateLimiter {
    #[verifier::type_invariant]
    spec fn inv(&self) -> bool {
        self.tokens <= self.rate as nat * BYTE as nat
    }

    /// A limiter for `bytes_per_sec`, with a full bucket at the time `now`.
    pub fn new(bytes_per_sec: u32, now: u64) -> (l: Self)
        ensures
            l@ == (Bucket {
                rate: bytes_per_sec as nat,
                tokens: bytes_per_sec as nat * BYTE as nat,
                last: now as nat,
            }),
            l@.wf(),
    {
        RateLimiter { rate: bytes_per_sec, tokens: bytes_per_sec as u128 * BYTE, last: now }
    }

    fn refill(&mut self, now: u64)
        ensures
            final(self)@ == old(self)@.refilled(now as nat),
            final(self)@.wf(),
    {
        proof {
            use_type_invariant(&*self);
        }
        let elapsed: u64 = if now > self.last {
            now - self.last
        } else {
            0
        };
        proof {
            lemma_rate_bounds(self.rate as nat, elapsed as nat);
        }
        let full: u128 = self.tokens + elapsed as u128 * self.rate as u128;
        let burst: u128 = self.rate as u128 * BYTE;
        *self = RateLimiter {
            rate: self.rate,
            tokens: if full <= burst {
                full
            } else {
                burst
            },
            last: now,
        };
    }

    /// Asks for `n` bytes at the time `now`. They are taken and 0 is returned
    /// where the bucket holds them, or lacks less than flows in in half a
    /// nanosecond, or where there is no limit; otherwise nothing is taken, and
    /// what is returned is how many nanoseconds it takes for the rest to flow in,
    /// to the nearest. The caller waits that long and then calls
    /// [`RateLimiter::settle`].
    pub fn acquire(&mut self, n: usize, now: u64) -> (wait: u128)
        ensures
            n == 0 || old(self)@.rate == 0 ==> wait == 0 && final(self)@ == old(self)@,
            n > 0 && old(self)@.rate > 0 ==> ({
                let bucket = old(self)@.refilled(now as nat);
                &&& wait == bucket.wait_for(n as nat)
                &&& final(self)@ == (if wait == 0 {
                    bucket.taken(n as nat)
                } else {
                    bucket
                })
            }),
            old(self)@.wf() ==> final(self)@.wf(),
    {
        if n == 0 || self.rate == 0 {
            return 0;
        }
        self.refill(now);
        proof {
            use_type_invariant(&*self);
        }
        let need: u128 = n as u128 * BYTE;
        if self.tokens >= need {
            *self = RateLimiter { rate: self.rate, tokens: self.tokens - need, last: self.last };
            return 0;
        }
        let rate: u128 = self.rate as u128;
        let deficit: u128 = need - self.tokens;
        let down: u128 = deficit / rate;
        let over: u128 = deficit % rate;
        let wait: u128 = if 2 * over > rate || (2 * over == rate && down % 2 == 1) {
            down + 1
        } else {
            down
        };
        if wait == 0 {
            *self = RateLimiter { rate: self.rate, tokens: 0, last: self.last };
        }
        wait
    }

    /// Takes the `n` bytes that [`RateLimiter::acquire`] had to wait for, at
    /// the time `now`. Where the bucket does not hold them it is emptied.
    pub fn settle(&mut self, n: usize, now: u64)
        ensures
            final(self)@ == old(self)@.refilled(now as nat).taken(n as nat),
            final(self)@.wf(),
    {
        self.refill(now);
        proof {
            use_type_invariant(&*self);
        }
        let need: u128 = n as u128 * BYTE;
        let tokens: u128 = if self.tokens >= need {
            self.tokens - need
        } else {
            0
        };
        *self = RateLimiter { rate: self.rate, tokens, last: self.last };
    }

    /// Sets another rate, with a full bucket at the time `now`.
    pub fn set_rate(&mut self, bytes_per_sec: u32, now: u64)
        ensures
            final(self)@ == (Bucket {
                rate: bytes_per_sec as nat,
                tokens: bytes_per_sec as nat * BYTE as nat,
                last: now as nat,
            }),
    {
        *self = RateLimiter::new(bytes_per_sec, now);
    }

    /// The rate in bytes per second; 0 is no limit.
    pub fn rate(&self) -> (r: u32)
        ensures
            r as nat == self@.rate,
    {
        self.rate
    }
}

proof fn lemma_nearest(a: nat, b: nat)
    requires
        b > 0,
    ensures
        2 * (nearest(a, b) * b) + b >= 2 * a,
        (nearest(a, b) + 1) * b >= a,
{
    let q = a / b;
    let r = a % b;
    let w = nearest(a, b);
    vstd::arithmetic::div_mod::lemma_fundamental_div_mod(a as int, b as int);
    vstd::arithmetic::div_mod::lemma_mod_bound(a as int, b as int);
    assert(q * b == b * q) by (nonlinear_arith);
    assert((q + 1) * b == q * b + b) by (nonlinear_arith);
    assert((w + 1) * b == w * b + b) by (nonlinear_arith);
}

/// Waiting as long as was asked is enough, to the nanosecond: once it is over the
/// bucket lacks at most what flows in in half a nanosecond, and a nanosecond
/// later it holds what was wanted, unless that is more than one second's worth.
pub proof fn law_waiting_suffices(b: Bucket, n: nat, now: nat, later: nat)
    requires
        b.wf(),
        b.last == now,
        b.rate > 0,
        b.tokens < n * BYTE as nat,
        n * BYTE as nat <= b.burst(),
        later >= now + b.wait_for(n),
    ensures
        2 * b.refilled(later).tokens + b.rate >= 2 * (n * BYTE as nat),
        later > now + b.wait_for(n) ==> b.refilled(later).tokens >= n * BYTE as nat,
{
    let deficit = (n * BYTE as nat - b.tokens) as nat;
    let w = b.wait_for(n);
    let e = (later - now) as nat;
    lemma_nearest(deficit, b.rate);
    assert(e * b.rate >= w * b.rate) by (nonlinear_arith)
        requires
            e >= w,
    ;
    if e > w {
        assert(e * b.rate >= (w + 1) * b.rate) by (nonlinear_arith)
            requires
                e >= w + 1,
        ;
    }
}

/// A run of requests, when and for how many bytes, none of which has to wait.
pub open spec fn all_granted(b: Bucket, run: Seq<(nat, nat)>) -> bool
    decreases run.len(),
{
    if run.len() == 0 {
        true
    } else {
        let (now, n) = run[0];
        let filled = b.refilled(now);
        &&& b.last <= now
        &&& filled.wait_for(n) == 0
        &&& all_granted(filled.taken(n), run.skip(1))
    }
}

/// All the bytes of a run.
pub open spec fn total_bytes(run: Seq<(nat, nat)>) -> nat
    decreases run.len(),
{
    if run.len() == 0 {
        0
    } else {
        run[0].1 + total_bytes(run.skip(1))
    }
}

/// The rate is kept: what is granted without a wait, over any run of requests,
/// is no more than the bucket held at first and what flowed in until the last
/// request, and what flows in in half a nanosecond for each of them.
pub proof fn law_rate_is_kept(b: Bucket, run: Seq<(nat, nat)>)
    requires
        b.rate > 0,
        all_granted(b, run),
        run.len() > 0,
    ensures
        b.last <= run.last().0,
        2 * (total_bytes(run) * BYTE as nat) <= 2 * (b.tokens + (run.last().0 - b.last) * b.rate)
            + run.len() * b.rate,
    decreases run.len(),
{
    let (now, n) = run[0];
    let filled = b.refilled(now);
    let next = filled.taken(n);
    let rest = run.skip(1);
    let e1 = (now - b.last) as int;
    let r = b.rate as int;
    assert(e1 as nat * b.rate == e1 * r);
    if filled.tokens < n * BYTE as nat {
        lemma_nearest((n * BYTE as nat - filled.tokens) as nat, b.rate);
        assert(0 * b.rate == 0);
    }
    assert(2 * (n * BYTE as nat) <= 2 * (filled.tokens - next.tokens) + r);
    if rest.len() > 0 {
        law_rate_is_kept(next, rest);
        assert(rest.last() == run.last());
        let e2 = run.last().0 - now;
        assert((e1 + e2) * r == e1 * r + e2 * r) by (nonlinear_arith);
        assert((n + total_bytes(rest)) * BYTE as int == n * BYTE as int + total_bytes(rest)
            * BYTE as int) by (nonlinear_arith);
        assert(e1 + e2 == run.last().0 - b.last);
        assert(run.len() * r == rest.len() * r + r) by (nonlinear_arith)
            requires
                run.len() == rest.len() + 1,
        ;
    } else {
        assert(run.last() == run[0]);
        assert(total_bytes(run) == n);
        assert(run.len() * r == r) by (nonlinear_arith)
            requires
                run.len() == 1,
        ;
    }
}

} // verus!
