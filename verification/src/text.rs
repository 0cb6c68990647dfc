//! Text: decimal numbers, and the replacing of marks.

use vstd::prelude::*;
use vstd::string::*;

verus! {

/// `String::push` appends one character, as its documentation says.
pub assume_specification[ String::push ](s: &mut String, c: char)
    ensures
        final(s)@ == old(s)@.push(c),
;

/// The decimal digit `d`.
pub open spec fn digit_char(d: nat) -> char {
    (48 + d) as char
}

/// `n` in decimal, without leading zeros.
pub open spec fn decimal(n: nat) -> Seq<char>
    decreases n,
{
    if n < 10 {
        seq![digit_char(n)]
    } else {
        decimal(n / 10).push(digit_char(n % 10))
    }
}

/// `k` zeros.
pub open spec fn zeros(k: nat) -> Seq<char> {
    Seq::new(k, |i: int| '0')
}

/// `n` in decimal with zeros before it up to `width` characters.
pub open spec fn padded(n: nat, width: nat) -> Seq<char> {
    if decimal(n).len() >= width {
        decimal(n)
    } else {
        zeros((width - decimal(n).len()) as nat) + decimal(n)
    }
}

/// A number below zero has a sign, which counts toward the width.
pub open spec fn signed_padded(n: int, width: nat) -> Seq<char> {
    if n >= 0 {
        padded(n as nat, width)
    } else {
        seq!['-'] + padded((-n) as nat, if width == 0 { 0 } else { (width - 1) as nat })
    }
}

/// `s` with every occurrence of the two characters `a`, `b` replaced by `by`,
/// from left to right.
pub open spec fn replaced(s: Seq<char>, a: char, b: char, by: Seq<char>) -> Seq<char>
    decreases s.len(),
{
    if s.len() < 2 {
        s
    } else if s[0] == a && s[1] == b {
        by + replaced(s.skip(2), a, b, by)
    } else {
        seq![s[0]] + replaced(s.skip(1), a, b, by)
    }
}

/// The characters `a`, `b` stand side by side somewhere in `s`.
pub open spec fn has_pair(s: Seq<char>, a: char, b: char) -> bool {
    exists|i: int| 0 <= i && i + 1 < s.len() && #[trigger] s[i] == a && s[i + 1] == b
}

/// The contents of a vector of strings.
pub open spec fn texts(v: Seq<String>) -> Seq<Seq<char>> {
    Seq::new(v.len(), |i: int| v[i]@)
}

/// The characters of a string.
pub fn chars_of(s: &str) -> (chars: Vec<char>)
    ensures
        chars@ == s@,
{
    let mut chars: Vec<char> = Vec::new();
    for c in it: s.chars()
        invariant
            chars@ == it.seq().take(it.index()),
            it.seq() == s@,
    {
        chars.push(c);
    }
    assert(chars@ =~= s@);
    chars
}

/// The string of the characters from `from` up to `to`.
pub fn string_of(chars: &Vec<char>, from: usize, to: usize) -> (s: String)
    requires
        from <= to <= chars@.len(),
    ensures
        s@ == chars@.subrange(from as int, to as int),
{
    let mut s: String = String::new();
    let mut i: usize = from;
    assert(s@ =~= chars@.subrange(from as int, from as int));
    while i < to
        invariant
            from <= i <= to <= chars@.len(),
            s@ == chars@.subrange(from as int, i as int),
        decreases to - i,
    {
        s.push(chars[i]);
        assert(s@ =~= chars@.subrange(from as int, i + 1));
        i = i + 1;
    }
    s
}

/// Appends the digit `d`.
fn push_digit(out: &mut String, d: u64)
    requires
        d < 10,
    ensures
        final(out)@ == old(out)@.push(digit_char(d as nat)),
{
    let c: char = (48u8 + d as u8) as char;
    out.push(c);
}

/// Appends `n` in decimal.
pub fn push_decimal(out: &mut String, n: u64)
    ensures
        final(out)@ == old(out)@ + decimal(n as nat),
    decreases n,
{
    if n >= 10 {
        push_decimal(out, n / 10);
    }
    push_digit(out, n % 10);
    assert(out@ =~= old(out)@ + decimal(n as nat));
}

/// Appends `n` in decimal, with zeros before it up to `width` characters.
pub fn push_padded(out: &mut String, n: u64, width: usize)
    ensures
        final(out)@ == old(out)@ + padded(n as nat, width as nat),
    decreases width,
{
    if width <= 1 {
        push_decimal(out, n);
        assert(decimal(n as nat).len() >= 1);
    } else if n < 10 {
        let mut k: usize = 0;
        assert(out@ =~= old(out)@ + zeros(0));
        while k < width - 1
            invariant
                k <= width - 1,
                width >= 2,
                out@ == old(out)@ + zeros(k as nat),
            decreases width - k,
        {
            out.push('0');
            assert(out@ =~= old(out)@ + zeros((k + 1) as nat));
            k = k + 1;
        }
        push_digit(out, n);
        assert(out@ =~= old(out)@ + padded(n as nat, width as nat));
    } else {
        push_padded(out, n / 10, width - 1);
        push_digit(out, n % 10);
        assert(decimal(n as nat).len() == decimal((n / 10) as nat).len() + 1);
        assert(out@ =~= old(out)@ + padded(n as nat, width as nat));
    }
}

/// Appends `n`, which may be below zero, as [`push_padded`] does; the sign
/// counts toward the width.
pub fn push_signed_padded(out: &mut String, n: i32, width: usize)
    ensures
        final(out)@ == old(out)@ + signed_padded(n as int, width as nat),
{
    if n >= 0 {
        push_padded(out, n as u64, width);
    } else {
        out.push('-');
        let m: u64 = (-(n as i64)) as u64;
        push_padded(
            out,
            m,
            if width == 0 {
                0
            } else {
                width - 1
            },
        );
        assert(out@ =~= old(out)@ + signed_padded(n as int, width as nat));
    }
}

/// Replaces every occurrence of the two characters `a`, `b` by `by`.
pub fn replace_pair(s: &str, a: char, b: char, by: &str) -> (r: String)
    ensures
        r@ == replaced(s@, a, b, by@),
{
    let chars: Vec<char> = chars_of(s);
    let n: usize = chars.len();
    let mut r: String = String::new();
    let mut i: usize = 0;
    assert(s@.skip(0) =~= s@);
    assert(r@ + replaced(s@, a, b, by@) =~= replaced(s@, a, b, by@));
    while i < n
        invariant
            n == chars@.len(),
            chars@ == s@,
            i <= n,
            r@ + replaced(s@.skip(i as int), a, b, by@) == replaced(s@, a, b, by@),
        decreases n - i,
    {
        let ghost rest = s@.skip(i as int);
        let ghost r0 = r@;
        if n - i >= 2 && chars[i] == a && chars[i + 1] == b {
            r.append(by);
            assert(rest.skip(2) =~= s@.skip(i + 2));
            assert(r@ + replaced(rest.skip(2), a, b, by@) =~= r0 + (by@ + replaced(
                rest.skip(2),
                a,
                b,
                by@,
            )));
            i = i + 2;
        } else {
            let c: char = chars[i];
            r.push(c);
            assert(rest.skip(1) =~= s@.skip(i + 1));
            if n - i >= 2 {
                assert(r@ + replaced(rest.skip(1), a, b, by@) =~= r0 + (seq![c] + replaced(
                    rest.skip(1),
                    a,
                    b,
                    by@,
                )));
            } else {
                assert(rest =~= seq![c]);
                assert(rest.skip(1) =~= Seq::<char>::empty());
                assert(r@ + Seq::<char>::empty() =~= r0 + rest);
            }
            i = i + 1;
        }
    }
    assert(s@.skip(n as int) =~= Seq::<char>::empty());
    assert(r@ + Seq::<char>::empty() =~= r@);
    r
}

/// `by` can stand in for a mark without making a new one: it has characters,
/// none of them is `a`, and it does not begin with `c`.
pub open spec fn makes_no_pair(by: Seq<char>, a: char, c: char) -> bool {
    by.len() > 0 && by[0] != c && forall|i: int| 0 <= i < by.len() ==> by[i] != a
}

/// Replacing `a`, `b` leaves no pair `a`, `c` where there was none before, and
/// none at all where `c` is `b`.
pub proof fn lemma_replaced_has_no_pair(s: Seq<char>, a: char, b: char, c: char, by: Seq<char>)
    requires
        makes_no_pair(by, a, c),
        c == b || !has_pair(s, a, c),
    ensures
        !has_pair(replaced(s, a, b, by), a, c),
        s.len() > 0 && s[0] != c ==> replaced(s, a, b, by).len() == 0 || replaced(
            s,
            a,
            b,
            by,
        )[0] != c,
    decreases s.len(),
{
    let r = replaced(s, a, b, by);
    if s.len() >= 2 {
        if s[0] == a && s[1] == b {
            let t = replaced(s.skip(2), a, b, by);
            if c != b && has_pair(s.skip(2), a, c) {
                let i = choose|i: int|
                    0 <= i && i + 1 < s.skip(2).len() && #[trigger] s.skip(2)[i] == a && s.skip(
                        2,
                    )[i + 1] == c;
                assert(s[i + 2] == a && s[i + 3] == c);
            }
            lemma_replaced_has_no_pair(s.skip(2), a, b, c, by);
            assert forall|i: int| 0 <= i && i + 1 < r.len() && #[trigger] r[i] == a implies r[i + 1]
                != c by {
                if i >= by.len() {
                    assert(t[i - by.len()] == a);
                }
            }
        } else {
            let t = replaced(s.skip(1), a, b, by);
            if c != b && has_pair(s.skip(1), a, c) {
                let i = choose|i: int|
                    0 <= i && i + 1 < s.skip(1).len() && #[trigger] s.skip(1)[i] == a && s.skip(
                        1,
                    )[i + 1] == c;
                assert(s[i + 1] == a && s[i + 2] == c);
            }
            lemma_replaced_has_no_pair(s.skip(1), a, b, c, by);
            assert forall|i: int| 0 <= i && i + 1 < r.len() && #[trigger] r[i] == a implies r[i + 1]
                != c by {
                if i > 0 {
                    assert(t[i - 1] == a);
                } else {
                    assert(s.skip(1)[0] == s[1]);
                    assert(s[0] == a);
                    assert(s[1] != c);
                }
            }
        }
    }
}

/// Every character of a padded number is a digit.
pub proof fn lemma_padded_is_digits(n: nat, width: nat)
    ensures
        padded(n, width).len() > 0,
        forall|i: int| 0 <= i < padded(n, width).len() ==> '0' <= #[trigger] padded(n, width)[i] <= '9',
{
    lemma_decimal_is_digits(n);
}

proof fn lemma_decimal_is_digits(n: nat)
    ensures
        decimal(n).len() > 0,
        forall|i: int| 0 <= i < decimal(n).len() ==> '0' <= #[trigger] decimal(n)[i] <= '9',
    decreases n,
{
    if n >= 10 {
        lemma_decimal_is_digits(n / 10);
    }
}

} // verus!
