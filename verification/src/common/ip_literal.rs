//! Internet addresses as they are written before a port: four numbers with dots
//! between them, or the long form in brackets.

use vstd::prelude::*;

verus! {

/// The pieces of a text between separators; one more than there are of them.
pub open spec fn pieces(t: Seq<char>, sep: char) -> Seq<Seq<char>>
    decreases t.len(),
{
    if t.len() == 0 {
        seq![t]
    } else {
        let before = pieces(t.drop_last(), sep);
        if t.last() == sep {
            before.push(Seq::empty())
        } else {
            before.drop_last().push(before.last().push(t.last()))
        }
    }
}

/// The number that `t` writes, where it is one of decimal digits up to `max`.
pub open spec fn number(t: Seq<char>, max: nat) -> Option<nat> {
    if t.len() > 0 && (forall|i: int|
        0 <= i < t.len() ==> crate::common::multiport::is_digit(#[trigger] t[i]))
        && crate::common::multiport::decimal_value(t) <= max {
        Some(crate::common::multiport::decimal_value(t))
    } else {
        None
    }
}

/// A number up to 255 of at most three digits, without leading zeros.
pub open spec fn is_octet(t: Seq<char>) -> bool {
    t.len() <= 3 && number(t, 255) is Some && (t.len() > 1 ==> t[0] != '0')
}

/// Four octets with dots between them.
pub open spec fn is_ipv4(t: Seq<char>) -> bool {
    let ps = pieces(t, '.');
    ps.len() == 4 && forall|i: int| 0 <= i < 4 ==> is_octet(#[trigger] ps[i])
}

/// `c` is a hexadecimal digit.
pub open spec fn is_hex(c: char) -> bool {
    '0' <= c <= '9' || 'a' <= c <= 'f' || 'A' <= c <= 'F'
}

/// One to four hexadecimal digits.
pub open spec fn is_group(t: Seq<char>) -> bool {
    1 <= t.len() <= 4 && forall|i: int| 0 <= i < t.len() ==> is_hex(#[trigger] t[i])
}

/// All of the pieces are groups.
pub open spec fn all_groups(ps: Seq<Seq<char>>) -> bool {
    forall|i: int| 0 <= i < ps.len() ==> is_group(#[trigger] ps[i])
}

/// How many groups `t` writes with colons between them. With `ends_short` the
/// last two may be written as an address of four octets.
pub open spec fn groups(t: Seq<char>, ends_short: bool) -> Option<nat> {
    let ps = pieces(t, ':');
    if t.len() == 0 {
        Some(0)
    } else if all_groups(ps) {
        Some(ps.len())
    } else if ends_short && all_groups(ps.drop_last()) && is_ipv4(ps.last()) {
        Some(ps.len() + 1)
    } else {
        None
    }
}

/// Where two colons stand side by side first, from `i` on.
pub open spec fn double_colon(t: Seq<char>, i: int) -> Option<int>
    decreases t.len() - i,
{
    if i + 1 >= t.len() {
        None
    } else if t[i] == ':' && t[i + 1] == ':' {
        Some(i)
    } else {
        double_colon(t, i + 1)
    }
}

/// Eight groups; two colons side by side stand for those that are left out, one
/// at least.
pub open spec fn is_ipv6(t: Seq<char>) -> bool {
    match double_colon(t, 0) {
        None => groups(t, true) == Some(8nat),
        Some(i) => match (groups(t.take(i), false), groups(t.skip(i + 2), true)) {
            (Some(a), Some(b)) => a + b <= 7,
            _ => false,
        },
    }
}

/// An address in the long form, perhaps with the number of its scope behind a
/// percent sign.
pub open spec fn is_scoped_ipv6(t: Seq<char>) -> bool {
    let ps = pieces(t, '%');
    ||| ps.len() == 1 && is_ipv6(t)
    ||| ps.len() == 2 && is_ipv6(ps[0]) && number(ps[1], u32::MAX as nat) is Some
}

/// An address as it is written before a port.
pub open spec fn is_ip_literal(t: Seq<char>) -> bool {
    ||| is_ipv4(t)
    ||| t.len() >= 2 && t[0] == '[' && t.last() == ']' && is_scoped_ipv6(
        t.subrange(1, t.len() - 1),
    )
}

/// The contents of a list of texts.
pub open spec fn char_rows(v: Seq<Vec<char>>) -> Seq<Seq<char>> {
    Seq::new(v.len(), |i: int| v[i]@)
}

/// The characters from `from` up to `to`.
fn part(t: &Vec<char>, from: usize, to: usize) -> (p: Vec<char>)
    requires
        from <= to <= t@.len(),
    ensures
        p@ == t@.subrange(from as int, to as int),
{
    let mut p: Vec<char> = Vec::new();
    let mut i: usize = from;
    assert(p@ =~= t@.subrange(from as int, from as int));
    while i < to
        invariant
            from <= i <= to <= t@.len(),
            p@ == t@.subrange(from as int, i as int),
        decreases to - i,
    {
        p.push(t[i]);
        assert(p@ =~= t@.subrange(from as int, i + 1));
        i = i + 1;
    }
    p
}

/// The pieces of a text between separators.
fn split(t: &Vec<char>, sep: char) -> (ps: Vec<Vec<char>>)
    ensures
        char_rows(ps@) == pieces(t@, sep),
        ps@.len() > 0,
{
    let mut done: Vec<Vec<char>> = Vec::new();
    let mut last: Vec<char> = Vec::new();
    let mut i: usize = 0;
    assert(t@.take(0) =~= Seq::<char>::empty());
    assert(char_rows(done@).push(last@) =~= seq![t@.take(0)]);
    while i < t.len()
        invariant
            i <= t@.len(),
            char_rows(done@).push(last@) == pieces(t@.take(i as int), sep),
        decreases t@.len() - i,
    {
        let ghost rows = char_rows(done@);
        let ghost done0 = done@;
        let ghost last0 = last@;
        let c: char = t[i];
        let ghost more = t@.take(i + 1);
        assert(more.drop_last() =~= t@.take(i as int));
        assert(more.last() == c);
        if c == sep {
            done.push(last);
            last = Vec::new();
            assert(char_rows(done@) =~= rows.push(last0));
            assert(last@ =~= Seq::<char>::empty());
        } else {
            last.push(c);
            assert(rows.push(last0).drop_last() =~= rows);
        }
        i = i + 1;
    }
    let ghost rows = char_rows(done@);
    assert(t@.take(i as int) =~= t@);
    done.push(last);
    assert(char_rows(done@) =~= rows.push(last@));
    done
}

/// The number that `t` writes: see [`number`].
fn parse_number(t: &Vec<char>, max: u32) -> (n: Option<u32>)
    ensures
        match n {
            Some(n) => number(t@, max as nat) == Some(n as nat),
            None => number(t@, max as nat) is None,
        },
{
    if t.len() == 0 {
        return None;
    }
    let mut value: u64 = 0;
    let mut i: usize = 0;
    assert(t@.take(0) =~= Seq::<char>::empty());
    while i < t.len()
        invariant
            i <= t@.len(),
            t@.len() > 0,
            value <= max,
            value == crate::common::multiport::decimal_value(t@.take(i as int)),
            forall|j: int|
                0 <= j < i ==> crate::common::multiport::is_digit(#[trigger] t@[j]),
        decreases t@.len() - i,
    {
        let c: char = t[i];
        if c < '0' || c > '9' {
            assert(!crate::common::multiport::is_digit(t@[i as int]));
            return None;
        }
        assert(t@.take(i + 1).drop_last() =~= t@.take(i as int));
        value = value * 10 + (c as u64 - '0' as u64);
        if value > max as u64 {
            proof {
                if number(t@, max as nat) is Some {
                    crate::common::multiport::lemma_decimal_value_grows(t@, i + 1);
                }
            }
            return None;
        }
        i = i + 1;
    }
    assert(t@.take(i as int) =~= t@);
    Some(value as u32)
}

fn octet(t: &Vec<char>) -> (b: bool)
    ensures
        b == is_octet(t@),
{
    t.len() <= 3 && parse_number(t, 255).is_some() && (t.len() <= 1 || t[0] != '0')
}

fn ipv4(t: &Vec<char>) -> (b: bool)
    ensures
        b == is_ipv4(t@),
{
    let ps: Vec<Vec<char>> = split(t, '.');
    let ghost rows = pieces(t@, '.');
    if ps.len() != 4 {
        return false;
    }
    let mut i: usize = 0;
    while i < 4
        invariant
            i <= 4,
            ps@.len() == 4,
            char_rows(ps@) == rows,
            forall|j: int| 0 <= j < i ==> is_octet(#[trigger] rows[j]),
            rows == pieces(t@, '.'),
        decreases 4 - i,
    {
        assert(rows[i as int] == ps@[i as int]@);
        if !octet(&ps[i]) {
            return false;
        }
        i = i + 1;
    }
    true
}

fn group(t: &Vec<char>) -> (b: bool)
    ensures
        b == is_group(t@),
{
    if t.len() == 0 || t.len() > 4 {
        return false;
    }
    let mut i: usize = 0;
    while i < t.len()
        invariant
            i <= t@.len(),
            forall|j: int| 0 <= j < i ==> is_hex(#[trigger] t@[j]),
        decreases t@.len() - i,
    {
        let c: char = t[i];
        let hex: bool = ('0' <= c && c <= '9') || ('a' <= c && c <= 'f') || ('A' <= c && c <= 'F');
        if !hex {
            assert(!is_hex(t@[i as int]));
            return false;
        }
        i = i + 1;
    }
    true
}

/// How many groups `t` writes: see [`groups`].
fn count_groups(t: &Vec<char>, ends_short: bool) -> (n: Option<usize>)
    ensures
        match n {
            Some(n) => groups(t@, ends_short) == Some(n as nat),
            None => groups(t@, ends_short) is None || groups(t@, ends_short)->0 > usize::MAX,
        },
{
    if t.len() == 0 {
        return Some(0);
    }
    let ps: Vec<Vec<char>> = split(t, ':');
    let ghost rows = pieces(t@, ':');
    let mut i: usize = 0;
    while i < ps.len() && group(&ps[i])
        invariant
            i <= ps@.len(),
            char_rows(ps@) == rows,
            forall|j: int| 0 <= j < i ==> is_group(#[trigger] rows[j]),
        ensures
            i <= ps@.len(),
            forall|j: int| 0 <= j < i ==> is_group(#[trigger] rows[j]),
            i < ps@.len() ==> !is_group(rows[i as int]),
        decreases ps@.len() - i,
    {
        assert(rows[i as int] == ps@[i as int]@);
        i = i + 1;
    }
    if i == ps.len() {
        assert(all_groups(rows));
        return Some(i);
    }
    assert(!all_groups(rows));
    if ends_short && i == ps.len() - 1 && ipv4(&ps[i]) {
        assert(rows.last() == ps@[i as int]@);
        assert(all_groups(rows.drop_last()));
        if i <= usize::MAX - 2 {
            return Some(i + 2);
        }
        return None;
    }
    proof {
        if i < ps@.len() - 1 {
            assert(rows.drop_last()[i as int] == rows[i as int]);
            assert(!all_groups(rows.drop_last()));
        } else {
            assert(rows.last() == ps@[i as int]@);
        }
    }
    None
}

fn ipv6(t: &Vec<char>) -> (b: bool)
    ensures
        b == is_ipv6(t@),
{
    let n: usize = t.len();
    let mut i: usize = 0;
    while i < n && n - i >= 2 && !(t[i] == ':' && t[i + 1] == ':')
        invariant
            n == t@.len(),
            i <= n,
            double_colon(t@, 0) == double_colon(t@, i as int),
        decreases n - i,
    {
        i = i + 1;
    }
    if n - i < 2 {
        return match count_groups(t, true) {
            Some(k) => k == 8,
            None => false,
        };
    }
    let head: Vec<char> = part(t, 0, i);
    let tail: Vec<char> = part(t, i + 2, n);
    assert(head@ =~= t@.take(i as int));
    assert(tail@ =~= t@.skip(i + 2));
    match (count_groups(&head, false), count_groups(&tail, true)) {
        (Some(a), Some(b)) => a <= 7 && b <= 7 - a,
        _ => false,
    }
}

fn scoped_ipv6(t: &Vec<char>) -> (b: bool)
    ensures
        b == is_scoped_ipv6(t@),
{
    let ps: Vec<Vec<char>> = split(t, '%');
    let ghost rows = pieces(t@, '%');
    if ps.len() == 1 {
        return ipv6(t);
    }
    if ps.len() != 2 {
        return false;
    }
    assert(rows[0] == ps@[0]@ && rows[1] == ps@[1]@);
    ipv6(&ps[0]) && parse_number(&ps[1], 4294967295).is_some()
}

/// Whether `t` is an address as it is written before a port: see
/// [`is_ip_literal`].
pub fn ip_literal(t: &Vec<char>) -> (b: bool)
    ensures
        b == is_ip_literal(t@),
{
    if ipv4(t) {
        return true;
    }
    let n: usize = t.len();
    if n < 2 || t[0] != '[' || t[n - 1] != ']' {
        return false;
    }
    let inner: Vec<char> = part(t, 1, n - 1);
    scoped_ipv6(&inner)
}

} // verus!
