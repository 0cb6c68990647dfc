//! What numbers on the wire, numbers in text and the calendar are for, stated over
//! what calls take and give.

use crate::calendar::civil_from_secs;
use crate::text::{
    chars_of, push_decimal, push_padded, push_signed_padded, replace_pair, string_of,
};
use crate::wire::{
    copy_at, copy_prefix, push_be16, push_be32, push_slice, read_be16, read_be32, resize_bytes,
};
use vstd::prelude::*;

verus! {

/// Numbers are written with their highest byte first, behind what is there.
pub proof fn law_highest_byte_is_written_first(
    a: &mut Vec<u8>,
    v: u16,
    b: &mut Vec<u8>,
    w: u32,
)
    requires
        call_ensures(push_be16, (a, v), ()),
        call_ensures(push_be32, (b, w), ()),
    ensures
        ({
            let n = old(a)@.len() as int;
            let s = final(a)@;
            &&& s.len() == n + 2
            &&& s.take(n) == old(a)@
            &&& 256 * s[n] + s[n + 1] == v
        }),
        ({
            let n = old(b)@.len() as int;
            let s = final(b)@;
            &&& s.len() == n + 4
            &&& s.take(n) == old(b)@
            &&& 0x100_0000 * s[n] + 0x1_0000 * s[n + 1] + 256 * s[n + 2] + s[n + 3] == w
        }),
{
    crate::wire::lemma_be_bytes_2(v as nat);
    crate::wire::lemma_be_bytes_4(w as nat);
    assert(final(a)@.take(old(a)@.len() as int) =~= old(a)@);
    assert(final(b)@.take(old(b)@.len() as int) =~= old(b)@);
}

/// And read so, from where they stand.
pub proof fn law_highest_byte_is_read_first(s: &[u8], i: usize, v: u16, j: usize, w: u32)
    requires
        i + 2 <= s@.len(),
        j + 4 <= s@.len(),
        call_ensures(read_be16, (s, i), v),
        call_ensures(read_be32, (s, j), w),
    ensures
        v == 256 * s@[i as int] + s@[i + 1],
        w == 0x100_0000 * s@[j as int] + 0x1_0000 * s@[j + 1] + 256 * s@[j + 2] + s@[j + 3],
{
    crate::wire::lemma_be_value_2(s@[i as int], s@[i + 1]);
    assert(s@.subrange(i as int, i + 2) =~= seq![s@[i as int], s@[i + 1]]);
    crate::wire::lemma_be_value_4(s@[j as int], s@[j + 1], s@[j + 2], s@[j + 3]);
    assert(s@.subrange(j as int, j + 4) =~= seq![s@[j as int], s@[j + 1], s@[j + 2], s@[j + 3]]);
}

/// Copying moves as many bytes as both sides have, each to its own place, and
/// leaves the others.
pub proof fn law_copies_fit(
    src: &[u8],
    dst: &mut [u8],
    n: usize,
    into: &mut [u8],
    at: usize,
    m: usize,
)
    requires
        call_ensures(copy_prefix, (src, dst), n),
        at + m <= old(into)@.len(),
        m <= src@.len(),
        call_ensures(copy_at, (into, at, src, m), ()),
    ensures
        n <= src@.len() && n <= old(dst)@.len(),
        n == src@.len() || n == old(dst)@.len(),
        final(dst)@.len() == old(dst)@.len(),
        forall|i: int| 0 <= i < n ==> #[trigger] final(dst)@[i] == src@[i],
        forall|i: int| n <= i < old(dst)@.len() ==> #[trigger] final(dst)@[i] == old(dst)@[i],
        final(into)@.len() == old(into)@.len(),
        forall|i: int| at <= i < at + m ==> #[trigger] final(into)@[i] == src@[i - at],
        forall|i: int|
            (0 <= i < at || at + m <= i < old(into)@.len()) ==> #[trigger] final(into)@[i] == old(into)@[i],
{
}

/// A buffer keeps its bytes as far as it goes, and is zero beyond.
pub proof fn law_resized_buffer_keeps_its_bytes(v: &mut Vec<u8>, len: usize)
    requires
        call_ensures(resize_bytes, (v, len), ()),
    ensures
        final(v)@.len() == len,
        forall|i: int| 0 <= i < len && i < old(v)@.len() ==> #[trigger] final(v)@[i] == old(v)@[i],
        forall|i: int| old(v)@.len() <= i < len ==> #[trigger] final(v)@[i] == 0,
{
}

/// The days of a month: 30 and 31 in turn, beginning with 31 in January and again
/// in August; February has 28, and one more in every fourth year but those of
/// full centuries that 400 does not divide.
pub open spec fn days_of_month(y: int, m: int) -> int {
    if m != 2 {
        30 + (m + m / 8) % 2
    } else if (y % 4 == 0 && y % 100 != 0) || y % 400 == 0 {
        29
    } else {
        28
    }
}

#[verifier::spinoff_prover]
proof fn lemma_date(days: int, y: int, m: int, d: int)
    requires
        0 <= days <= 694_000_000_000,
        crate::calendar::is_date(days, y, m, d),
    ensures
        1970 <= y < 0x7fff_ffff,
        crate::calendar::month_len(y, m) == days_of_month(y, m),
        d < days_of_month(y, m) ==> crate::calendar::is_date(days + 1, y, m, d + 1),
        d == days_of_month(y, m) && m < 12 ==> crate::calendar::is_date(days + 1, y, m + 1, 1),
        d == days_of_month(y, m) && m == 12 ==> crate::calendar::is_date(days + 1, y + 1, 1, 1),
        d <= days_of_month(y, m),
{
    crate::calendar::lemma_month_starts(y);
    crate::calendar::lemma_month_starts(y + 1);
    crate::calendar::law_years_follow_each_other(y);
    crate::calendar::law_years_follow_each_other(1970);
    assert(m == 1 || m == 2 || m == 3 || m == 4 || m == 5 || m == 6 || m == 7 || m == 8 || m == 9
        || m == 10 || m == 11 || m == 12);
    lemma_year_bounds(days, y, m, d);
}

#[verifier::spinoff_prover]
proof fn lemma_year_bounds(days: int, y: int, m: int, d: int)
    requires
        0 <= days <= 694_000_000_000,
        crate::calendar::is_date(days, y, m, d),
    ensures
        1970 <= y < 0x7fff_ffff,
{
    crate::calendar::lemma_month_starts(y);
    crate::calendar::law_years_follow_each_other(y);
    crate::calendar::law_years_follow_each_other(1970);
    assert(m == 1 || m == 2 || m == 3 || m == 4 || m == 5 || m == 6 || m == 7 || m == 8 || m == 9
        || m == 10 || m == 11 || m == 12);
    if y < 1970 {
        crate::calendar::lemma_year_start_monotone(y + 1, 1970);
    }
    lemma_leaps_grow(y - 1);
}

proof fn lemma_leaps_grow(a: int)
    requires
        a >= 1969,
    ensures
        crate::calendar::leaps(a) >= crate::calendar::leaps(1969),
{
    assert(a / 4 - 492 >= a / 100 - 19);
    assert(a / 400 >= 4);
}

/// The clock goes on: a second later it is the next second, minute or hour of the
/// same day, or the first second of the next day, month or year.
#[verifier::spinoff_prover]
pub proof fn law_second_follows_second(
    secs: u64,
    now: (i32, u32, u32, u32, u32, u32),
    next: (i32, u32, u32, u32, u32, u32),
)
    requires
        secs < 59_000_000_000_000_000,
        call_ensures(civil_from_secs, (secs,), now),
        call_ensures(civil_from_secs, ((secs + 1) as u64,), next),
    ensures
        now.5 < 59 ==> next == (now.0, now.1, now.2, now.3, now.4, (now.5 + 1) as u32),
        now.5 == 59 && now.4 < 59 ==> next == (now.0, now.1, now.2, now.3, (now.4 + 1) as u32, 0u32),
        now.5 == 59 && now.4 == 59 && now.3 < 23 ==> next == (
            now.0,
            now.1,
            now.2,
            (now.3 + 1) as u32,
            0u32,
            0u32,
        ),
        now.5 == 59 && now.4 == 59 && now.3 == 23 ==> {
            let last = days_of_month(now.0 as int, now.1 as int);
            &&& now.2 < last ==> next == (now.0, now.1, (now.2 + 1) as u32, 0u32, 0u32, 0u32)
            &&& now.2 == last && now.1 < 12 ==> next == (
                now.0,
                (now.1 + 1) as u32,
                1u32,
                0u32,
                0u32,
                0u32,
            )
            &&& now.2 == last && now.1 == 12 ==> next == (
                (now.0 + 1) as i32,
                1u32,
                1u32,
                0u32,
                0u32,
                0u32,
            )
        },
        now.3 < 24 && now.4 < 60 && now.5 < 60,
        1 <= now.1 <= 12,
        1 <= now.2 <= days_of_month(now.0 as int, now.1 as int),
{
    let days = (secs / 86400) as int;
    let date = crate::calendar::date_of(days);
    lemma_date(days, date.0, date.1, date.2);
    let later = (secs + 1) / 86400;
    let date2 = crate::calendar::date_of(later);
    assert(crate::calendar::is_date(later, date2.0, date2.1, date2.2));
    lemma_date(later, date2.0, date2.1, date2.2);
    let t = (secs % 86400) as int;
    if t < 86399 {
        assert(later == days);
        assert((secs + 1) % 86400 == t + 1);
    } else {
        assert(later == days + 1);
        assert((secs + 1) % 86400 == 0);
        let last = days_of_month(date.0, date.1);
        if date.2 < last {
            crate::calendar::law_date_is_unique(
                later,
                date.0,
                date.1,
                date.2 + 1,
                date2.0,
                date2.1,
                date2.2,
            );
        } else if date.1 < 12 {
            crate::calendar::law_date_is_unique(
                later,
                date.0,
                date.1 + 1,
                1,
                date2.0,
                date2.1,
                date2.2,
            );
        } else {
            crate::calendar::law_date_is_unique(
                later,
                date.0 + 1,
                1,
                1,
                date2.0,
                date2.1,
                date2.2,
            );
        }
    }
}

/// Time begins with 1970.
pub proof fn law_time_begins_with_1970(r: (i32, u32, u32, u32, u32, u32))
    requires
        call_ensures(civil_from_secs, (0u64,), r),
    ensures
        r == (1970i32, 1u32, 1u32, 0u32, 0u32, 0u32),
{
    let date = crate::calendar::date_of(0);
    crate::calendar::law_years_follow_each_other(1970);
    crate::calendar::lemma_month_starts(1970);
    assert(crate::calendar::is_date(0, 1970, 1, 1));
    crate::calendar::law_date_is_unique(0, 1970, 1, 1, date.0, date.1, date.2);
}

/// A number is appended with its last digit last, behind the digits of its tenth
/// part; a number below ten is one digit.
pub proof fn law_number_is_appended(a: &mut String, n: u64, b: &mut String)
    requires
        old(a)@ == old(b)@,
        call_ensures(push_decimal, (a, n), ()),
        call_ensures(push_decimal, (b, n / 10), ()),
    ensures
        final(a)@.len() > old(a)@.len(),
        final(a)@.last() as int == 48 + n % 10,
        n >= 10 ==> final(a)@.drop_last() == final(b)@,
        n < 10 ==> final(a)@.drop_last() == old(a)@,
{
    crate::common::laws::law_decimal_digits(n as nat);
    let d = crate::text::decimal(n as nat);
    assert(final(a)@.last() == d.last());
    assert(final(a)@.drop_last() =~= old(a)@ + d.drop_last());
    if n < 10 {
        assert(d.drop_last() =~= Seq::<char>::empty());
        assert(old(a)@ + Seq::<char>::empty() =~= old(a)@);
    }
}

/// A padded number is that number behind as many zeros as fill the width. A sign
/// stands before them and counts.
pub proof fn law_padded_number_is_appended(
    a: &mut String,
    n: u64,
    width: usize,
    b: &mut String,
    s: &mut String,
    m: i32,
    t: &mut String,
)
    requires
        old(a)@ == old(b)@,
        call_ensures(push_padded, (a, n, width), ()),
        call_ensures(push_decimal, (b, n), ()),
        call_ensures(push_signed_padded, (s, m, width), ()),
        m >= 0 ==> old(t)@ == old(s)@ && call_ensures(push_padded, (t, m as u64, width), ()),
        m < 0 && width > 0 ==> old(t)@ == old(s)@ + seq!['-'] && call_ensures(
            push_padded,
            (t, (-m) as u64, (width - 1) as usize),
            (),
        ),
    ensures
        ({
            let o = old(a)@.len() as int;
            let f = final(a)@;
            let d = final(b)@.skip(o);
            &&& f.take(o) == old(a)@
            &&& f.len() - o >= width
            &&& f.len() - o == width || f == final(b)@
            &&& f.len() >= final(b)@.len()
            &&& f.skip(f.len() - d.len()) == d
            &&& forall|i: int| o <= i < f.len() - d.len() ==> #[trigger] f[i] == '0'
        }),
        width > 0 || m >= 0 ==> final(s)@ == final(t)@,
{
    let o = old(a)@;
    let p = crate::text::padded(n as nat, width as nat);
    let d = crate::text::decimal(n as nat);
    crate::common::laws::law_padding_fills_the_width(n as nat, width as nat);
    let f = final(a)@;
    assert(f.take(o.len() as int) =~= o);
    assert(final(b)@.skip(o.len() as int) =~= d);
    assert(f.skip(f.len() - d.len()) =~= p.skip(p.len() - d.len()));
    assert forall|i: int| o.len() <= i < f.len() - d.len() implies #[trigger] f[i] == '0' by {
        assert(f[i] == p[i - o.len()]);
    }
    if m < 0 && width > 0 {
        let q = crate::text::padded((-m) as nat, (width - 1) as nat);
        assert((old(s)@ + seq!['-']) + q =~= old(s)@ + (seq!['-'] + q));
    }
}

/// Each mark is replaced where it stands, from the first on; a text without the
/// mark's first character stays.
pub proof fn law_mark_is_replaced(
    s: &str,
    a: char,
    b: char,
    by: &str,
    r: String,
    before: Seq<char>,
    rest: &str,
    later: String,
)
    requires
        a != b,
        !before.contains(a),
        call_ensures(replace_pair, (s, a, b, by), r),
        call_ensures(replace_pair, (rest, a, b, by), later),
    ensures
        s@ == before ==> r@ == before,
        s@ == before + seq![a, b] + rest@ ==> r@ == before + by@ + later@,
{
    crate::common::laws::law_marks_are_replaced_in_place(before, rest@, a, b, by@);
}

/// Characters and bytes are taken and put together in their order.
pub proof fn law_characters_keep_their_order(
    s: &str,
    chars: Vec<char>,
    from: usize,
    to: usize,
    part: String,
    out: &mut Vec<u8>,
    bytes: &[u8],
)
    requires
        call_ensures(chars_of, (s,), chars),
        from <= to <= chars@.len(),
        call_ensures(string_of, (&chars, from, to), part),
        call_ensures(push_slice, (out, bytes), ()),
    ensures
        chars@ == s@,
        part@.len() == to - from,
        forall|i: int| 0 <= i < to - from ==> #[trigger] part@[i] == s@[from + i],
        final(out)@.len() == old(out)@.len() + bytes@.len(),
        final(out)@.take(old(out)@.len() as int) == old(out)@,
        final(out)@.skip(old(out)@.len() as int) == bytes@,
{
    assert(final(out)@.take(old(out)@.len() as int) =~= old(out)@);
    assert(final(out)@.skip(old(out)@.len() as int) =~= bytes@);
}

} // verus!
