//! The civil calendar: from seconds since 1970 to a date and a time of day, UTC.

use vstd::prelude::*;

verus! {

/// Years with a 29th of February.
pub open spec fn is_leap(y: int) -> bool {
    y % 4 == 0 && (y % 100 != 0 || y % 400 == 0)
}

/// Days of a year.
pub open spec fn year_len(y: int) -> int {
    if is_leap(y) {
        366
    } else {
        365
    }
}

/// Days of month `m` of a year.
pub open spec fn month_len(y: int, m: int) -> int {
    if m == 2 {
        if is_leap(y) {
            29
        } else {
            28
        }
    } else if m == 4 || m == 6 || m == 9 || m == 11 {
        30
    } else {
        31
    }
}

/// Days of a year before its month `m` begins.
pub open spec fn month_start(y: int, m: int) -> int
    decreases m,
{
    if m <= 1 {
        0
    } else {
        month_start(y, m - 1) + month_len(y, m - 1)
    }
}

/// Leap years from year 1 through year `y`.
pub open spec fn leaps(y: int) -> int {
    y / 4 - y / 100 + y / 400
}

/// Days from the 1st of January 1970 to the 1st of January of year `y`.
pub open spec fn year_start(y: int) -> int {
    365 * (y - 1970) + leaps(y - 1) - leaps(1969)
}

/// A year begins where the one before it ends, and 1970 begins the count.
pub proof fn law_years_follow_each_other(y: int)
    ensures
        year_start(y + 1) == year_start(y) + year_len(y),
        year_start(1970) == 0,
{
    lemma_leaps_step(y);
}

proof fn lemma_leaps_step(y: int)
    ensures
        leaps(y) == leaps(y - 1) + (if is_leap(y) { 1int } else { 0 }),
{
    lemma_div_step(y, 4);
    lemma_div_step(y, 100);
    lemma_div_step(y, 400);
    lemma_mod_factor(y, 100, 4);
    lemma_mod_factor(y, 4, 25);
}

/// Dividing by `k` counts one more exactly at the multiples of `k`.
proof fn lemma_div_step(y: int, k: int)
    requires
        k > 1,
    ensures
        y / k == (y - 1) / k + (if y % k == 0 {
            1int
        } else {
            0
        }),
{
    vstd::arithmetic::div_mod::lemma_fundamental_div_mod(y, k);
    let q = y / k;
    let r = y % k;
    if r == 0 {
        assert(y - 1 == (q - 1) * k + (k - 1)) by (nonlinear_arith)
            requires
                y == k * q,
        ;
        vstd::arithmetic::div_mod::lemma_fundamental_div_mod_converse(y - 1, k, q - 1, k - 1);
    } else {
        assert(y - 1 == q * k + (r - 1)) by (nonlinear_arith)
            requires
                y == k * q + r,
        ;
        vstd::arithmetic::div_mod::lemma_fundamental_div_mod_converse(y - 1, k, q, r - 1);
    }
}

/// Multiples of `a * b` are multiples of `a`.
proof fn lemma_mod_factor(y: int, a: int, b: int)
    requires
        a > 0,
        b > 0,
    ensures
        y % (a * b) == 0 ==> y % a == 0,
{
    if y % (a * b) == 0 {
        assert(a * b > 0) by (nonlinear_arith)
            requires
                a > 0,
                b > 0,
        ;
        vstd::arithmetic::div_mod::lemma_fundamental_div_mod(y, a * b);
        let q = y / (a * b);
        assert(y == (b * q) * a) by (nonlinear_arith)
            requires
                y == (a * b) * q,
        ;
        vstd::arithmetic::div_mod::lemma_fundamental_div_mod_converse(y, a, b * q, 0);
    }
}

/// Month `m` of year `y` has day `d`, and that day comes `days` days after the
/// 1st of January 1970.
pub open spec fn is_date(days: int, y: int, m: int, d: int) -> bool {
    &&& 1 <= m <= 12
    &&& 1 <= d <= month_len(y, m)
    &&& days == year_start(y) + month_start(y, m) + d - 1
}

/// Later years begin later.
pub proof fn lemma_year_start_monotone(y: int, z: int)
    requires
        y <= z,
    ensures
        year_start(y) <= year_start(z),
    decreases z - y,
{
    if y < z {
        lemma_year_start_monotone(y, z - 1);
        law_years_follow_each_other(z - 1);
    }
}

/// Where the months of a year begin.
pub proof fn lemma_month_starts(y: int)
    ensures
        month_start(y, 1) == 0,
        month_start(y, 2) == 31,
        ({
            let a = if is_leap(y) {
                60int
            } else {
                59
            };
            &&& month_start(y, 3) == a
            &&& month_start(y, 4) == a + 31
            &&& month_start(y, 5) == a + 61
            &&& month_start(y, 6) == a + 92
            &&& month_start(y, 7) == a + 122
            &&& month_start(y, 8) == a + 153
            &&& month_start(y, 9) == a + 184
            &&& month_start(y, 10) == a + 214
            &&& month_start(y, 11) == a + 245
            &&& month_start(y, 12) == a + 275
        }),
{
    reveal_with_fuel(month_start, 13);
}

/// A day has one date only.
pub proof fn law_date_is_unique(days: int, y: int, m: int, d: int, y2: int, m2: int, d2: int)
    requires
        is_date(days, y, m, d),
        is_date(days, y2, m2, d2),
    ensures
        y == y2,
        m == m2,
        d == d2,
{
    lemma_month_starts(y);
    lemma_month_starts(y2);
    law_years_follow_each_other(y);
    law_years_follow_each_other(y2);
    if y < y2 {
        lemma_year_start_monotone(y + 1, y2);
    }
    if y2 < y {
        lemma_year_start_monotone(y2 + 1, y);
    }
    assert(m == m2) by {
        assert(m == 1 || m == 2 || m == 3 || m == 4 || m == 5 || m == 6 || m == 7 || m == 8 || m
            == 9 || m == 10 || m == 11 || m == 12);
        assert(m2 == 1 || m2 == 2 || m2 == 3 || m2 == 4 || m2 == 5 || m2 == 6 || m2 == 7 || m2
            == 8 || m2 == 9 || m2 == 10 || m2 == 11 || m2 == 12);
    }
}

proof fn lemma_year_of_era(doe: u32)
    requires
        doe < 146097,
    ensures
        ({
            let yoe = (doe - doe / 1460 + doe / 36524 - doe / 146096) / 365;
            &&& 0 <= yoe <= 399
            &&& 0 <= doe - (365 * yoe + yoe / 4 - yoe / 100) <= 365
            &&& doe - (365 * yoe + yoe / 4 - yoe / 100) == 365 ==> is_leap(yoe + 1)
        }),
{
    assert(doe < 146097 ==> ({
        let yoe = (((doe - doe / 1460) as u32 + doe / 36524) as u32 - doe / 146096) as u32 / 365;
        let doy = doe - (365 * yoe + yoe / 4 - yoe / 100);
        &&& yoe <= 399
        &&& 0 <= doy <= 365
        &&& doy == 365 ==> ((yoe + 1) as u32 % 4 == 0 && ((yoe + 1) as u32 % 100 != 0 || (yoe
            + 1) as u32 % 400 == 0))
    })) by (bit_vector);
}

/// Days before month `mp` of a year that begins with March, as month 0.
spec fn march_start(mp: int) -> int {
    if mp == 0 {
        0
    } else if mp == 1 {
        31
    } else if mp == 2 {
        61
    } else if mp == 3 {
        92
    } else if mp == 4 {
        122
    } else if mp == 5 {
        153
    } else if mp == 6 {
        184
    } else if mp == 7 {
        214
    } else if mp == 8 {
        245
    } else if mp == 9 {
        275
    } else if mp == 10 {
        306
    } else {
        337
    }
}

proof fn lemma_march_month(doy: u32)
    requires
        doy <= 365,
    ensures
        ({
            let mp = (5 * doy + 2) / 153;
            &&& 0 <= mp <= 11
            &&& (153 * mp + 2) / 5 == march_start(mp)
            &&& march_start(mp) <= doy
            &&& mp < 11 ==> doy < march_start(mp + 1)
        }),
{
    let mp = (5 * doy + 2) / 153;
    assert(mp == 0 || mp == 1 || mp == 2 || mp == 3 || mp == 4 || mp == 5 || mp == 6 || mp == 7
        || mp == 8 || mp == 9 || mp == 10 || mp == 11);
}

/// A day of a year that begins with March has the date that the calendar year
/// gives it.
proof fn lemma_date_from_march(days: int, y: int, doy: int, mp: int)
    requires
        days + 719468 == 365 * y + leaps(y) + doy,
        0 <= mp <= 11,
        march_start(mp) <= doy <= 365,
        mp < 11 ==> doy < march_start(mp + 1),
        doy == 365 ==> is_leap(y + 1),
    ensures
        ({
            let m = if mp < 10 {
                mp + 3
            } else {
                mp - 9
            };
            let year = if m <= 2 {
                y + 1
            } else {
                y
            };
            is_date(days, year, m, doy - march_start(mp) + 1)
        }),
{
    lemma_leaps_step(y);
    lemma_month_starts(y);
    lemma_month_starts(y + 1);
    assert(leaps(1969) == 477);
    assert(mp == 0 || mp == 1 || mp == 2 || mp == 3 || mp == 4 || mp == 5 || mp == 6 || mp == 7
        || mp == 8 || mp == 9 || mp == 10 || mp == 11);
}

/// Shifting by whole eras of 400 years shifts leap days alike.
proof fn lemma_leaps_of_era(era: int, yoe: int)
    requires
        0 <= yoe <= 399,
    ensures
        leaps(yoe + era * 400) == 97 * era + yoe / 4 - yoe / 100,
        is_leap(yoe + era * 400 + 1) == is_leap(yoe + 1),
{
    let y = yoe + era * 400;
    assert(y / 4 == 100 * era + yoe / 4);
    assert(y / 100 == 4 * era + yoe / 100);
    assert(y / 400 == era);
    assert((y + 1) % 4 == (yoe + 1) % 4);
    assert((y + 1) % 100 == (yoe + 1) % 100);
    assert((y + 1) % 400 == (yoe + 1) % 400);
}

/// The date of the day that comes `days` days after the 1st of January 1970:
/// year, month, day.
pub open spec fn date_of(days: int) -> (int, int, int) {
    choose|t: (int, int, int)| is_date(days, t.0, t.1, t.2)
}

/// The date and time of day, UTC, that lies `secs` seconds behind the start of
/// 1970: year, month, day, hour, minute, second. The year is cut to 32 bits.
pub fn civil_from_secs(secs: u64) -> (r: (i32, u32, u32, u32, u32, u32))
    ensures
        ({
            let date = date_of((secs / 86400) as int);
            &&& is_date((secs / 86400) as int, date.0, date.1, date.2)
            &&& r.0 == date.0 as i32
            &&& r.1 == date.1
            &&& r.2 == date.2
        }),
        r.3 < 24 && r.4 < 60 && r.5 < 60,
        secs % 86400 == r.3 * 3600 + r.4 * 60 + r.5,
{
    let days: i64 = (secs / 86400) as i64;
    let time_of_day: u64 = secs % 86400;
    let hour: u32 = (time_of_day / 3600) as u32;
    let minute: u32 = ((time_of_day % 3600) / 60) as u32;
    let second: u32 = (time_of_day % 60) as u32;

    // Days from the 1st of March of year 0, when leap days end years.
    let z: i64 = days + 719468;
    let era: i64 = z / 146097;
    let doe: u32 = (z - era * 146097) as u32;
    proof {
        lemma_year_of_era(doe);
    }
    let yoe: u32 = (doe - doe / 1460 + doe / 36524 - doe / 146096) / 365;
    let y: i64 = yoe as i64 + era * 400;
    let doy: u32 = doe - (365 * yoe + yoe / 4 - yoe / 100);
    proof {
        lemma_march_month(doy);
    }
    let mp: u32 = (5 * doy + 2) / 153;
    let d: u32 = doy - (153 * mp + 2) / 5 + 1;
    let m: u32 = if mp < 10 {
        mp + 3
    } else {
        mp - 9
    };
    let year: i64 = if m <= 2 {
        y + 1
    } else {
        y
    };
    proof {
        lemma_leaps_of_era(era as int, yoe as int);
        lemma_date_from_march(days as int, y as int, doy as int, mp as int);
        let date = (year as int, m as int, d as int);
        assert(is_date(days as int, date.0, date.1, date.2));
        let chosen = date_of(days as int);
        law_date_is_unique(
            days as int,
            date.0,
            date.1,
            date.2,
            chosen.0,
            chosen.1,
            chosen.2,
        );
    }
    (year as i32, m, d, hour, minute, second)
}

} // verus!
