//! What logs and written addresses are for, stated over what calls take and give.

use crate::calendar::civil_from_secs;
use crate::common::ip_literal::ip_literal;
use crate::common::snmp_log::{
    csv_header, csv_line, expand_time_at, lines_to_append, rust_obs_line, rust_obs_path, RustObs,
};
use vstd::prelude::*;

verus! {

/// A number in digits, two at least.
pub open spec fn two(n: u32) -> Seq<char> {
    crate::text::padded(n as nat, 2)
}

proof fn lemma_replaced_joins(s: Seq<char>, t: Seq<char>, a: char, b: char, by: Seq<char>)
    requires
        s.len() == 0 || s.last() != a,
    ensures
        crate::text::replaced(s + t, a, b, by) == crate::text::replaced(s, a, b, by)
            + crate::text::replaced(t, a, b, by),
    decreases s.len(),
{
    let st = s + t;
    let rt = crate::text::replaced(t, a, b, by);
    if s.len() == 0 {
        assert(st =~= t);
        assert(s + rt =~= rt);
    } else if s.len() == 1 {
        assert(st.skip(1) =~= t);
        assert(s =~= seq![s[0]]);
        if st.len() < 2 {
            assert(t =~= Seq::<char>::empty());
            assert(st =~= s + t);
        }
    } else if s[0] == a && s[1] == b {
        assert(st.skip(2) =~= s.skip(2) + t);
        lemma_replaced_joins(s.skip(2), t, a, b, by);
        let r = crate::text::replaced(s.skip(2), a, b, by);
        assert(by + (r + rt) =~= (by + r) + rt);
    } else {
        assert(st.skip(1) =~= s.skip(1) + t);
        lemma_replaced_joins(s.skip(1), t, a, b, by);
        let r = crate::text::replaced(s.skip(1), a, b, by);
        assert(seq![s[0]] + (r + rt) =~= (seq![s[0]] + r) + rt);
    }
}

proof fn lemma_replaced_ends(s: Seq<char>, a: char, b: char, by: Seq<char>)
    requires
        s.len() == 0 || s.last() != a,
        by.len() > 0,
        by.last() != a,
    ensures
        ({
            let r = crate::text::replaced(s, a, b, by);
            r.len() == 0 || r.last() != a
        }),
    decreases s.len(),
{
    let r = crate::text::replaced(s, a, b, by);
    if s.len() >= 2 {
        if s[0] == a && s[1] == b {
            lemma_replaced_ends(s.skip(2), a, b, by);
            let t = crate::text::replaced(s.skip(2), a, b, by);
            if t.len() > 0 {
                assert(r.last() == t.last());
            } else {
                assert(r.last() == by.last());
            }
        } else {
            lemma_replaced_ends(s.skip(1), a, b, by);
            let t = crate::text::replaced(s.skip(1), a, b, by);
            lemma_replaced_is_text(s.skip(1), a, b, by);
            assert(r.last() == t.last());
        }
    }
}

proof fn lemma_replaced_is_text(s: Seq<char>, a: char, b: char, by: Seq<char>)
    requires
        by.len() > 0,
    ensures
        s.len() > 0 ==> crate::text::replaced(s, a, b, by).len() > 0,
{
}

proof fn lemma_signed_padded(n: int)
    ensures
        crate::text::signed_padded(n, 4).len() > 0,
        crate::text::signed_padded(n, 4).last() != '%',
        !crate::text::signed_padded(n, 4).contains('%'),
{
    if n >= 0 {
        crate::text::lemma_padded_is_digits(n as nat, 4);
    } else {
        crate::text::lemma_padded_is_digits((-n) as nat, 3);
    }
}

proof fn lemma_two(n: nat)
    ensures
        crate::text::padded(n, 2).len() > 0,
        crate::text::padded(n, 2).last() != '%',
        !crate::text::padded(n, 2).contains('%'),
{
    crate::text::lemma_padded_is_digits(n, 2);
}

/// A path is expanded piece by piece, where no piece ends within a mark: the
/// expansion of two pieces is that of the one and that of the other.
pub proof fn law_path_is_expanded_piece_by_piece(
    path: &str,
    first: &str,
    second: &str,
    secs: u64,
    whole: String,
    a: String,
    b: String,
)
    requires
        path@ == first@ + second@,
        first@.len() == 0 || first@.last() != '%',
        call_ensures(expand_time_at, (path, secs), whole),
        call_ensures(expand_time_at, (first, secs), a),
        call_ensures(expand_time_at, (second, secs), b),
    ensures
        whole@ == a@ + b@,
{
    let date = crate::calendar::date_of((secs / 86400) as int);
    let time = secs % 86400;
    let y = crate::text::signed_padded((date.0 as i32) as int, 4);
    let m = crate::text::padded(date.1 as nat, 2);
    let d = crate::text::padded(date.2 as nat, 2);
    let hh = crate::text::padded((time / 3600) as nat, 2);
    let mm = crate::text::padded((time % 3600 / 60) as nat, 2);
    let ss = crate::text::padded((time % 60) as nat, 2);
    lemma_signed_padded((date.0 as i32) as int);
    lemma_two(date.1 as nat);
    lemma_two(date.2 as nat);
    lemma_two((time / 3600) as nat);
    lemma_two((time % 3600 / 60) as nat);
    lemma_two((time % 60) as nat);
    lemma_step(first@, second@, 'Y', y);
    let f1 = crate::text::replaced(first@, '%', 'Y', y);
    let s1 = crate::text::replaced(second@, '%', 'Y', y);
    lemma_step(f1, s1, 'm', m);
    let f2 = crate::text::replaced(f1, '%', 'm', m);
    let s2 = crate::text::replaced(s1, '%', 'm', m);
    lemma_step(f2, s2, 'd', d);
    let f3 = crate::text::replaced(f2, '%', 'd', d);
    let s3 = crate::text::replaced(s2, '%', 'd', d);
    lemma_step(f3, s3, 'H', hh);
    let f4 = crate::text::replaced(f3, '%', 'H', hh);
    let s4 = crate::text::replaced(s3, '%', 'H', hh);
    lemma_step(f4, s4, 'M', mm);
    let f5 = crate::text::replaced(f4, '%', 'M', mm);
    let s5 = crate::text::replaced(s4, '%', 'M', mm);
    lemma_step(f5, s5, 'S', ss);
}

proof fn lemma_step(s: Seq<char>, t: Seq<char>, b: char, by: Seq<char>)
    requires
        s.len() == 0 || s.last() != '%',
        by.len() > 0,
        by.last() != '%',
    ensures
        crate::text::replaced(s + t, '%', b, by) == crate::text::replaced(s, '%', b, by)
            + crate::text::replaced(t, '%', b, by),
        ({
            let r = crate::text::replaced(s, '%', b, by);
            r.len() == 0 || r.last() != '%'
        }),
{
    lemma_replaced_joins(s, t, '%', b, by);
    lemma_replaced_ends(s, '%', b, by);
}

proof fn lemma_kept(s: Seq<char>, b: char, by: Seq<char>)
    requires
        !s.contains('%'),
    ensures
        crate::text::replaced(s, '%', b, by) == s,
    decreases s.len(),
{
    if s.len() >= 2 {
        assert(s.contains(s[0]));
        assert forall|i: int| 0 <= i < s.len() - 1 implies s.skip(1)[i] != '%' by {
            assert(s.contains(s[i + 1]));
        }
        lemma_kept(s.skip(1), b, by);
        assert(seq![s[0]] + s.skip(1) =~= s);
    }
}

proof fn lemma_mark(c: char, b: char, by: Seq<char>)
    requires
        c != '%',
    ensures
        c == b ==> crate::text::replaced(seq!['%', c], '%', b, by) == by,
        c != b ==> crate::text::replaced(seq!['%', c], '%', b, by) == seq!['%', c],
{
    let s = seq!['%', c];
    reveal_with_fuel(crate::text::replaced, 2);
    assert(s.skip(2) =~= Seq::<char>::empty());
    assert(by + Seq::<char>::empty() =~= by);
    assert(seq![s[0]] + s.skip(1) =~= s);
}

/// Text without a percent sign stays. Each mark by itself becomes its part of the
/// date or of the time, UTC, in two digits, and the year in four.
pub proof fn law_marks_stand_for_the_time(
    path: &str,
    secs: u64,
    r: String,
    t: (i32, u32, u32, u32, u32, u32),
)
    requires
        call_ensures(expand_time_at, (path, secs), r),
        call_ensures(civil_from_secs, (secs,), t),
    ensures
        !path@.contains('%') ==> r@ == path@,
        path@ == seq!['%', 'Y'] && t.0 >= 0 ==> r@ == crate::text::padded(t.0 as nat, 4),
        path@ == seq!['%', 'm'] ==> r@ == two(t.1),
        path@ == seq!['%', 'd'] ==> r@ == two(t.2),
        path@ == seq!['%', 'H'] ==> r@ == two(t.3),
        path@ == seq!['%', 'M'] ==> r@ == two(t.4),
        path@ == seq!['%', 'S'] ==> r@ == two(t.5),
{
    let p = path@;
    let date = crate::calendar::date_of((secs / 86400) as int);
    let time = secs % 86400;
    assert(t.3 == time / 3600 && t.4 == time % 3600 / 60 && t.5 == time % 60);
    let y = crate::text::signed_padded((date.0 as i32) as int, 4);
    let m = two(t.1);
    let d = two(t.2);
    let hh = two(t.3);
    let mm = two(t.4);
    let ss = two(t.5);
    lemma_signed_padded((date.0 as i32) as int);
    lemma_two(t.1 as nat);
    lemma_two(t.2 as nat);
    lemma_two(t.3 as nat);
    lemma_two(t.4 as nat);
    lemma_two(t.5 as nat);
    if !p.contains('%') {
        lemma_all_kept(p, y, m, d, hh, mm, ss);
    } else if p == seq!['%', 'Y'] {
        lemma_mark('Y', 'Y', y);
        lemma_all_kept(y, y, m, d, hh, mm, ss);
    } else if p == seq!['%', 'm'] {
        lemma_mark('m', 'Y', y);
        lemma_mark('m', 'm', m);
        lemma_all_kept(m, y, m, d, hh, mm, ss);
    } else if p == seq!['%', 'd'] {
        lemma_mark('d', 'Y', y);
        lemma_mark('d', 'm', m);
        lemma_mark('d', 'd', d);
        lemma_all_kept(d, y, m, d, hh, mm, ss);
    } else if p == seq!['%', 'H'] {
        lemma_mark('H', 'Y', y);
        lemma_mark('H', 'm', m);
        lemma_mark('H', 'd', d);
        lemma_mark('H', 'H', hh);
        lemma_all_kept(hh, y, m, d, hh, mm, ss);
    } else if p == seq!['%', 'M'] {
        lemma_mark('M', 'Y', y);
        lemma_mark('M', 'm', m);
        lemma_mark('M', 'd', d);
        lemma_mark('M', 'H', hh);
        lemma_mark('M', 'M', mm);
        lemma_all_kept(mm, y, m, d, hh, mm, ss);
    } else if p == seq!['%', 'S'] {
        lemma_mark('S', 'Y', y);
        lemma_mark('S', 'm', m);
        lemma_mark('S', 'd', d);
        lemma_mark('S', 'H', hh);
        lemma_mark('S', 'M', mm);
        lemma_mark('S', 'S', ss);
    }
}

proof fn lemma_all_kept(
    s: Seq<char>,
    y: Seq<char>,
    m: Seq<char>,
    d: Seq<char>,
    hh: Seq<char>,
    mm: Seq<char>,
    ss: Seq<char>,
)
    requires
        !s.contains('%'),
    ensures
        crate::text::replaced(s, '%', 'Y', y) == s,
        crate::text::replaced(s, '%', 'm', m) == s,
        crate::text::replaced(s, '%', 'd', d) == s,
        crate::text::replaced(s, '%', 'H', hh) == s,
        crate::text::replaced(s, '%', 'M', mm) == s,
        crate::text::replaced(s, '%', 'S', ss) == s,
{
    lemma_kept(s, 'Y', y);
    lemma_kept(s, 'm', m);
    lemma_kept(s, 'd', d);
    lemma_kept(s, 'H', hh);
    lemma_kept(s, 'M', mm);
    lemma_kept(s, 'S', ss);
}

/// A line of a log: the time, and behind it the values with a comma before each.
pub proof fn law_values_stand_behind_commas(
    ts: u64,
    values: &Vec<String>,
    line: String,
    more: &Vec<String>,
    longer: String,
    v: String,
    header: String,
    longer_header: String,
)
    requires
        call_ensures(csv_line, (ts, values), line),
        call_ensures(csv_line, (ts, more), longer),
        call_ensures(csv_header, (values,), header),
        call_ensures(csv_header, (more,), longer_header),
        more@ == values@.push(v),
    ensures
        values@.len() == 0 ==> line@ == crate::text::decimal(ts as nat) + seq![','] && longer@
            == crate::text::decimal(ts as nat) + seq![','] + v@,
        values@.len() > 0 ==> longer@ == line@ + seq![','] + v@,
        values@.len() == 0 ==> header@ == "timestamp"@ + seq![','],
        values@.len() == 0 ==> longer_header@ == "timestamp"@ + seq![','] + v@,
        values@.len() > 0 ==> longer_header@ == header@ + seq![','] + v@,
{
    let a = crate::text::texts(values@);
    let b = crate::text::texts(more@);
    assert(b =~= a.push(v@));
    assert(b.drop_last() =~= a);
    let t = crate::text::decimal(ts as nat) + seq![','];
    let h = "timestamp"@ + seq![','];
    let j = crate::common::snmp_log::joined(a);
    if a.len() == 0 {
        assert(t + j =~= t);
        assert(h + j =~= h);
    } else {
        assert(t + (j + seq![','] + v@) =~= t + j + seq![','] + v@);
        assert(h + (j + seq![','] + v@) =~= h + j + seq![','] + v@);
    }
}

/// A line of observations holds the time and the seven counters, in this order.
pub proof fn law_observations_stand_in_order(
    ts: u64,
    obs: RustObs,
    line: String,
    csv: &str,
    path: String,
)
    requires
        call_ensures(rust_obs_line, (ts, obs), line),
        call_ensures(rust_obs_path, (csv,), path),
    ensures
        line@ == crate::text::decimal(ts as nat) + seq![','] + crate::text::decimal(
            obs.empty_flush as nat,
        ) + seq![','] + crate::text::decimal(obs.encrypt_inline as nat) + seq![',']
            + crate::text::decimal(obs.encrypt_offload as nat) + seq![','] + crate::text::decimal(
            obs.decrypt_offload_skipped as nat,
        ) + seq![','] + crate::text::decimal(obs.write_inline_sends as nat) + seq![',']
            + crate::text::decimal(obs.write_flush_sends as nat) + seq![','] + crate::text::decimal(
            obs.input_urgent_sends as nat,
        ),
        path@ == csv@ + seq!['.', 'r', 'u', 's', 't', 'o', 'b', 's'],
{
    let f = seq![
        crate::text::decimal(ts as nat),
        crate::text::decimal(obs.empty_flush as nat),
        crate::text::decimal(obs.encrypt_inline as nat),
        crate::text::decimal(obs.encrypt_offload as nat),
        crate::text::decimal(obs.decrypt_offload_skipped as nat),
        crate::text::decimal(obs.write_inline_sends as nat),
        crate::text::decimal(obs.write_flush_sends as nat),
        crate::text::decimal(obs.input_urgent_sends as nat),
    ];
    lemma_joined_step(f, 2);
    lemma_joined_step(f, 3);
    lemma_joined_step(f, 4);
    lemma_joined_step(f, 5);
    lemma_joined_step(f, 6);
    lemma_joined_step(f, 7);
    lemma_joined_step(f, 8);
    assert(f.take(8) =~= f);
    assert(f.take(1)[0] == f[0]);
    assert(crate::common::snmp_log::joined(f.take(1)) == f[0]);
    reveal_strlit(".rustobs");
    assert(".rustobs"@ =~= seq!['.', 'r', 'u', 's', 't', 'o', 'b', 's']);
}

proof fn lemma_joined_step(f: Seq<Seq<char>>, n: int)
    requires
        2 <= n <= f.len(),
    ensures
        crate::common::snmp_log::joined(f.take(n)) == crate::common::snmp_log::joined(f.take(n - 1))
            + seq![','] + f[n - 1],
{
    assert(f.take(n).drop_last() =~= f.take(n - 1));
    assert(f.take(n).last() == f[n - 1]);
}

/// The header goes before the first line of a file, and only there.
pub proof fn law_header_stands_once(
    file_len: u64,
    header: String,
    line: String,
    lines: Vec<String>,
)
    requires
        call_ensures(lines_to_append, (file_len, header, line), lines),
    ensures
        file_len == 0 ==> lines@.len() == 2 && lines@[0]@ == header@ && lines@[1]@ == line@,
        file_len > 0 ==> lines@.len() == 1 && lines@[0]@ == line@,
{
    let t = crate::text::texts(lines@);
    assert(t.len() == lines@.len());
    assert(forall|i: int| 0 <= i < t.len() ==> t[i] == #[trigger] lines@[i]@);
}

/// Pieces with a separator between them.
pub open spec fn written(ps: Seq<Seq<char>>, sep: char) -> Seq<char>
    decreases ps.len(),
{
    if ps.len() == 0 {
        Seq::empty()
    } else if ps.len() == 1 {
        ps[0]
    } else {
        written(ps.drop_last(), sep) + seq![sep] + ps.last()
    }
}

/// None of the pieces holds the separator.
pub open spec fn free_of(ps: Seq<Seq<char>>, sep: char) -> bool {
    forall|i: int| 0 <= i < ps.len() ==> !(#[trigger] ps[i]).contains(sep)
}

proof fn lemma_pieces_grow(t: Seq<char>, p: Seq<char>, sep: char)
    requires
        !p.contains(sep),
    ensures
        ({
            let a = crate::common::ip_literal::pieces(t, sep);
            &&& a.len() > 0
            &&& crate::common::ip_literal::pieces(t + p, sep) == a.drop_last().push(a.last() + p)
        }),
    decreases p.len(), t.len(),
{
    let a = crate::common::ip_literal::pieces(t, sep);
    lemma_some_piece(t, sep);
    if p.len() == 0 {
        assert(t + p =~= t);
        assert(a.last() + p =~= a.last());
        assert(a.drop_last().push(a.last()) =~= a);
    } else {
        let q = p.drop_last();
        assert forall|i: int| 0 <= i < q.len() implies q[i] != sep by {
            assert(p.contains(p[i]));
        }
        lemma_pieces_grow(t, q, sep);
        assert(p.contains(p[p.len() - 1]));
        let tp = t + p;
        assert(tp.drop_last() =~= t + q);
        assert(tp.last() == p.last());
        let b = a.drop_last().push(a.last() + q);
        assert(b.drop_last() =~= a.drop_last());
        assert((a.last() + q).push(p.last()) =~= a.last() + p);
    }
}

proof fn lemma_some_piece(t: Seq<char>, sep: char)
    ensures
        crate::common::ip_literal::pieces(t, sep).len() > 0,
    decreases t.len(),
{
    if t.len() > 0 {
        lemma_some_piece(t.drop_last(), sep);
    }
}

proof fn lemma_pieces_of_written(ps: Seq<Seq<char>>, sep: char)
    requires
        ps.len() > 0,
        free_of(ps, sep),
    ensures
        crate::common::ip_literal::pieces(written(ps, sep), sep) == ps,
    decreases ps.len(),
{
    let none = Seq::<char>::empty();
    if ps.len() == 1 {
        lemma_pieces_grow(none, ps[0], sep);
        assert(none + ps[0] =~= ps[0]);
        assert(crate::common::ip_literal::pieces(none, sep) == seq![none]);
        assert(seq![none].drop_last().push(none + ps[0]) =~= ps);
    } else {
        let front = ps.drop_last();
        assert forall|i: int| 0 <= i < front.len() implies !(#[trigger] front[i]).contains(sep) by {
            assert(!ps[i].contains(sep));
        }
        lemma_pieces_of_written(front, sep);
        let w = written(front, sep);
        let ws = w + seq![sep];
        assert(ws.drop_last() =~= w);
        assert(ws.last() == sep);
        assert(crate::common::ip_literal::pieces(ws, sep) == front.push(none));
        assert(!ps[ps.len() - 1].contains(sep));
        lemma_pieces_grow(ws, ps.last(), sep);
        assert(front.push(none).drop_last() =~= front);
        assert(none + ps.last() =~= ps.last());
        assert(front.push(ps.last()) =~= ps);
    }
}

proof fn lemma_written_of_pieces(t: Seq<char>, sep: char)
    ensures
        ({
            let ps = crate::common::ip_literal::pieces(t, sep);
            &&& ps.len() > 0
            &&& free_of(ps, sep)
            &&& written(ps, sep) == t
        }),
    decreases t.len(),
{
    let ps = crate::common::ip_literal::pieces(t, sep);
    if t.len() == 0 {
        assert(written(ps, sep) =~= t);
    } else {
        let before = crate::common::ip_literal::pieces(t.drop_last(), sep);
        lemma_written_of_pieces(t.drop_last(), sep);
        assert(t.drop_last().push(t.last()) =~= t);
        if t.last() == sep {
            assert(ps.drop_last() =~= before);
            assert(written(before, sep) + seq![sep] + Seq::<char>::empty() =~= t);
            assert forall|i: int| 0 <= i < ps.len() implies !(#[trigger] ps[i]).contains(sep) by {
                if i < before.len() {
                    assert(!before[i].contains(sep));
                }
            }
        } else {
            let last = before.last().push(t.last());
            assert(ps.drop_last() =~= before.drop_last());
            assert forall|i: int| 0 <= i < ps.len() implies !(#[trigger] ps[i]).contains(sep) by {
                assert(!before[i].contains(sep));
                if i == before.len() - 1 {
                    assert forall|k: int| 0 <= k < last.len() implies last[k] != sep by {
                        if k < before.last().len() {
                            assert(before[i].contains(before[i][k]));
                        }
                    }
                }
            }
            if before.len() == 1 {
                assert(written(ps, sep) =~= t);
            } else {
                let w = written(before.drop_last(), sep);
                assert(w + seq![sep] + last =~= (w + seq![sep] + before.last()).push(t.last()));
            }
        }
    }
}

/// A number from 0 to 255 as it is written in an address.
pub open spec fn octet_text(n: u8) -> Seq<char> {
    crate::text::decimal(n as nat)
}

/// Four numbers with dots between them.
pub open spec fn dotted(a: u8, b: u8, c: u8, d: u8) -> Seq<char> {
    octet_text(a) + seq!['.'] + octet_text(b) + seq!['.'] + octet_text(c) + seq!['.'] + octet_text(d)
}

proof fn lemma_octet(n: u8)
    ensures
        crate::common::ip_literal::is_octet(octet_text(n)),
        !octet_text(n).contains('.'),
        octet_text(n).len() > 0,
        '0' <= octet_text(n)[0] <= '9',
{
    let t = octet_text(n);
    crate::common::laws::law_decimal_digits(n as nat);
    crate::common::laws::lemma_decimal_value(n as nat);
    assert forall|i: int| 0 <= i < t.len() implies crate::common::multiport::is_digit(
        #[trigger] t[i],
    ) by {}
    reveal_with_fuel(crate::text::decimal, 4);
    assert(t.len() <= 3);
}

proof fn lemma_octet_is_written(t: Seq<char>)
    requires
        crate::common::ip_literal::is_octet(t),
    ensures
        crate::common::multiport::decimal_value(t) <= 255,
        t == octet_text(crate::common::multiport::decimal_value(t) as u8),
{
    lemma_digits_are_written(t);
}

proof fn lemma_digits_are_written(t: Seq<char>)
    requires
        t.len() > 0,
        forall|i: int| 0 <= i < t.len() ==> crate::common::multiport::is_digit(#[trigger] t[i]),
        t.len() > 1 ==> t[0] != '0',
    ensures
        t == crate::text::decimal(crate::common::multiport::decimal_value(t)),
        t[0] != '0' ==> crate::common::multiport::decimal_value(t) > 0,
    decreases t.len(),
{
    let v = crate::common::multiport::decimal_value(t);
    let front = t.drop_last();
    let last = (t.last() as nat - '0' as nat) as nat;
    assert('0' as nat == 48 && '9' as nat == 57);
    assert(crate::common::multiport::is_digit(t[t.len() - 1]));
    assert((48 + last) as char == t.last());
    if t.len() == 1 {
        reveal_with_fuel(crate::common::multiport::decimal_value, 2);
        assert(front =~= Seq::<char>::empty());
        assert(v == last);
        assert(t =~= seq![t.last()]);
    } else {
        assert forall|i: int| 0 <= i < front.len() implies crate::common::multiport::is_digit(
            #[trigger] front[i],
        ) by {
            assert(front[i] == t[i]);
        }
        lemma_digits_are_written(front);
        let w = crate::common::multiport::decimal_value(front);
        assert(front[0] == t[0]);
        assert(w > 0);
        assert(v == w * 10 + last);
        assert(v / 10 == w && v % 10 == last);
        assert(front.push(t.last()) =~= t);
    }
}

/// The short form is four numbers from 0 to 255 with dots between them, each
/// without zeros before it, and nothing else; whatever does not begin with a
/// bracket is an address only so.
pub proof fn law_short_form_is_four_numbers(
    t: &Vec<char>,
    is_one: bool,
    a: u8,
    b: u8,
    c: u8,
    d: u8,
)
    requires
        call_ensures(ip_literal, (t,), is_one),
    ensures
        t@ == dotted(a, b, c, d) ==> is_one,
        is_one && t@[0] != '[' ==> exists|w: u8, x: u8, y: u8, z: u8|
            t@ == #[trigger] dotted(w, x, y, z),
{
    if t@ == dotted(a, b, c, d) {
        let ps = seq![octet_text(a), octet_text(b), octet_text(c), octet_text(d)];
        lemma_octet(a);
        lemma_octet(b);
        lemma_octet(c);
        lemma_octet(d);
        lemma_written_four(ps, '.');
        assert(t@ == written(ps, '.'));
        lemma_pieces_of_written(ps, '.');
    }
    if is_one && t@[0] != '[' {
        let ps = crate::common::ip_literal::pieces(t@, '.');
        assert(crate::common::ip_literal::is_ipv4(t@));
        lemma_written_of_pieces(t@, '.');
        lemma_written_four(ps, '.');
        lemma_octet_is_written(ps[0]);
        lemma_octet_is_written(ps[1]);
        lemma_octet_is_written(ps[2]);
        lemma_octet_is_written(ps[3]);
        let w = crate::common::multiport::decimal_value(ps[0]) as u8;
        let x = crate::common::multiport::decimal_value(ps[1]) as u8;
        let y = crate::common::multiport::decimal_value(ps[2]) as u8;
        let z = crate::common::multiport::decimal_value(ps[3]) as u8;
        assert(t@ == dotted(w, x, y, z));
    }
}

proof fn lemma_written_four(ps: Seq<Seq<char>>, sep: char)
    requires
        ps.len() == 4,
    ensures
        written(ps, sep) == ps[0] + seq![sep] + ps[1] + seq![sep] + ps[2] + seq![sep] + ps[3],
{
    reveal_with_fuel(written, 4);
    assert(ps.drop_last().drop_last().drop_last()[0] == ps[0]);
    assert(ps.drop_last().drop_last().last() == ps[1]);
    assert(ps.drop_last().last() == ps[2]);
}

/// One to four hexadecimal digits.
pub open spec fn hex_group(g: Seq<char>) -> bool {
    1 <= g.len() <= 4 && forall|i: int|
        0 <= i < g.len() ==> ('0' <= #[trigger] g[i] <= '9' || 'a' <= g[i] <= 'f' || 'A' <= g[i]
            <= 'F')
}

/// All of these are groups.
pub open spec fn hex_groups(gs: Seq<Seq<char>>) -> bool {
    forall|i: int| 0 <= i < gs.len() ==> hex_group(#[trigger] gs[i])
}

proof fn lemma_groups(gs: Seq<Seq<char>>, ends_short: bool)
    requires
        hex_groups(gs),
    ensures
        crate::common::ip_literal::groups(written(gs, ':'), ends_short) == Some(gs.len()),
        gs.len() > 0 ==> written(gs, ':').len() > 0,
        free_of(gs, ':'),
{
    assert forall|i: int| 0 <= i < gs.len() implies !(#[trigger] gs[i]).contains(':')
        && crate::common::ip_literal::is_group(gs[i]) by {
        assert(hex_group(gs[i]));
        let g = gs[i];
        assert forall|k: int| 0 <= k < g.len() implies g[k] != ':' && crate::common::ip_literal::is_hex(
            g[k],
        ) by {
            assert('0' <= g[k] <= '9' || 'a' <= g[k] <= 'f' || 'A' <= g[k] <= 'F');
        }
    }
    if gs.len() > 0 {
        lemma_pieces_of_written(gs, ':');
        lemma_written_ends(gs);
    }
}

proof fn lemma_written_ends(gs: Seq<Seq<char>>)
    requires
        gs.len() > 0,
        hex_groups(gs),
    ensures
        ({
            let t = written(gs, ':');
            &&& t.len() > 0
            &&& t[0] != ':'
            &&& t.last() != ':'
            &&& forall|i: int| 0 <= i < t.len() - 1 && #[trigger] t[i] == ':' ==> t[i + 1] != ':'
            &&& !t.contains('%')
        }),
    decreases gs.len(),
{
    let t = written(gs, ':');
    let last = gs.last();
    assert(hex_group(gs[gs.len() - 1]));
    assert(forall|k: int| 0 <= k < last.len() ==> #[trigger] last[k] != ':' && last[k] != '%');
    if gs.len() == 1 {
        assert(t == last);
    } else {
        let front = gs.drop_last();
        assert forall|i: int| 0 <= i < front.len() implies hex_group(#[trigger] front[i]) by {
            assert(hex_group(gs[i]));
        }
        lemma_written_ends(front);
        let w = written(front, ':');
        assert(t == w + seq![':'] + last);
        assert forall|i: int| 0 <= i < t.len() - 1 && #[trigger] t[i] == ':' implies t[i + 1]
            != ':' by {
            if i < w.len() - 1 {
                assert(w[i] == ':');
                assert(t[i + 1] == w[i + 1]);
            } else if i == w.len() - 1 {
                assert(t[i] == w.last());
            } else if i == w.len() {
                assert(t[i + 1] == last[0]);
            } else {
                assert(t[i] == last[i - w.len() - 1]);
            }
        }
        assert forall|i: int| 0 <= i < t.len() implies t[i] != '%' by {
            if i < w.len() {
                assert(w.contains(w[i]));
            } else if i > w.len() {
                assert(t[i] == last[i - w.len() - 1]);
            }
        }
    }
}

proof fn lemma_no_double_colon(t: Seq<char>, i: int)
    requires
        0 <= i,
        forall|k: int| 0 <= k < t.len() - 1 && #[trigger] t[k] == ':' ==> t[k + 1] != ':',
    ensures
        crate::common::ip_literal::double_colon(t, i) is None,
    decreases t.len() - i,
{
    if i + 1 < t.len() {
        lemma_no_double_colon(t, i + 1);
    }
}

proof fn lemma_double_colon_at(t: Seq<char>, i: int, j: int)
    requires
        0 <= i <= j,
        j + 1 < t.len(),
        t[j] == ':',
        t[j + 1] == ':',
        forall|k: int| i <= k < j && #[trigger] t[k] == ':' ==> t[k + 1] != ':',
    ensures
        crate::common::ip_literal::double_colon(t, i) == Some(j),
    decreases j - i,
{
    if i < j {
        lemma_double_colon_at(t, i + 1, j);
    }
}

proof fn lemma_one_piece(t: Seq<char>, sep: char)
    requires
        !t.contains(sep),
    ensures
        crate::common::ip_literal::pieces(t, sep) == seq![t],
{
    assert(written(seq![t], sep) == t);
    lemma_pieces_of_written(seq![t], sep);
}

proof fn lemma_bracketed(t: Seq<char>)
    ensures
        ({
            let b = seq!['['] + t + seq![']'];
            &&& b.len() >= 2
            &&& b[0] == '['
            &&& b.last() == ']'
            &&& b.subrange(1, b.len() - 1) == t
            &&& !crate::common::ip_literal::is_ipv4(b)
        }),
{
    let b = seq!['['] + t + seq![']'];
    assert(b.subrange(1, b.len() - 1) =~= t);
    if crate::common::ip_literal::is_ipv4(b) {
        let ps = crate::common::ip_literal::pieces(b, '.');
        lemma_written_of_pieces(b, '.');
        lemma_written_four(ps, '.');
        let p = ps[0];
        assert(crate::common::ip_literal::is_octet(p));
        assert(p.len() > 0);
        assert(b[0] == p[0]);
        assert(crate::common::multiport::is_digit(p[0]));
    }
}

/// The long form in full is eight groups of hexadecimal digits with colons
/// between them, in brackets; more or fewer are no address.
pub proof fn law_long_form_is_eight_groups(t: &Vec<char>, is_one: bool, gs: Seq<Seq<char>>)
    requires
        call_ensures(ip_literal, (t,), is_one),
        hex_groups(gs),
        gs.len() > 0,
        t@ == seq!['['] + written(gs, ':') + seq![']'],
    ensures
        is_one == (gs.len() == 8),
{
    let w = written(gs, ':');
    lemma_bracketed(w);
    lemma_written_ends(gs);
    lemma_one_piece(w, '%');
    lemma_no_double_colon(w, 0);
    lemma_groups(gs, true);
}

/// Two colons side by side stand for the groups that are left out, one at least:
/// no more than seven may be written.
#[verifier::spinoff_prover]
#[verifier::rlimit(40)]
pub proof fn law_left_out_groups_make_up_eight(
    t: &Vec<char>,
    is_one: bool,
    before: Seq<Seq<char>>,
    after: Seq<Seq<char>>,
)
    requires
        call_ensures(ip_literal, (t,), is_one),
        hex_groups(before),
        hex_groups(after),
        t@ == seq!['['] + (written(before, ':') + seq![':', ':'] + written(after, ':')) + seq![']'],
    ensures
        is_one == (before.len() + after.len() <= 7),
{
    let b = written(before, ':');
    let a = written(after, ':');
    let w = b + seq![':', ':'] + a;
    lemma_bracketed(w);
    if before.len() > 0 {
        lemma_written_ends(before);
    }
    if after.len() > 0 {
        lemma_written_ends(after);
    }
    lemma_groups(before, false);
    lemma_groups(after, true);
    let n = b.len() as int;
    assert forall|k: int| 0 <= k < n && #[trigger] w[k] == ':' implies w[k + 1] != ':' by {
        assert(b[k] == ':');
        if k == n - 1 {
            assert(b.last() == ':');
        } else {
            assert(w[k + 1] == b[k + 1]);
        }
    }
    lemma_double_colon_at(w, 0, n);
    assert(w.take(n) =~= b);
    assert(w.skip(n + 2) =~= a);
    assert forall|k: int| 0 <= k < w.len() implies w[k] != '%' by {
        if k < n {
            assert(b.contains(b[k]));
        } else if k >= n + 2 {
            assert(a.contains(a[k - n - 2]));
        }
    }
    lemma_one_piece(w, '%');
}

/// A scope is a number behind a percent sign; without brackets, or with nothing
/// in them, there is no long form.
pub proof fn law_scopes_are_numbers(
    t: &Vec<char>,
    is_one: bool,
    u: &Vec<char>,
    plain: bool,
    inner: Seq<char>,
    n: u32,
)
    requires
        call_ensures(ip_literal, (t,), is_one),
        call_ensures(ip_literal, (u,), plain),
        !inner.contains('%'),
        u@ == seq!['['] + inner + seq![']'],
        t@ == seq!['['] + (inner + seq!['%'] + crate::text::decimal(n as nat)) + seq![']'],
    ensures
        is_one == plain,
        inner.len() == 0 ==> !plain,
{
    let s = crate::text::decimal(n as nat);
    let w = inner + seq!['%'] + s;
    lemma_bracketed(inner);
    lemma_bracketed(w);
    lemma_one_piece(inner, '%');
    crate::common::laws::law_decimal_digits(n as nat);
    crate::common::laws::lemma_decimal_value(n as nat);
    assert forall|i: int| 0 <= i < s.len() implies crate::common::multiport::is_digit(
        #[trigger] s[i],
    ) && s[i] != '%' by {}
    let ps = seq![inner, s];
    assert(free_of(ps, '%'));
    reveal_with_fuel(written, 2);
    assert(ps.drop_last() =~= seq![inner]);
    assert(written(ps, '%') == w);
    lemma_pieces_of_written(ps, '%');
    if inner.len() == 0 {
        lemma_no_double_colon(inner, 0);
    }
}

proof fn lemma_dotted(a: u8, b: u8, c: u8, d: u8)
    ensures
        crate::common::ip_literal::is_ipv4(dotted(a, b, c, d)),
        dotted(a, b, c, d).contains('.'),
        dotted(a, b, c, d).len() > 0,
        forall|i: int|
            0 <= i < dotted(a, b, c, d).len() ==> (#[trigger] dotted(a, b, c, d)[i] == '.' || '0'
                <= dotted(a, b, c, d)[i] <= '9'),
{
    let ps = seq![octet_text(a), octet_text(b), octet_text(c), octet_text(d)];
    lemma_octet(a);
    lemma_octet(b);
    lemma_octet(c);
    lemma_octet(d);
    crate::common::laws::law_decimal_digits(a as nat);
    crate::common::laws::law_decimal_digits(b as nat);
    crate::common::laws::law_decimal_digits(c as nat);
    crate::common::laws::law_decimal_digits(d as nat);
    lemma_written_four(ps, '.');
    assert(dotted(a, b, c, d) == written(ps, '.'));
    lemma_pieces_of_written(ps, '.');
    assert(dotted(a, b, c, d)[octet_text(a).len() as int] == '.');
}

proof fn lemma_groups_and_dotted(gs: Seq<Seq<char>>, t: Seq<char>)
    requires
        hex_groups(gs),
        crate::common::ip_literal::is_ipv4(t),
        t.contains('.'),
        !t.contains(':'),
        t.len() > 0,
    ensures
        crate::common::ip_literal::groups(written(gs.push(t), ':'), true) == Some(gs.len() + 2),
{
    let ps = gs.push(t);
    lemma_groups(gs, true);
    assert(free_of(ps, ':')) by {
        assert forall|i: int| 0 <= i < ps.len() implies !(#[trigger] ps[i]).contains(':') by {
            if i < gs.len() {
                assert(!gs[i].contains(':'));
            }
        }
    }
    lemma_pieces_of_written(ps, ':');
    assert(ps.drop_last() =~= gs);
    assert(ps.last() == t);
    let k = choose|k: int| 0 <= k < t.len() && t[k] == '.';
    assert(!crate::common::ip_literal::is_hex(t[k]));
    assert(!crate::common::ip_literal::is_group(t));
    assert(!crate::common::ip_literal::all_groups(ps)) by {
        assert(ps[gs.len() as int] == t);
    }
    assert(crate::common::ip_literal::all_groups(gs)) by {
        assert forall|i: int| 0 <= i < gs.len() implies crate::common::ip_literal::is_group(
            #[trigger] gs[i],
        ) by {
            assert(hex_group(gs[i]));
            let g = gs[i];
            assert forall|j: int| 0 <= j < g.len() implies crate::common::ip_literal::is_hex(
                #[trigger] g[j],
            ) by {
                assert('0' <= g[j] <= '9' || 'a' <= g[j] <= 'f' || 'A' <= g[j] <= 'F');
            }
        }
    }
    assert(written(ps, ':').len() > 0);
}

/// The last two groups may be written in the short form: six groups and four
/// numbers are an address, and so are fewer with two colons side by side.
#[verifier::spinoff_prover]
#[verifier::rlimit(40)]
pub proof fn law_short_form_ends_the_long_one(
    t: &Vec<char>,
    is_one: bool,
    gs: Seq<Seq<char>>,
    a: u8,
    b: u8,
    c: u8,
    d: u8,
)
    requires
        call_ensures(ip_literal, (t,), is_one),
        hex_groups(gs),
        gs.len() > 0,
    ensures
        t@ == seq!['['] + (written(gs, ':') + seq![':'] + dotted(a, b, c, d)) + seq![']']
            ==> is_one == (gs.len() == 6),
        t@ == seq!['['] + (written(gs, ':') + seq![':', ':'] + dotted(a, b, c, d)) + seq![']']
            ==> is_one == (gs.len() <= 5),
{
    let q = dotted(a, b, c, d);
    let w = written(gs, ':');
    lemma_dotted(a, b, c, d);
    lemma_written_ends(gs);
    assert forall|i: int| 0 <= i < q.len() implies q[i] != ':' && q[i] != '%' by {}
    let n = w.len() as int;
    let one = w + seq![':'] + q;
    let two = w + seq![':', ':'] + q;
    if t@ == seq!['['] + one + seq![']'] {
        lemma_bracketed(one);
        assert(gs.push(q).drop_last() =~= gs);
        assert(written(gs.push(q), ':') == one);
        lemma_groups_and_dotted(gs, q);
        assert forall|k: int| 0 <= k < one.len() - 1 && #[trigger] one[k] == ':' implies one[k + 1]
            != ':' by {
            if k < n - 1 {
                assert(w[k] == ':');
                assert(one[k + 1] == w[k + 1]);
            } else if k == n - 1 {
                assert(one[k] == w.last());
            } else if k == n {
                assert(one[k + 1] == q[0]);
            } else {
                assert(one[k] == q[k - n - 1]);
            }
        }
        lemma_no_double_colon(one, 0);
        assert forall|k: int| 0 <= k < one.len() implies one[k] != '%' by {
            if k < n {
                assert(w.contains(w[k]));
            } else if k > n {
                assert(one[k] == q[k - n - 1]);
            }
        }
        lemma_one_piece(one, '%');
    }
    if t@ == seq!['['] + two + seq![']'] {
        lemma_bracketed(two);
        lemma_groups(gs, false);
        let none = Seq::<Seq<char>>::empty();
        lemma_groups_and_dotted(none, q);
        assert(none.push(q) =~= seq![q]);
        assert(written(seq![q], ':') == q);
        assert forall|k: int| 0 <= k < n && #[trigger] two[k] == ':' implies two[k + 1] != ':' by {
            assert(w[k] == ':');
            if k == n - 1 {
                assert(w.last() == ':');
            } else {
                assert(two[k + 1] == w[k + 1]);
            }
        }
        lemma_double_colon_at(two, 0, n);
        assert(two.take(n) =~= w);
        assert(two.skip(n + 2) =~= q);
        assert forall|k: int| 0 <= k < two.len() implies two[k] != '%' by {
            if k < n {
                assert(w.contains(w[k]));
            } else if k >= n + 2 {
                assert(two[k] == q[k - n - 2]);
            }
        }
        lemma_one_piece(two, '%');
    }
}

proof fn lemma_groups_written(t: Seq<char>, ends_short: bool)
    requires
        crate::common::ip_literal::groups(t, ends_short) is Some,
        !t.contains('.'),
    ensures
        exists|gs: Seq<Seq<char>>|
            #![trigger written(gs, ':')]
            hex_groups(gs) && t == written(gs, ':') && gs.len()
                == crate::common::ip_literal::groups(t, ends_short)->0,
{
    let ps = crate::common::ip_literal::pieces(t, ':');
    let none = Seq::<Seq<char>>::empty();
    lemma_written_of_pieces(t, ':');
    if t.len() == 0 {
        assert(written(none, ':') =~= t);
        assert(hex_groups(none));
    } else if crate::common::ip_literal::all_groups(ps) {
        assert forall|i: int| 0 <= i < ps.len() implies hex_group(#[trigger] ps[i]) by {
            assert(crate::common::ip_literal::is_group(ps[i]));
            let g = ps[i];
            assert forall|j: int| 0 <= j < g.len() implies ('0' <= #[trigger] g[j] <= '9' || 'a'
                <= g[j] <= 'f' || 'A' <= g[j] <= 'F') by {
                assert(crate::common::ip_literal::is_hex(g[j]));
            }
        }
        assert(hex_groups(ps));
        assert(written(ps, ':') == t);
    } else {
        let q = ps.last();
        assert(crate::common::ip_literal::is_ipv4(q));
        let os = crate::common::ip_literal::pieces(q, '.');
        lemma_written_of_pieces(q, '.');
        lemma_written_four(os, '.');
        let k = os[0].len() as int;
        assert(q[k] == '.');
        if ps.len() == 1 {
            assert(t == q);
            assert(t[k] == '.');
        } else {
            let w = written(ps.drop_last(), ':');
            assert(t == w + seq![':'] + q);
            assert(t[w.len() + 1 + k] == '.');
        }
    }
}

/// What is accepted in brackets, without a scope and without dots, is eight groups
/// of one to four hexadecimal digits, or fewer around two colons; nothing else is.
pub proof fn law_long_form_is_nothing_else(t: &Vec<char>, is_one: bool, inner: Seq<char>)
    requires
        call_ensures(ip_literal, (t,), is_one),
        is_one,
        t@ == seq!['['] + inner + seq![']'],
        !inner.contains('%'),
        !inner.contains('.'),
    ensures
        (exists|gs: Seq<Seq<char>>|
            #![trigger written(gs, ':')]
            hex_groups(gs) && gs.len() == 8 && inner == written(gs, ':')) || (exists|
            before: Seq<Seq<char>>,
            after: Seq<Seq<char>>,
        |
            #![trigger written(before, ':'), written(after, ':')]
            hex_groups(before) && hex_groups(after) && before.len() + after.len() <= 7 && inner
                == written(before, ':') + seq![':', ':'] + written(after, ':')),
{
    lemma_bracketed(inner);
    lemma_one_piece(inner, '%');
    assert(crate::common::ip_literal::is_ipv6(inner));
    match crate::common::ip_literal::double_colon(inner, 0) {
        None => {
            lemma_groups_written(inner, true);
        },
        Some(i) => {
            lemma_double_colon_is(inner, 0);
            let a = inner.take(i);
            let b = inner.skip(i + 2);
            assert forall|k: int| 0 <= k < a.len() implies a[k] != '.' by {
                assert(inner.contains(inner[k]));
            }
            assert forall|k: int| 0 <= k < b.len() implies b[k] != '.' by {
                assert(inner.contains(inner[i + 2 + k]));
            }
            lemma_groups_written(a, false);
            lemma_groups_written(b, true);
            let before = choose|gs: Seq<Seq<char>>|
                #![trigger written(gs, ':')]
                hex_groups(gs) && a == written(gs, ':') && gs.len()
                    == crate::common::ip_literal::groups(a, false)->0;
            let after = choose|gs: Seq<Seq<char>>|
                #![trigger written(gs, ':')]
                hex_groups(gs) && b == written(gs, ':') && gs.len()
                    == crate::common::ip_literal::groups(b, true)->0;
            assert(inner =~= a + seq![':', ':'] + b);
            assert(inner == written(before, ':') + seq![':', ':'] + written(after, ':'));
        },
    }
}

proof fn lemma_double_colon_is(t: Seq<char>, i: int)
    requires
        0 <= i,
    ensures
        crate::common::ip_literal::double_colon(t, i) matches Some(j) ==> i <= j && j + 1 < t.len()
            && t[j] == ':' && t[j + 1] == ':',
    decreases t.len() - i,
{
    if i + 1 < t.len() && !(t[i] == ':' && t[i + 1] == ':') {
        lemma_double_colon_is(t, i + 1);
    }
}

} // verus!
