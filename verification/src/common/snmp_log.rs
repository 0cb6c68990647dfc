//! The statistics log: file names with the time in them, and the lines that
//! are written.

use crate::calendar::civil_from_secs;
use crate::text::{push_decimal, push_padded, push_signed_padded, replace_pair};
use vstd::prelude::*;
use vstd::string::*;

verus! {

/// `path` with the marks `%Y`, `%m`, `%d`, `%H`, `%M` and `%S` replaced by the
/// year (four digits), month, day, hour, minute and second (two digits each)
/// of the time `secs` seconds behind the start of 1970, UTC.
pub open spec fn expanded(path: Seq<char>, secs: u64) -> Seq<char> {
    let date = crate::calendar::date_of((secs / 86400) as int);
    let time = secs % 86400;
    let p1 = crate::text::replaced(
        path,
        '%',
        'Y',
        crate::text::signed_padded((date.0 as i32) as int, 4),
    );
    let p2 = crate::text::replaced(p1, '%', 'm', crate::text::padded(date.1 as nat, 2));
    let p3 = crate::text::replaced(p2, '%', 'd', crate::text::padded(date.2 as nat, 2));
    let p4 = crate::text::replaced(p3, '%', 'H', crate::text::padded((time / 3600) as nat, 2));
    let p5 = crate::text::replaced(
        p4,
        '%',
        'M',
        crate::text::padded((time % 3600 / 60) as nat, 2),
    );
    crate::text::replaced(p5, '%', 'S', crate::text::padded((time % 60) as nat, 2))
}

fn two_digits(n: u32) -> (s: String)
    ensures
        s@ == crate::text::padded(n as nat, 2),
{
    let mut s: String = String::new();
    push_padded(&mut s, n as u64, 2);
    assert(s@ =~= crate::text::padded(n as nat, 2));
    s
}

/// Puts the time `secs` seconds behind the start of 1970 into a path.
pub fn expand_time_at(path: &str, secs: u64) -> (r: String)
    ensures
        r@ == expanded(path@, secs),
{
    let (year, month, day, hour, minute, second) = civil_from_secs(secs);
    let mut y: String = String::new();
    push_signed_padded(&mut y, year, 4);
    assert(y@ =~= crate::text::signed_padded(year as int, 4));
    assert(hour == secs % 86400 / 3600 && minute == secs % 86400 % 3600 / 60 && second == secs
        % 86400 % 60);
    let p1 = replace_pair(path, '%', 'Y', y.as_str());
    let p2 = replace_pair(p1.as_str(), '%', 'm', two_digits(month).as_str());
    let p3 = replace_pair(p2.as_str(), '%', 'd', two_digits(day).as_str());
    let p4 = replace_pair(p3.as_str(), '%', 'H', two_digits(hour).as_str());
    let p5 = replace_pair(p4.as_str(), '%', 'M', two_digits(minute).as_str());
    replace_pair(p5.as_str(), '%', 'S', two_digits(second).as_str())
}

/// Calls `SystemTime::elapsed` on the start of 1970 for the seconds since then;
/// 0 where the clock stands before it. Nothing is known of the result.
#[verifier::external_body]
fn unix_now() -> (secs: u64) {
    std::time::SystemTime::UNIX_EPOCH.elapsed().unwrap_or_default().as_secs()
}

/// Puts the present time, UTC, into a path.
pub fn expand_time_format(path: &str) -> (r: String)
    ensures
        exists|secs: u64| r@ == #[trigger] expanded(path@, secs),
{
    let secs: u64 = unix_now();
    expand_time_at(path, secs)
}

/// One of the marks for the time stands in `s`.
pub open spec fn has_time_mark(s: Seq<char>) -> bool {
    ||| crate::text::has_pair(s, '%', 'Y')
    ||| crate::text::has_pair(s, '%', 'm')
    ||| crate::text::has_pair(s, '%', 'd')
    ||| crate::text::has_pair(s, '%', 'H')
    ||| crate::text::has_pair(s, '%', 'M')
    ||| crate::text::has_pair(s, '%', 'S')
}

/// No mark for the time is left in an expanded path.
pub proof fn law_no_mark_is_left(path: Seq<char>, secs: u64)
    ensures
        !has_time_mark(expanded(path, secs)),
{
    let date = crate::calendar::date_of((secs / 86400) as int);
    let time = secs % 86400;
    let y = crate::text::signed_padded((date.0 as i32) as int, 4);
    let m = crate::text::padded(date.1 as nat, 2);
    let d = crate::text::padded(date.2 as nat, 2);
    let hh = crate::text::padded((time / 3600) as nat, 2);
    let mm = crate::text::padded((time % 3600 / 60) as nat, 2);
    let ss = crate::text::padded((time % 60) as nat, 2);
    crate::text::lemma_padded_is_digits(date.1 as nat, 2);
    crate::text::lemma_padded_is_digits(date.2 as nat, 2);
    crate::text::lemma_padded_is_digits((time / 3600) as nat, 2);
    crate::text::lemma_padded_is_digits((time % 3600 / 60) as nat, 2);
    crate::text::lemma_padded_is_digits((time % 60) as nat, 2);
    let year = (date.0 as i32) as int;
    if year >= 0 {
        crate::text::lemma_padded_is_digits(year as nat, 4);
    } else {
        crate::text::lemma_padded_is_digits((-year) as nat, 3);
    }
    let p1 = crate::text::replaced(path, '%', 'Y', y);
    crate::text::lemma_replaced_has_no_pair(path, '%', 'Y', 'Y', y);
    let p2 = crate::text::replaced(p1, '%', 'm', m);
    crate::text::lemma_replaced_has_no_pair(p1, '%', 'm', 'Y', m);
    crate::text::lemma_replaced_has_no_pair(p1, '%', 'm', 'm', m);
    let p3 = crate::text::replaced(p2, '%', 'd', d);
    crate::text::lemma_replaced_has_no_pair(p2, '%', 'd', 'Y', d);
    crate::text::lemma_replaced_has_no_pair(p2, '%', 'd', 'm', d);
    crate::text::lemma_replaced_has_no_pair(p2, '%', 'd', 'd', d);
    let p4 = crate::text::replaced(p3, '%', 'H', hh);
    crate::text::lemma_replaced_has_no_pair(p3, '%', 'H', 'Y', hh);
    crate::text::lemma_replaced_has_no_pair(p3, '%', 'H', 'm', hh);
    crate::text::lemma_replaced_has_no_pair(p3, '%', 'H', 'd', hh);
    crate::text::lemma_replaced_has_no_pair(p3, '%', 'H', 'H', hh);
    let p5 = crate::text::replaced(p4, '%', 'M', mm);
    crate::text::lemma_replaced_has_no_pair(p4, '%', 'M', 'Y', mm);
    crate::text::lemma_replaced_has_no_pair(p4, '%', 'M', 'm', mm);
    crate::text::lemma_replaced_has_no_pair(p4, '%', 'M', 'd', mm);
    crate::text::lemma_replaced_has_no_pair(p4, '%', 'M', 'H', mm);
    crate::text::lemma_replaced_has_no_pair(p4, '%', 'M', 'M', mm);
    crate::text::lemma_replaced_has_no_pair(p5, '%', 'S', 'Y', ss);
    crate::text::lemma_replaced_has_no_pair(p5, '%', 'S', 'm', ss);
    crate::text::lemma_replaced_has_no_pair(p5, '%', 'S', 'd', ss);
    crate::text::lemma_replaced_has_no_pair(p5, '%', 'S', 'H', ss);
    crate::text::lemma_replaced_has_no_pair(p5, '%', 'S', 'M', ss);
    crate::text::lemma_replaced_has_no_pair(p5, '%', 'S', 'S', ss);
}

/// The file for observations that lies beside a statistics log.
pub fn rust_obs_path(csv_path: &str) -> (r: String)
    ensures
        r@ == csv_path@ + ".rustobs"@,
{
    let mut r: String = String::new();
    r.append(csv_path);
    r.append(".rustobs");
    assert(r@ =~= csv_path@ + ".rustobs"@);
    r
}

/// The first line of the file for observations.
pub fn rust_obs_header() -> (r: String)
    ensures
        r@
            == "timestamp,EmptyFlush,EncryptInline,EncryptOffload,DecryptOffloadSkipped,WriteInlineSends,WriteFlushSends,InputUrgentSends"@,
{
    String::from_str(
        "timestamp,EmptyFlush,EncryptInline,EncryptOffload,DecryptOffloadSkipped,WriteInlineSends,WriteFlushSends,InputUrgentSends",
    )
}

/// The counters that go into the file for observations.
#[derive(Clone, Copy, Debug, PartialEq, Eq, Structural)]
pub struct RustObs {
    pub empty_flush: u64,
    pub encrypt_inline: u64,
    pub encrypt_offload: u64,
    pub decrypt_offload_skipped: u64,
    pub write_inline_sends: u64,
    pub write_flush_sends: u64,
    pub input_urgent_sends: u64,
}

/// Fields with commas between them.
pub open spec fn joined(fields: Seq<Seq<char>>) -> Seq<char>
    decreases fields.len(),
{
    if fields.len() == 0 {
        Seq::empty()
    } else if fields.len() == 1 {
        fields[0]
    } else {
        joined(fields.drop_last()) + seq![','] + fields.last()
    }
}

/// A line of the file for observations, taken at the time `ts`.
pub fn rust_obs_line(ts: u64, obs: RustObs) -> (line: String)
    ensures
        line@ == joined(
            seq![
                crate::text::decimal(ts as nat),
                crate::text::decimal(obs.empty_flush as nat),
                crate::text::decimal(obs.encrypt_inline as nat),
                crate::text::decimal(obs.encrypt_offload as nat),
                crate::text::decimal(obs.decrypt_offload_skipped as nat),
                crate::text::decimal(obs.write_inline_sends as nat),
                crate::text::decimal(obs.write_flush_sends as nat),
                crate::text::decimal(obs.input_urgent_sends as nat),
            ],
        ),
{
    let mut line: String = String::new();
    push_decimal(&mut line, ts);
    let ghost mut fields: Seq<Seq<char>> = seq![crate::text::decimal(ts as nat)];
    assert(line@ =~= joined(fields));
    let values: [u64; 7] = [
        obs.empty_flush,
        obs.encrypt_inline,
        obs.encrypt_offload,
        obs.decrypt_offload_skipped,
        obs.write_inline_sends,
        obs.write_flush_sends,
        obs.input_urgent_sends,
    ];
    let mut i: usize = 0;
    while i < 7
        invariant
            i <= 7,
            fields.len() == i + 1,
            line@ == joined(fields),
            fields[0] == crate::text::decimal(ts as nat),
            forall|k: int| 0 <= k < i ==> fields[k + 1] == crate::text::decimal(
                #[trigger] values@[k] as nat,
            ),
        decreases 7 - i,
    {
        let ghost before = line@;
        line.push(',');
        push_decimal(&mut line, values[i]);
        proof {
            let field = crate::text::decimal(values@[i as int] as nat);
            let more = fields.push(field);
            assert(more.drop_last() =~= fields);
            assert(line@ =~= joined(fields) + seq![','] + field);
            fields = more;
        }
        i = i + 1;
    }
    assert(fields =~= seq![
        crate::text::decimal(ts as nat),
        crate::text::decimal(values@[0] as nat),
        crate::text::decimal(values@[1] as nat),
        crate::text::decimal(values@[2] as nat),
        crate::text::decimal(values@[3] as nat),
        crate::text::decimal(values@[4] as nat),
        crate::text::decimal(values@[5] as nat),
        crate::text::decimal(values@[6] as nat),
    ]);
    line
}

/// A first field and the others behind it, with commas between them. The comma
/// behind the first field stands there even where there are no others.
pub open spec fn first_and_rest(first: Seq<char>, rest: Seq<Seq<char>>) -> Seq<char> {
    first + seq![','] + joined(rest)
}

fn push_joined(out: &mut String, fields: &Vec<String>)
    ensures
        final(out)@ == old(out)@ + joined(crate::text::texts(fields@)),
{
    let ghost all = crate::text::texts(fields@);
    let mut i: usize = 0;
    assert(all.take(0) =~= Seq::<Seq<char>>::empty());
    assert(out@ =~= old(out)@ + joined(all.take(0)));
    while i < fields.len()
        invariant
            i <= fields@.len(),
            all == crate::text::texts(fields@),
            out@ == old(out)@ + joined(all.take(i as int)),
        decreases fields@.len() - i,
    {
        let ghost before = out@;
        if i > 0 {
            out.push(',');
        }
        out.append(fields[i].as_str());
        assert(all.take(i + 1).drop_last() =~= all.take(i as int));
        assert(out@ =~= old(out)@ + joined(all.take(i + 1)));
        i = i + 1;
    }
    assert(all.take(i as int) =~= all);
}

/// The first line of a statistics log.
pub fn csv_header(columns: &Vec<String>) -> (line: String)
    ensures
        line@ == first_and_rest("timestamp"@, crate::text::texts(columns@)),
{
    let mut line: String = String::from_str("timestamp");
    line.push(',');
    push_joined(&mut line, columns);
    assert(line@ =~= first_and_rest("timestamp"@, crate::text::texts(columns@)));
    line
}

/// A line of a statistics log, taken at the time `ts`.
pub fn csv_line(ts: u64, values: &Vec<String>) -> (line: String)
    ensures
        line@ == first_and_rest(crate::text::decimal(ts as nat), crate::text::texts(values@)),
{
    let mut line: String = String::new();
    push_decimal(&mut line, ts);
    line.push(',');
    push_joined(&mut line, values);
    assert(line@ =~= first_and_rest(crate::text::decimal(ts as nat), crate::text::texts(values@)));
    line
}

/// What is appended to a log file of `file_len` bytes: the line, with the
/// header before it where the file is empty.
pub fn lines_to_append(file_len: u64, header: String, line: String) -> (lines: Vec<String>)
    ensures
        file_len == 0 ==> crate::text::texts(lines@) == seq![header@, line@],
        file_len != 0 ==> crate::text::texts(lines@) == seq![line@],
{
    let mut lines: Vec<String> = Vec::new();
    if file_len == 0 {
        lines.push(header);
        lines.push(line);
        assert(crate::text::texts(lines@) =~= seq![header@, line@]);
    } else {
        lines.push(line);
        assert(crate::text::texts(lines@) =~= seq![line@]);
    }
    lines
}

} // verus!
