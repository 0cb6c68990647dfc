//! What a copy in both directions is for, stated over what calls take and give.

use crate::kio::copy::{postwait, Attempt, BidiCopy, BidiState, CopyAction, PassEnd, Stage};
use vstd::prelude::*;

verus! {

/// What was read from a side is what is offered to the other, from its first
/// byte; what that takes is not offered again, and what it leaves is.
pub proof fn law_what_is_read_is_offered(
    c: &mut BidiCopy,
    n: usize,
    offered: &[u8],
    d: &mut BidiCopy,
    k: usize,
    left: &[u8],
)
    requires
        0 < n <= old(c).a_buf().len(),
        call_ensures(BidiCopy::read_a, (c, Attempt::Done(n)), ()),
        call_ensures(BidiCopy::for_b, (&*final(c),), offered),
        *old(d) == *final(c),
        k <= n,
        call_ensures(BidiCopy::wrote_b, (d, Attempt::Done(k)), ()),
        call_ensures(BidiCopy::for_b, (&*final(d),), left),
    ensures
        offered@.len() == n,
        offered@ == old(c).a_buf().take(n as int),
        left@.len() == n - k,
        offered@ == offered@.take(k as int) + left@,
        final(d).ab().written == old(c).ab().written + offered@.take(k as int),
        final(d).ab().read == old(c).ab().read + offered@,
        final(d).ba() == old(c).ba(),
{
    assert(offered@ =~= offered@.take(k as int) + offered@.skip(k as int));
}

/// And the other way.
pub proof fn law_what_is_read_is_offered_back(
    c: &mut BidiCopy,
    n: usize,
    offered: &[u8],
    d: &mut BidiCopy,
    k: usize,
    left: &[u8],
)
    requires
        0 < n <= old(c).b_buf().len(),
        call_ensures(BidiCopy::read_b, (c, Attempt::Done(n)), ()),
        call_ensures(BidiCopy::for_a, (&*final(c),), offered),
        *old(d) == *final(c),
        k <= n,
        call_ensures(BidiCopy::wrote_a, (d, Attempt::Done(k)), ()),
        call_ensures(BidiCopy::for_a, (&*final(d),), left),
    ensures
        offered@.len() == n,
        offered@ == old(c).b_buf().take(n as int),
        left@.len() == n - k,
        offered@ == offered@.take(k as int) + left@,
        final(d).ba().written == old(c).ba().written + offered@.take(k as int),
        final(d).ba().read == old(c).ba().read + offered@,
        final(d).ab() == old(c).ab(),
{
    assert(offered@ =~= offered@.take(k as int) + offered@.skip(k as int));
}

/// A source that gives no bytes has ended; one that is not ready has not; and one
/// that fails has ended and failed the copy.
pub proof fn law_empty_read_is_the_end(c: &mut BidiCopy, r: Attempt, d: &mut BidiCopy)
    requires
        call_ensures(BidiCopy::read_a, (c, r), ()),
        call_ensures(BidiCopy::read_b, (d, r), ()),
    ensures
        r == Attempt::Done(0) ==> final(c).ab().eof && final(d).ba().eof && final(c).ab().pending
            == old(c).ab().pending && final(c).pass().progress && !final(c).pass().flowed == !old(c).pass().flowed && final(c).pass().failed == old(c).pass().failed,
        r == Attempt::NotReady ==> final(c).ab() == old(c).ab() && final(d).ba() == old(d).ba()
            && final(c).pass().progress == old(c).pass().progress && final(c).pass().failed == old(c).pass().failed,
        r == Attempt::Failed ==> final(c).ab().eof && final(c).pass().failed && final(d).ba().eof
            && final(d).pass().failed && final(c).pass().progress && final(d).pass().progress,
        r is Done && r->Done_0 > 0 ==> final(c).pass().flowed && final(d).pass().flowed
            && final(c).pass().progress && final(d).pass().progress && !final(c).ab().eof == !old(c).ab().eof,
        final(c).pass().stage == Stage::WriteA,
        final(d).pass().stage == Stage::Close,
{
}

/// Writing goes on while bytes are taken, and gives way otherwise; a failure ends
/// the direction and fails the copy.
pub proof fn law_writing_goes_on_while_bytes_are_taken(
    c: &mut BidiCopy,
    r: Attempt,
    d: &mut BidiCopy,
)
    requires
        call_ensures(BidiCopy::wrote_b, (c, r), ()),
        call_ensures(BidiCopy::wrote_a, (d, r), ()),
    ensures
        r is Done && r->Done_0 > 0 ==> final(c).pass().stage == old(c).pass().stage
            && final(c).pass().flowed && final(c).pass().progress && final(d).pass().stage == old(d).pass().stage && final(d).pass().flowed && final(d).pass().progress,
        r == Attempt::Done(0) || r == Attempt::NotReady || r == Attempt::Failed
            ==> final(c).pass().stage == Stage::ReadA && final(d).pass().stage == Stage::ReadB
            && final(c).pass().flowed == old(c).pass().flowed,
        r == Attempt::NotReady ==> final(c).ab() == old(c).ab() && final(d).ba() == old(d).ba()
            && final(c).pass().progress == old(c).pass().progress,
        r == Attempt::Failed ==> final(c).pass().failed && final(c).ab().eof && final(d).pass().failed && final(d).ba().eof && final(c).ab().pending == old(c).ab().pending,
        r != Attempt::Failed ==> final(c).pass().failed == old(c).pass().failed
            && final(d).pass().failed == old(d).pass().failed,
{
}

/// In a pass nothing that can be done is left out: first what waits for B is
/// written, else A is read; then what waits for A is written, else B is read;
/// then ended sides are closed. A source that ended, or a copy that failed, is
/// not read.
pub proof fn law_pass_leaves_nothing_out(c: &mut BidiCopy, action: CopyAction)
    requires
        call_ensures(BidiCopy::next, (c,), action),
    ensures
        ({
            let p = old(c).pass();
            let ab = old(c).ab();
            let ba = old(c).ba();
            let read_a = ab.pending.len() == 0 && !ab.eof && !p.failed;
            let read_b = ba.pending.len() == 0 && !ba.eof && !p.failed;
            let second = if ba.pending.len() > 0 {
                action == CopyAction::WriteA
            } else if read_b {
                action == CopyAction::ReadB
            } else {
                action == (CopyAction::Close { b: ab.eof, a: ba.eof })
            };
            &&& p.stage == Stage::WriteB && ab.pending.len() > 0 ==> action == CopyAction::WriteB
            &&& p.stage == Stage::WriteB && read_a ==> action == CopyAction::ReadA
            &&& p.stage == Stage::WriteB && ab.pending.len() == 0 && !read_a ==> second
            &&& p.stage == Stage::ReadA && read_a ==> action == CopyAction::ReadA
            &&& p.stage == Stage::ReadA && !read_a ==> second
            &&& p.stage == Stage::WriteA ==> second
            &&& p.stage == Stage::ReadB && read_b ==> action == CopyAction::ReadB
            &&& p.stage == Stage::ReadB && !read_b ==> action == (CopyAction::Close {
                b: ab.eof,
                a: ba.eof,
            })
            &&& p.stage == Stage::Close ==> action == (CopyAction::Close { b: ab.eof, a: ba.eof })
            &&& action == CopyAction::WriteB ==> final(c).pass().stage == Stage::WriteB
            &&& action == CopyAction::ReadA ==> final(c).pass().stage == Stage::ReadA
            &&& action == CopyAction::WriteA ==> final(c).pass().stage == Stage::WriteA
            &&& action == CopyAction::ReadB ==> final(c).pass().stage == Stage::ReadB
        }),
        final(c).ab() == old(c).ab(),
        final(c).ba() == old(c).ba(),
{
    reveal_with_fuel(crate::kio::copy::action_from, 6);
}

/// A copy ends for being idle just so many seconds after it began or data flowed
/// last, and not before; without an idle time it never does.
pub proof fn law_idle_copy_ends_in_time(
    idle_secs: u64,
    start: u64,
    c: BidiCopy,
    d: &mut BidiCopy,
    now: u64,
    end: PassEnd,
    e: &mut BidiCopy,
    later: u64,
    then: PassEnd,
)
    requires
        call_ensures(BidiCopy::start, (idle_secs, start), c),
        old(d).idle_ns() == c.idle_ns(),
        old(d).pass().flowed,
        call_ensures(BidiCopy::end_pass, (d, now), end),
        old(e).idle_ns() == final(d).idle_ns(),
        old(e).deadline() == final(d).deadline(),
        !old(e).pass().failed,
        !old(e).pass().progress,
        !(old(e).ab().eof && old(e).ba().eof),
        call_ensures(BidiCopy::end_pass, (e, later), then),
    ensures
        c.deadline() - start == 1_000_000_000 * idle_secs,
        idle_secs == 0 ==> then == PassEnd::Wait(None),
        idle_secs > 0 && later >= now + 1_000_000_000 * idle_secs ==> then == PassEnd::Idle,
        idle_secs > 0 && later < now + 1_000_000_000 * idle_secs ==> then is Wait && then->Wait_0
            is Some && then->Wait_0->0 - now == 1_000_000_000 * idle_secs,
        !old(e).pass().flowed ==> final(e).deadline() == old(e).deadline(),
{
    let n = idle_secs as int;
    assert(n * 1_000_000_000 == 1_000_000_000 * n) by (nonlinear_arith);
    assert(n <= u64::MAX);
    assert(now + c.idle_ns() <= u128::MAX);
}

/// How a pass ends: a failure comes first, then the end of both sources; a pass
/// that did something is followed by another.
pub proof fn law_pass_ends(c: &mut BidiCopy, now: u64, end: PassEnd)
    requires
        call_ensures(BidiCopy::end_pass, (c, now), end),
    ensures
        old(c).pass().failed ==> end == PassEnd::Failed,
        !old(c).pass().failed && old(c).ab().eof && old(c).ba().eof ==> end == PassEnd::Finished,
        !old(c).pass().failed && !(old(c).ab().eof && old(c).ba().eof) && old(c).pass().progress
            ==> end == PassEnd::Again,
        end == PassEnd::Idle ==> !old(c).pass().progress && now >= old(c).deadline(),
        final(c).pass().stage == Stage::WriteB && !final(c).pass().progress && !final(c).pass().flowed,
        final(c).pass().failed == old(c).pass().failed,
{
}

/// What a copy tells at its end is how many bytes each side got.
pub proof fn law_result_counts_the_bytes(
    c: BidiCopy,
    r: (u64, u64),
    s: BidiState,
    t: (u64, u64),
    secs: u64,
    wait: Option<u64>,
)
    requires
        call_ensures(BidiCopy::into_result, (c,), r),
        call_ensures(BidiState::into_result, (s,), t),
        call_ensures(postwait, (secs,), wait),
    ensures
        r.0 == c.ab().written.len(),
        r.1 == c.ba().written.len(),
        t.0 == s.ab().written.len(),
        t.1 == s.ba().written.len(),
        secs == 0 ==> wait is None,
        secs > 0 ==> wait == Some(secs),
{
}

/// The state of a copy by itself: bytes that are read wait, in order, until they
/// are written, and each direction leaves the other alone.
pub proof fn law_bytes_wait_until_they_are_written(
    s: &mut BidiState,
    n: usize,
    t: &mut BidiState,
    k: usize,
    size: usize,
    has: bool,
)
    requires
        n <= old(s).a_buf().len(),
        call_ensures(BidiState::set_ab_read, (s, n), ()),
        *old(t) == *final(s),
        k <= n,
        call_ensures(BidiState::advance_ab, (t, k), ()),
        call_ensures(BidiState::pending_ab_size, (&*final(t),), size),
        call_ensures(BidiState::has_pending_ab, (&*final(t),), has),
    ensures
        final(t).ab().written == old(s).ab().written + old(s).a_buf().take(k as int),
        final(t).ab().pending == old(s).a_buf().subrange(k as int, n as int),
        size == n - k,
        has == (k < n),
        final(t).ba() == old(s).ba(),
{
    let b = old(s).a_buf();
    assert(b.take(n as int).take(k as int) =~= b.take(k as int));
    assert(b.take(n as int).skip(k as int) =~= b.subrange(k as int, n as int));
}

/// And the other way.
pub proof fn law_bytes_wait_for_a_until_they_are_written(
    s: &mut BidiState,
    n: usize,
    t: &mut BidiState,
    k: usize,
    size: usize,
    has: bool,
)
    requires
        n <= old(s).b_buf().len(),
        call_ensures(BidiState::set_ba_read, (s, n), ()),
        *old(t) == *final(s),
        k <= n,
        call_ensures(BidiState::advance_ba, (t, k), ()),
        call_ensures(BidiState::pending_ba_size, (&*final(t),), size),
        call_ensures(BidiState::has_pending_ba, (&*final(t),), has),
    ensures
        final(t).ba().written == old(s).ba().written + old(s).b_buf().take(k as int),
        final(t).ba().pending == old(s).b_buf().subrange(k as int, n as int),
        size == n - k,
        has == (k < n),
        final(t).ab() == old(s).ab(),
{
    let b = old(s).b_buf();
    assert(b.take(n as int).take(k as int) =~= b.take(k as int));
    assert(b.take(n as int).skip(k as int) =~= b.subrange(k as int, n as int));
}

/// A copy begins with nothing read or written, and reads into buffers of 65536
/// bytes; both sources together end it.
pub proof fn law_copy_begins_empty(s: BidiState, c: BidiCopy, secs: u64, now: u64, t: &BidiState, b: bool)
    requires
        call_ensures(BidiState::new, (), s),
        call_ensures(BidiCopy::start, (secs, now), c),
        call_ensures(BidiState::both_eof, (t,), b),
    ensures
        s.a_buf().len() == 65536 && s.b_buf().len() == 65536,
        s.ab().read.len() == 0 && s.ab().written.len() == 0 && s.ab().pending.len() == 0
            && !s.ab().eof,
        s.ba().read.len() == 0 && s.ba().written.len() == 0 && s.ba().pending.len() == 0
            && !s.ba().eof,
        c.ab().read.len() == 0 && c.ab().written.len() == 0 && !c.ab().eof,
        c.ba().read.len() == 0 && c.ba().written.len() == 0 && !c.ba().eof,
        c.pass().stage == Stage::WriteB && !c.pass().failed && !c.pass().progress,
        b == (t.ab().eof && t.ba().eof),
{
}

} // verus!
