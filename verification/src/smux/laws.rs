//! What driving a multiplexed connection is for, stated over what calls take and
//! give.

use crate::smux::conn::{
    read_task_done, AcceptStep, AfterRead, AfterWrite, Batch, FlushLoop, Health, ReadEvent, RunLoop,
    SessionError, SmuxConn,
};
use crate::smux::io::{Parked, SmuxIo, SmuxIoError, StreamWrite};
use vstd::prelude::*;

verus! {

/// Only the first who wants to drive a connection does.
pub proof fn law_one_drives(
    c: SmuxConn,
    is_client: bool,
    d: &mut SmuxConn,
    e: &mut SmuxConn,
    first: Result<(), SessionError>,
    second: Result<(), SessionError>,
    queues: bool,
)
    requires
        call_ensures(SmuxConn::new, (is_client,), c),
        *old(d) == c,
        call_ensures(SmuxConn::drive, (d,), first),
        *old(e) == *final(d),
        call_ensures(SmuxConn::drive, (e,), second),
        call_ensures(SmuxConn::queues_accepts, (&c,), queues),
    ensures
        first is Ok,
        second == Err::<(), SessionError>(SessionError::SessionClosed),
        queues != is_client,
{
}

/// Who waits for a stream gets the first that still exists; a closed session ends
/// the wait, whatever is queued.
pub proof fn law_streams_are_accepted_while_they_live(
    closed: bool,
    first: Option<u32>,
    live: bool,
    s: AcceptStep,
)
    requires
        call_ensures(SmuxConn::accept, (closed, first, live), s),
    ensures
        closed ==> s == AcceptStep::Closed,
        !closed && first is None ==> s == AcceptStep::Wait,
        !closed && first is Some && live ==> s == AcceptStep::Stream(first->0),
        !closed && first is Some && !live ==> s == AcceptStep::Again,
{
}

/// FIN frames are added behind what is there, each with its stream.
pub proof fn law_fin_frames_are_added_in_order(
    b: &mut Batch,
    reaped: &Vec<u32>,
    headers: &Vec<Vec<u8>>,
    c: &mut Batch,
    more: &Vec<u32>,
    longer: &Vec<Vec<u8>>,
    id: u32,
    h: Vec<u8>,
)
    requires
        *old(c) == *old(b),
        call_ensures(Batch::add_fins, (b, reaped, headers), ()),
        call_ensures(Batch::add_fins, (c, more, longer), ()),
        more@ == reaped@.push(id),
        longer@ == headers@.push(h),
    ensures
        headers@.len() == 0 && reaped@.len() == 0 ==> final(b).bytes@ == old(b).bytes@
            && final(b).fins@ == old(b).fins@,
        final(c).bytes@ == final(b).bytes@ + h@,
        final(c).fins@ == final(b).fins@ + seq![id],
{
    assert(longer@.drop_last() =~= headers@);
    let o = old(b).bytes@;
    let a = crate::smux::conn::all_headers(headers@);
    assert(o + (a + h@) =~= (o + a) + h@);
    assert(old(b).fins@ + more@ =~= (old(b).fins@ + reaped@) + seq![id]);
    if headers@.len() == 0 {
        assert(o + a =~= o);
    }
    if reaped@.len() == 0 {
        assert(old(b).fins@ + reaped@ =~= old(b).fins@);
    }
}

/// A transport that ended or failed closes the session; data that makes no sense
/// ends the single driver and is passed over by a reading one; silence is no
/// reason to stop.
pub proof fn law_end_of_the_transport_closes(
    l: &RunLoop,
    event: ReadEvent,
    next: AfterRead,
    task: AfterRead,
)
    requires
        call_ensures(RunLoop::read_done, (l, event), next),
        call_ensures(read_task_done, (event,), task),
    ensures
        event == ReadEvent::Eof || event == ReadEvent::Failed ==> next == AfterRead::Close && task
            == AfterRead::Close,
        event == ReadEvent::TimedOut || event == ReadEvent::Data(true) ==> next == AfterRead::Flush
            && task == AfterRead::Flush,
        event == ReadEvent::Data(false) ==> next == AfterRead::Fail && task == AfterRead::Flush,
{
}

/// Ends are announced where their bytes were written, all of them and no others;
/// a write that failed ends the single driver and announces nothing.
pub proof fn law_written_ends_are_announced(
    l: &RunLoop,
    f: &FlushLoop,
    batch: Batch,
    written: bool,
    next: AfterWrite,
    announced: Vec<u32>,
)
    requires
        call_ensures(RunLoop::write_done, (l, batch, written), next),
        call_ensures(FlushLoop::write_done, (f, batch, written), announced),
    ensures
        batch.bytes@.len() > 0 && written ==> next.announced@ == batch.fins@ && announced@
            == batch.fins@ && !next.end,
        batch.bytes@.len() > 0 && !written ==> next.announced@.len() == 0 && announced@.len() == 0
            && next.end,
        batch.bytes@.len() == 0 ==> next.announced@.len() == 0 && announced@.len() == 0
            && !next.end,
{
}

/// A driver looks at the health in its first pass and then in every hundredth:
/// 99 passes lie between two looks. In a look a peer that is gone comes before a
/// keepalive frame that is due; in other passes nothing is asked for.
pub proof fn law_health_is_seen_every_hundredth_pass(
    start: RunLoop,
    l: &mut RunLoop,
    timed_out: bool,
    due: bool,
    h: Health,
    b: bool,
    g: &mut FlushLoop,
    k: Health,
)
    requires
        call_ensures(RunLoop::start, (), start),
        call_ensures(RunLoop::end_pass, (l, timed_out, due), h),
        call_ensures(RunLoop::looks, (old(l),), b),
        old(g).health == old(l).health,
        call_ensures(FlushLoop::begin_write, (g, timed_out, due), k),
    ensures
        start.health == 0,
        b == (old(l).health == 0),
        !b ==> h == Health::Fine && old(l).health - final(l).health == 1,
        b && timed_out ==> h == Health::TimedOut,
        b && !timed_out && due ==> h == Health::Keepalive && final(l).health == 99,
        b && !timed_out && !due ==> h == Health::Fine && final(l).health == 99,
        k == h,
        final(g).health == final(l).health,
{
}

/// A writer is held back exactly while as many packets wait as the window takes,
/// and never where there is no window; the first who is held back is given a
/// waiter, others look again.
pub proof fn law_full_window_holds_writers_back(
    s: &mut SmuxIo,
    wait_send: usize,
    p: Option<Parked>,
    w: &mut SmuxIo,
    wake: bool,
    r: &SmuxIo,
    look: bool,
)
    requires
        call_ensures(SmuxIo::hold_back, (s, wait_send), p),
        call_ensures(SmuxIo::waiter_done, (w, wait_send), wake),
        call_ensures(SmuxIo::recheck, (r, wait_send), look),
    ensures
        old(s).window() is None ==> p is None,
        old(s).window() is Some && wait_send < old(s).window()->0 ==> p is None,
        old(s).window() is Some && wait_send >= old(s).window()->0 ==> p is Some,
        p is Some && old(s).armed() ==> p == Some(Parked::Recheck),
        p is Some && !old(s).armed() ==> p == Some(Parked::Waiter) && final(s).armed(),
        p is None ==> final(s).armed() == old(s).armed(),
        old(w).window() is Some ==> wake == (wait_send < old(w).window()->0),
        old(w).window() is None ==> wake,
        wake ==> !final(w).armed(),
        !wake ==> final(w).armed() == old(w).armed(),
        !r.armed() ==> look,
        r.armed() && r.window() is Some ==> look == (wait_send < r.window()->0),
        r.window() is None ==> look,
{
}

/// A fresh stream has no waiter, and the window that it is given.
pub proof fn law_streams_begin_without_a_waiter(
    a: SmuxIo,
    b: SmuxIo,
    snd_wnd: usize,
    r: StreamWrite,
    w: Result<usize, SmuxIoError>,
)
    requires
        call_ensures(SmuxIo::new, (), a),
        call_ensures(SmuxIo::with_backpressure, (snd_wnd,), b),
        call_ensures(SmuxIo::wrote, (r,), w),
    ensures
        a.window() is None && !a.armed(),
        b.window() == Some(snd_wnd) && !b.armed(),
        r matches StreamWrite::Wrote(n) ==> w == Ok::<usize, SmuxIoError>(n),
        r == StreamWrite::Closed ==> w == Err::<usize, SmuxIoError>(SmuxIoError::BrokenPipe),
        r == StreamWrite::Failed ==> w == Err::<usize, SmuxIoError>(SmuxIoError::ConnectionReset),
{
}

} // verus!
