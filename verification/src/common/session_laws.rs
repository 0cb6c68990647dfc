//! What sessions, their pace and their encryption are for, stated over what calls
//! take and give.

use crate::common::kcptun_session::{
    allow_fin, can_send, has_pending, stale_streams, AfterSessionRead, AfterSessionWrite, HealthCheck,
    KcptunConfig, KcptunSession, PassOut, PassStart, Seen, SessionHealth, SessionRead, StreamState,
};
use crate::common::key::derive_key;
use crate::common::mode::{apply_mode, apply_mode_or_manual, parse_mode};
use crate::common::qpp_validate::{gcd, validate_qpp_params};
use crate::common::ratelimit::RateLimiter;
use crate::common::snappy_frame::SnappyStreamEncoder;
use crate::common::session::{
    ack_session_id, has_encryption, recv_next, try_recv_next, CryptoTransport, Datagram, OpenError,
    Opened, RecvNext, Wrapping,
};
use crate::kcp::config::{KcpMode, KCP};
use vstd::prelude::*;
use vstd::string::StringSliceAdditionalSpecFns;

verus! {

/// What a bucket of `rate` bytes per second, a second's worth at most, that held
/// `tokens` billionths of a byte holds `elapsed` nanoseconds later.
pub open spec fn flowed_in(tokens: nat, rate: nat, elapsed: nat, held: nat) -> bool {
    &&& held <= tokens + elapsed * rate
    &&& held <= rate * 1_000_000_000
    &&& held == tokens + elapsed * rate || held == rate * 1_000_000_000
}

/// What the bucket holds is granted at once; what it lacks is waited for, as long
/// as it takes to flow in, to the nearest nanosecond.
pub proof fn law_what_is_there_is_granted(
    l: &mut RateLimiter,
    n: usize,
    now: u64,
    wait: u128,
    held: nat,
)
    requires
        call_ensures(RateLimiter::acquire, (l, n, now), wait),
        n > 0,
        old(l)@.rate > 0,
        old(l)@.last <= now,
        flowed_in(old(l)@.tokens, old(l)@.rate, (now - old(l)@.last) as nat, held),
    ensures
        held >= n * 1_000_000_000 ==> wait == 0 && final(l)@.tokens + n * 1_000_000_000 == held,
        held < n * 1_000_000_000 ==> {
            let lacks = n * 1_000_000_000 - held;
            &&& 2 * (wait * old(l)@.rate) <= 2 * lacks + old(l)@.rate
            &&& 2 * lacks <= 2 * (wait * old(l)@.rate) + old(l)@.rate
            &&& 2 * (wait * old(l)@.rate) == 2 * lacks + old(l)@.rate ==> wait % 2 == 0
            &&& 2 * lacks == 2 * (wait * old(l)@.rate) + old(l)@.rate ==> wait % 2 == 0
            &&& wait > 0 ==> final(l)@.tokens == held
        },
        final(l)@.rate == old(l)@.rate,
        final(l)@.last == now,
{
    let rate = old(l)@.rate;
    let b = old(l)@.refilled(now as nat);
    assert(b.tokens == held);
    if held < n * 1_000_000_000 {
        let lacks = (n * 1_000_000_000 - held) as nat;
        let q = lacks / rate;
        let r = lacks % rate;
        vstd::arithmetic::div_mod::lemma_fundamental_div_mod(lacks as int, rate as int);
        vstd::arithmetic::div_mod::lemma_mod_bound(lacks as int, rate as int);
        assert(q * rate == rate * q) by (nonlinear_arith);
        assert((q + 1) * rate == q * rate + rate) by (nonlinear_arith);
        assert(wait == q || wait == q + 1);
    }
}

/// Without a limit, and for nothing, there is no wait and nothing is taken.
pub proof fn law_no_limit_is_no_wait(l: &mut RateLimiter, n: usize, now: u64, wait: u128)
    requires
        call_ensures(RateLimiter::acquire, (l, n, now), wait),
        n == 0 || old(l)@.rate == 0,
    ensures
        wait == 0,
        final(l)@ == old(l)@,
{
}

/// What was waited for is taken, as far as it is there. A limiter begins, and
/// begins anew with another rate, with a second's worth.
pub proof fn law_what_was_waited_for_is_taken(
    l: &mut RateLimiter,
    n: usize,
    now: u64,
    held: nat,
    rate: u32,
    fresh: RateLimiter,
    k: &mut RateLimiter,
    r: u32,
)
    requires
        call_ensures(RateLimiter::settle, (l, n, now), ()),
        old(l)@.last <= now,
        flowed_in(old(l)@.tokens, old(l)@.rate, (now - old(l)@.last) as nat, held),
        call_ensures(RateLimiter::new, (rate, now), fresh),
        call_ensures(RateLimiter::set_rate, (k, rate, now), ()),
        call_ensures(RateLimiter::rate, (&fresh,), r),
    ensures
        held >= n * 1_000_000_000 ==> final(l)@.tokens + n * 1_000_000_000 == held,
        held <= n * 1_000_000_000 ==> final(l)@.tokens == 0,
        final(l)@.last == now,
        fresh@.tokens == rate * 1_000_000_000,
        fresh@.rate == rate,
        fresh@.last == now,
        final(k)@ == fresh@,
        r == rate,
{
    assert(old(l)@.refilled(now as nat).tokens == held);
}

/// A session is paced as its limiter is.
pub proof fn law_session_keeps_the_pace(
    s: &mut KcptunSession,
    l: &mut RateLimiter,
    n: usize,
    now: u64,
    wait: u128,
    w: u128,
    t: &mut KcptunSession,
    k: &mut RateLimiter,
)
    requires
        old(s).writer().bucket == old(l)@,
        call_ensures(KcptunSession::pace, (s, n, now), wait),
        call_ensures(RateLimiter::acquire, (l, n, now), w),
        old(t).writer().bucket == old(k)@,
        call_ensures(KcptunSession::waited, (t, n, now), ()),
        call_ensures(RateLimiter::settle, (k, n, now), ()),
    ensures
        wait == w,
        final(s).writer().bucket == final(l)@,
        final(t).writer().bucket == final(k)@,
        final(s)@ == old(s)@,
        final(s).writer().fins == old(s).writer().fins,
{
}

/// A stream has come to its end where both sides closed it and the other was
/// told, or where this side closed it, has nothing left to send, and has waited
/// for 30 seconds; in no other case.
pub open spec fn at_its_end(s: StreamState) -> bool {
    s.local_closed && ((s.remote_closed && s.fin_sent) || (s.pending_send == 0
        && s.local_closed_elapsed is Some && s.local_closed_elapsed->0 >= 30_000_000_000))
}

/// Streams are removed when they have come to their end, and in their order.
pub proof fn law_ended_streams_are_removed(
    s: &StreamState,
    b: bool,
    streams: &Vec<StreamState>,
    ids: Vec<u32>,
)
    requires
        call_ensures(StreamState::is_stale, (s,), b),
        call_ensures(stale_streams, (streams,), ids),
    ensures
        b == at_its_end(*s),
        ids@ == streams@.filter(|s: StreamState| at_its_end(s)).map_values(|s: StreamState| s.id),
{
    lemma_stale_ids(streams@);
}

proof fn lemma_stale_ids(streams: Seq<StreamState>)
    ensures
        crate::common::kcptun_session::stale_ids(streams) == streams.filter(
            |s: StreamState| at_its_end(s),
        ).map_values(|s: StreamState| s.id),
    decreases streams.len(),
{
    reveal(Seq::filter);
    let ended = |s: StreamState| at_its_end(s);
    let id = |s: StreamState| s.id;
    if streams.len() > 0 {
        lemma_stale_ids(streams.drop_last());
        let before = streams.drop_last().filter(ended);
        assert(before.push(streams.last()).map_values(id) =~= before.map_values(id).push(
            streams.last().id,
        ));
        assert(streams.last().stale() == at_its_end(streams.last()));
    } else {
        assert(streams.filter(ended).map_values(id) =~= Seq::<u32>::empty());
    }
}

/// What streams have to send, and when ends may be announced: once nothing waits
/// and all was acknowledged.
pub proof fn law_ends_wait_for_the_data(
    streams: &Vec<StreamState>,
    pending: bool,
    sendable: bool,
    wait_send: usize,
    fin: bool,
    i: int,
)
    requires
        call_ensures(has_pending, (streams,), pending),
        call_ensures(can_send, (streams,), sendable),
        call_ensures(allow_fin, (streams, wait_send), fin),
    ensures
        0 <= i < streams@.len() && streams@[i].pending_send > 0 ==> pending && !fin,
        0 <= i < streams@.len() && streams@[i].pending_send > 0 && streams@[i].peer_send_window > 0
            ==> sendable,
        wait_send > 0 ==> !fin,
        !pending && wait_send == 0 ==> fin,
        (forall|k: int| 0 <= k < streams@.len() ==> (#[trigger] streams@[k]).pending_send == 0)
            ==> !pending && !sendable,
        sendable ==> pending,
{
}

/// The health is looked at now and then: after a look 50 passes do not look. What
/// is seen to be dead is dead, before anything that is due.
pub proof fn law_health_is_looked_at_after_fifty_passes(
    h: &mut HealthCheck,
    seen: Seen,
    r: SessionHealth,
    fresh: HealthCheck,
)
    requires
        call_ensures(HealthCheck::pass, (h, seen), r),
        call_ensures(HealthCheck::new, (), fresh),
    ensures
        fresh.left == 0,
        old(h).left > 0 ==> r == SessionHealth::Fine && old(h).left - final(h).left == 1,
        old(h).left == 0 ==> final(h).left == 50,
        old(h).left == 0 && (seen.link_dead || seen.timed_out) ==> r == SessionHealth::Dead,
        old(h).left == 0 && !seen.link_dead && !seen.timed_out && seen.due ==> r
            == SessionHealth::Keepalive,
        old(h).left == 0 && !seen.link_dead && !seen.timed_out && !seen.due ==> r
            == SessionHealth::Fine,
{
}

/// A pass of the writer begins with the health: a dead session is given up; else
/// a keepalive frame goes where it is due, and ends go where no data waits.
pub proof fn law_writer_begins_with_the_health(
    s: &mut KcptunSession,
    seen: Seen,
    streams: &Vec<StreamState>,
    wait_send: usize,
    start: PassStart,
    h: &mut HealthCheck,
    r: SessionHealth,
    fin: bool,
)
    requires
        call_ensures(KcptunSession::begin_pass, (s, seen, streams, wait_send), start),
        old(h).left == old(s).writer().left,
        call_ensures(HealthCheck::pass, (h, seen), r),
        call_ensures(allow_fin, (streams, wait_send), fin),
    ensures
        final(s).writer().left == final(h).left,
        r == SessionHealth::Dead ==> start == PassStart::Dead && final(s).given_up(),
        r == SessionHealth::Keepalive ==> start == (PassStart::Go {
            keepalive: true,
            allow_fin: fin,
        }),
        r == SessionHealth::Fine ==> start == (PassStart::Go { keepalive: false, allow_fin: fin }),
        r != SessionHealth::Dead ==> final(s).given_up() == old(s).given_up(),
        final(s)@ == old(s)@,
{
}

/// What a session packs, the session at the other end takes in: the frames come
/// out of the first packet and of the next as they went in, compressed or not.
pub proof fn law_sessions_understand_each_other(
    nocomp: bool,
    rate: u32,
    now: u64,
    other_rate: u32,
    then: u64,
    a: KcptunSession,
    b: KcptunSession,
    sender: &mut KcptunSession,
    out: &[u8],
    packet: Option<Vec<u8>>,
    receiver: &mut KcptunSession,
    bytes: &[u8],
    frames: Vec<u8>,
    sender2: &mut KcptunSession,
    out2: &[u8],
    packet2: Option<Vec<u8>>,
    receiver2: &mut KcptunSession,
    bytes2: &[u8],
    frames2: Vec<u8>,
)
    requires
        call_ensures(KcptunSession::new, (nocomp, rate, now), a),
        call_ensures(KcptunSession::new, (nocomp, other_rate, then), b),
        *old(sender) == a,
        *old(receiver) == b,
        out@.len() > 0,
        call_ensures(KcptunSession::packet, (sender, out), packet),
        packet is Some ==> bytes@ == packet->0@,
        call_ensures(KcptunSession::take_in, (receiver, bytes), frames),
        *old(sender2) == *final(sender),
        *old(receiver2) == *final(receiver),
        out2@.len() > 0,
        call_ensures(KcptunSession::packet, (sender2, out2), packet2),
        packet2 is Some ==> bytes2@ == packet2->0@,
        call_ensures(KcptunSession::take_in, (receiver2, bytes2), frames2),
    ensures
        packet is Some && packet2 is Some,
        frames@ == out@,
        frames2@ == out2@,
        nocomp ==> packet->0@ == out@ && packet2->0@ == out2@,
{
    assert(Seq::<u8>::empty() + bytes@ =~= bytes@);
    assert(Seq::<u8>::empty() + bytes2@ =~= bytes2@);
}

/// No frames make no packet. What is taken out of a pass are the streams at their
/// end, and the FIN frames wait for the packet to be written: then they are
/// announced, once.
pub proof fn law_ends_are_announced_with_the_packet(
    s: &mut KcptunSession,
    out: &[u8],
    fins: Vec<u32>,
    streams: &Vec<StreamState>,
    r: PassOut,
    t: &mut KcptunSession,
    ok: bool,
    next: AfterSessionWrite,
    pending: bool,
    ids: Vec<u32>,
    u: &mut KcptunSession,
    again_ok: bool,
    again: AfterSessionWrite,
)
    requires
        call_ensures(KcptunSession::pack, (s, out, fins, streams), r),
        call_ensures(stale_streams, (streams,), ids),
        *old(t) == *final(s),
        call_ensures(KcptunSession::written, (t, ok, streams), next),
        call_ensures(has_pending, (streams,), pending),
        *old(u) == *final(t),
        call_ensures(KcptunSession::written, (u, again_ok, streams), again),
    ensures
        r.packet is Some == (out@.len() > 0),
        r.remove@ == ids@,
        ok ==> next.announced@ == fins@ && !next.end && next.again == pending,
        !ok ==> next.announced@.len() == 0 && next.end && !next.again && final(t).given_up(),
        again.announced@.len() == 0,
{
}

/// A read of nothing is the end, as is a failure of a closed connection; another
/// failure is tried again, and data is taken in.
pub proof fn law_reads_end_with_the_connection(
    r: SessionRead,
    link_closed: bool,
    next: AfterSessionRead,
    woken: bool,
    ms: Option<u64>,
)
    requires
        call_ensures(KcptunSession::read_done, (r, link_closed), next),
        call_ensures(KcptunSession::wait_ms, (woken,), ms),
    ensures
        r == SessionRead::Data(0) ==> next == AfterSessionRead::End,
        r is Data && r->Data_0 > 0 ==> next == AfterSessionRead::TakeIn,
        r == SessionRead::Failed && link_closed ==> next == AfterSessionRead::End,
        r == SessionRead::Failed && !link_closed ==> next == AfterSessionRead::Again,
        woken ==> ms is None,
        !woken ==> ms == Some(10u64),
{
}

/// A session that begins is not given up; who accepts streams queues them; any one
/// of the things that end it makes it dead, and nothing else does.
pub proof fn law_sessions_begin_alive(
    config: &KcptunConfig,
    now: u64,
    c: KcptunSession,
    s: KcptunSession,
    cq: bool,
    sq: bool,
    link_dead: bool,
    link_closed: bool,
    smux_closed: bool,
    timed_out: bool,
    dead: bool,
    on: bool,
    d: &mut KcptunSession,
    over: bool,
)
    requires
        call_ensures(KcptunSession::client, (config, now), c),
        call_ensures(KcptunSession::server, (config, now), s),
        call_ensures(KcptunSession::queues_accepts, (&c,), cq),
        call_ensures(KcptunSession::queues_accepts, (&s,), sq),
        call_ensures(
            KcptunSession::is_dead,
            (&c, link_dead, link_closed, smux_closed, timed_out),
            dead,
        ),
        call_ensures(KcptunSession::goes_on, (&c, link_closed, smux_closed), on),
        call_ensures(KcptunSession::close, (d,), ()),
        call_ensures(
            KcptunSession::is_dead,
            (&*final(d), link_dead, link_closed, smux_closed, timed_out),
            over,
        ),
    ensures
        !cq && sq,
        dead == (link_dead || link_closed || smux_closed || timed_out),
        on == !(link_closed || smux_closed),
        over,
        c@.nocomp == config.nocomp && s@.nocomp == config.nocomp,
        c.writer().bucket.rate == config.rate_limit,
{
}

/// All methods but `null` encrypt.
pub proof fn law_null_does_not_encrypt(
    crypt: &str,
    b: bool,
    aead: bool,
    t: CryptoTransport,
    w: Wrapping,
    e: bool,
)
    requires
        call_ensures(has_encryption, (crypt,), b),
        call_ensures(CryptoTransport::new, (crypt, aead), t),
        call_ensures(CryptoTransport::wrap, (&t,), w),
        call_ensures(CryptoTransport::has_encryption, (&t,), e),
    ensures
        b == (crypt@ != seq!['n', 'u', 'l', 'l']),
        e == b,
        aead ==> w == Wrapping::Seal,
        !aead && b ==> w == Wrapping::Header,
        !aead && !b ==> w == Wrapping::Bare,
{
    reveal_strlit("null");
    assert("null"@ =~= seq!['n', 'u', 'l', 'l']);
}

/// Acknowledgements draw under an identity that differs from that of the data of
/// any conversation by the same mask.
pub proof fn law_acknowledgements_have_their_own_identity(
    conv: u32,
    id: u64,
    t: &CryptoTransport,
    ids: (u64, u64),
    urgent: bool,
    heavy: bool,
    b: bool,
)
    requires
        call_ensures(ack_session_id, (conv,), id),
        call_ensures(CryptoTransport::nonce_ids, (t,), ids),
        call_ensures(CryptoTransport::offloads, (t, urgent, heavy), b),
    ensures
        id ^ (conv as u64) == 2_703_012_095u64,
        id != conv,
        ids.0 != ids.1,
        ids.0 ^ ids.1 == 2_703_012_095u64,
        b ==> heavy && !urgent,
        heavy && !urgent ==> b,
{
    let c = conv as u64;
    let d = crate::kcp::config::DEFAULT_CONV as u64;
    assert((c ^ 0xA11C_B0FFu64) ^ c == 2_703_012_095u64) by (bit_vector);
    assert(d ^ (d ^ 0xA11C_B0FFu64) == 2_703_012_095u64) by (bit_vector);
}

/// The packet of a datagram comes to the front of its buffer: one that was sealed,
/// one that stood at the datagram's end, or the datagram itself where it is bare;
/// what does not check out is nothing, and what is longer than the buffer is
/// refused.
pub proof fn law_packet_comes_to_the_front(
    t: &CryptoTransport,
    w: Wrapping,
    buf: &mut [u8],
    n: usize,
    opened: Opened,
    r: Result<usize, OpenError>,
)
    requires
        call_ensures(CryptoTransport::wrap, (t,), w),
        call_ensures(CryptoTransport::decrypt_in_place, (t, buf, n, opened), r),
        0 < n <= old(buf)@.len(),
        opened matches Opened::Tail(len) ==> len <= n,
    ensures
        w == Wrapping::Bare ==> r == Ok::<usize, OpenError>(n) && final(buf)@ == old(buf)@,
        w != Wrapping::Bare ==> match opened {
            Opened::Sealed(plain) => {
                &&& plain@.len() <= old(buf)@.len() ==> r is Ok && r->Ok_0 == plain@.len()
                    && final(buf)@ == plain@ + old(buf)@.skip(plain@.len() as int)
                &&& plain@.len() > old(buf)@.len() ==> r == Err::<usize, OpenError>(
                    OpenError::TooLong,
                ) && final(buf)@ == old(buf)@
            },
            Opened::Tail(len) => {
                &&& r == Ok::<usize, OpenError>(len)
                &&& final(buf)@ == old(buf)@.subrange(n - len, n as int) + old(buf)@.skip(
                    len as int,
                )
            },
            Opened::Bad => r == Ok::<usize, OpenError>(0usize) && final(buf)@ == old(buf)@,
        },
{
    let b = old(buf)@;
    assert(b.len() == old(buf).len());
    assert(b.take(n as int) + b.skip(n as int) =~= b);
    assert(Seq::<u8>::empty() + b.skip(0) =~= b);
    assert(b.skip(0) =~= b);
    match opened {
        Opened::Sealed(plain) => {
            if plain@.len() == b.len() {
                assert(plain@ + b.skip(plain@.len() as int) =~= plain@);
                assert(plain@.take(b.len() as int) =~= plain@);
            }
        },
        Opened::Tail(len) => {
            let p = b.subrange(n - len, n as int);
            if p.len() == b.len() {
                assert(p + b.skip(len as int) =~= p);
                assert(p.take(b.len() as int) =~= p);
            }
        },
        Opened::Bad => {},
    }
    if n == b.len() {
        assert(b.take(n as int).take(b.len() as int) =~= b);
    }
}

/// Who receives gets packets only: datagrams without one are passed over, while
/// others are there without waiting; an empty datagram is handed on.
pub proof fn law_receiver_gets_packets_only(
    waited: bool,
    d: Datagram,
    next: RecvNext,
    without: RecvNext,
)
    requires
        call_ensures(recv_next, (waited, d), next),
        call_ensures(try_recv_next, (d,), without),
    ensures
        d matches Datagram::Came { n, plain } ==> (plain > 0 ==> next == RecvNext::Return(plain)
            && without == RecvNext::Return(plain)) && (n == 0 ==> next == RecvNext::Return(plain)
            && without == RecvNext::Return(plain)) && (plain == 0 && n > 0 ==> without
            == RecvNext::Try && (waited ==> next == RecvNext::Try) && (!waited ==> next
            == RecvNext::Wait)),
        d == Datagram::Nothing ==> next == RecvNext::Wait && without == RecvNext::WouldBlock,
        d == Datagram::Failed ==> next == RecvNext::Fail && without == RecvNext::Fail,
{
}

/// The four profiles by their names.
pub proof fn law_profiles_have_names(name: &str, m: Option<KcpMode>)
    requires
        call_ensures(parse_mode, (name,), m),
    ensures
        name@ == seq!['n', 'o', 'r', 'm', 'a', 'l'] ==> m == Some(KcpMode::Normal),
        name@ == seq!['f', 'a', 's', 't'] ==> m == Some(KcpMode::Fast),
        name@ == seq!['f', 'a', 's', 't', '2'] ==> m == Some(KcpMode::Fast2),
        name@ == seq!['f', 'a', 's', 't', '3'] ==> m == Some(KcpMode::Fast3),
        m is Some ==> name@ == seq!['n', 'o', 'r', 'm', 'a', 'l'] || name@ == seq![
            'f',
            'a',
            's',
            't',
        ] || name@ == seq!['f', 'a', 's', 't', '2'] || name@ == seq!['f', 'a', 's', 't', '3'],
{
    reveal_strlit("normal");
    reveal_strlit("fast");
    reveal_strlit("fast2");
    reveal_strlit("fast3");
    assert("normal"@ =~= seq!['n', 'o', 'r', 'm', 'a', 'l']);
    assert("fast"@ =~= seq!['f', 'a', 's', 't']);
    assert("fast2"@ =~= seq!['f', 'a', 's', 't', '2']);
    assert("fast3"@ =~= seq!['f', 'a', 's', 't', '3']);
    assert("fast2"@[4] != "fast3"@[4]);
    assert("normal"@.len() == 6 && "fast"@.len() == 4 && "fast2"@.len() == 5);
}

/// A name gives an endpoint the timing of its profile. Any other stands for
/// `fast`, or, where a timing is given, for that, with an interval of 40 where it
/// is below 10.
pub proof fn law_names_give_the_timing(
    k: &mut KCP,
    mode: &str,
    m: Option<KcpMode>,
    j: &mut KCP,
    nodelay: u32,
    interval: u32,
    resend: u32,
    nc: u32,
)
    requires
        call_ensures(parse_mode, (mode,), m),
        call_ensures(apply_mode, (k, mode), ()),
        call_ensures(apply_mode_or_manual, (j, mode, nodelay, interval, resend, nc), ()),
    ensures
        m == Some(KcpMode::Normal) ==> final(k).nodelay == 0 && final(k).interval == 40,
        m == Some(KcpMode::Fast) || m is None ==> final(k).nodelay == 0 && final(k).interval == 30,
        m == Some(KcpMode::Fast2) ==> final(k).nodelay == 1 && final(k).interval == 20,
        m == Some(KcpMode::Fast3) ==> final(k).nodelay == 1 && final(k).interval == 10,
        final(k).resend == 2 && final(k).nc == 1,
        m is Some ==> final(k).mode == m->0,
        final(k).conv == old(k).conv && final(k).snd_wnd == old(k).snd_wnd && final(k).rcv_wnd
            == old(k).rcv_wnd && final(k).mtu == old(k).mtu,
        m is Some && *old(j) == *old(k) ==> *final(j) == *final(k),
        m is None ==> final(j).nodelay == nodelay && final(j).resend == resend && final(j).nc == nc
            && final(j).mode == KcpMode::Manual,
        m is None && interval >= 10 ==> final(j).interval == interval,
        m is None && interval < 10 ==> final(j).interval == 40,
        final(j).conv == old(j).conv && final(j).snd_wnd == old(j).snd_wnd,
{
}

/// A session key is derived from the password alone, in 4096 rounds.
pub proof fn law_key_comes_from_the_password(password: &str, key: [u8; 32])
    requires
        call_ensures(derive_key, (password,), key),
    ensures
        key@ == crate::crypto::pbkdf2_sha1(
            password.spec_bytes(),
            "kcp-go".spec_bytes(),
            4096,
            32,
        ),
{
}

/// The greatest common divisor divides both numbers, and no other that does is
/// greater.
pub proof fn law_divisor_is_the_greatest(a: u64, b: u64, d: u64, e: u64)
    requires
        call_ensures(gcd, (a, b), d),
        a > 0 || b > 0,
        e > 0,
    ensures
        d > 0,
        a % d == 0,
        b % d == 0,
        a % e == 0 && b % e == 0 ==> e <= d,
{
    if a % e == 0 && b % e == 0 {
        assert(crate::common::qpp_validate::divides(e as int, a as int));
        assert(crate::common::qpp_validate::divides(e as int, b as int));
    }
    assert(crate::common::qpp_validate::divides(d as int, a as int));
    assert(crate::common::qpp_validate::divides(d as int, b as int));
}

/// Pads are needed; and there is a warning for each of a key below 256 bytes,
/// fewer than 8 pads, and an even number of them, in this order, and no other.
pub proof fn law_weak_pads_are_warned_about(
    count: u16,
    key: &[u8],
    r: Result<Vec<String>, String>,
)
    requires
        call_ensures(validate_qpp_params, (count, key), r),
    ensures
        r is Err == (count == 0),
        r is Ok ==> {
            let short = key@.len() < 256;
            let few = count < 8;
            let even = count % 2 == 0;
            let w = r->Ok_0@;
            &&& w.len() == (if short { 1int } else { 0 }) + (if few { 1int } else { 0 }) + (if even {
                1int
            } else {
                0
            })
            &&& short ==> w[0]@ == "QPP Warning: 'key' has size of "@ + crate::text::decimal(
                key@.len(),
            ) + " bytes, required "@ + crate::text::decimal(256) + " bytes at least"@
            &&& few ==> w[if short { 1int } else { 0 }]@ == "QPP Warning: QPPCount "@
                + crate::text::decimal(count as nat) + ", required "@ + crate::text::decimal(8)
                + " at least"@
            &&& even ==> w[w.len() - 1]@ == "QPP Warning: QPPCount "@ + crate::text::decimal(
                count as nat,
            ) + ", choose a prime number for security"@
        },
{
    if r is Ok {
        let t = crate::text::texts(r->Ok_0@);
        let all = crate::common::qpp_validate::qpp_warnings(count, key@.len());
        assert(t == all);
        assert(t.len() == r->Ok_0@.len());
        assert(forall|i: int| 0 <= i < t.len() ==> t[i] == #[trigger] r->Ok_0@[i]@);
    }
}

/// A session that compresses sends what an encoder of its place in the stream
/// makes: the same frames later take ten bytes less than at first.
pub proof fn law_packets_are_what_the_encoder_makes(
    s: &mut KcptunSession,
    out: &[u8],
    packet: Option<Vec<u8>>,
    e: &mut SnappyStreamEncoder,
    bytes: Vec<u8>,
    t: &mut KcptunSession,
    later: Option<Vec<u8>>,
)
    requires
        out@.len() > 0,
        !old(s)@.nocomp,
        call_ensures(KcptunSession::packet, (s, out), packet),
        old(e).started() == old(s)@.sent,
        call_ensures(SnappyStreamEncoder::encode, (e, out), bytes),
        *old(t) == *final(s),
        call_ensures(KcptunSession::packet, (t, out), later),
    ensures
        packet is Some && packet->0@ == bytes@,
        final(s)@.sent,
        later is Some,
        !old(s)@.sent ==> later->0@ == bytes@.skip(10),
        old(s)@.sent ==> later->0@ == bytes@,
{
}

} // verus!
