//! What a client is for, stated over what calls take and give: how long
//! connections live, who takes the next stream, what datagrams bring, in which
//! pieces data goes out, and what the options come to.

use crate::client::cli::{Cli, Config};
use crate::client::conn::{
    client_packets, received, send_pieces, taken_in, ClientConn, ReceiverStep, SendResult, SenderStart,
};
use crate::client::options::{
    client_options, client_sockbuf, kcp_endpoint, rotate_log_plan, smux_config, snmp_plan, tos_of_dscp,
    ClientOptions, OptionsError, SessionConfig, SnmpPlan,
};
use crate::client::pool::{is_expired, scavenge, OpenStep, RoundRobin};
use crate::common::kcptun_session::{
    stale_streams, HealthCheck, KcptunSession, PassOut, Seen, SessionHealth, StreamState,
};
use crate::common::mode::parse_mode;
use crate::kcp::config::{KcpMode, KCP};
use crate::smux::conn::SmuxConfig;
use vstd::prelude::*;

verus! {

/// A connection is kept through all of its expiry time and all of its grace
/// time, and expires with the next millisecond.
pub proof fn law_connection_lives_its_time(last: u64, a: u64, s: u64, now: u64, b: bool)
    requires
        call_ensures(is_expired, (last, a, s, now), b),
    ensures
        now <= last + 1000 * a + 1000 * s ==> !b,
        now > last + 1000 * a + 1000 * s ==> b,
{
}

/// Each second more of expiry or of grace, whatever the other is, puts the
/// expiry off by a thousand milliseconds, and so does each second of later
/// activity.
pub proof fn law_each_second_counts(
    last: u64,
    a: u64,
    s: u64,
    now: u64,
    b: bool,
    more_grace: bool,
    more_expiry: bool,
    later: bool,
)
    requires
        last + 1000 <= u64::MAX,
        now + 1000 <= u64::MAX,
        a < u64::MAX,
        s < u64::MAX,
        call_ensures(is_expired, (last, a, s, now), b),
        call_ensures(is_expired, (last, a, (s + 1) as u64, (now + 1000) as u64), more_grace),
        call_ensures(is_expired, (last, (a + 1) as u64, s, (now + 1000) as u64), more_expiry),
        call_ensures(is_expired, ((last + 1000) as u64, a, s, (now + 1000) as u64), later),
    ensures
        more_grace == b,
        more_expiry == b,
        later == b,
{
}

/// The scavenger closes just the connections that are alive and out of their
/// time; a dead one is not its business.
pub proof fn law_scavenger_spares_the_living(
    dead: bool,
    last: u64,
    a: u64,
    s: u64,
    now: u64,
    close: bool,
)
    requires
        call_ensures(scavenge, (dead, last, a, s, now), close),
    ensures
        dead ==> !close,
        now <= last + 1000 * a + 1000 * s ==> !close,
        !dead && now > last + 1000 * a + 1000 * s ==> close,
{
}

/// A connection expires by its own last activity: the last datagram that
/// brought a packet.
pub proof fn law_activity_keeps_a_connection(
    c: &mut ClientConn,
    input: &[u8],
    recovered: Vec<Vec<u8>>,
    t: u64,
    packets: Vec<Vec<u8>>,
    d: &ClientConn,
    a: u64,
    s: u64,
    now: u64,
    b: bool,
)
    requires
        call_ensures(ClientConn::datagram, (c, input, recovered, t), packets),
        *d == *final(c),
        call_ensures(ClientConn::is_expired, (d, a, s, now), b),
    ensures
        packets@.len() > 0 && now <= t + 1000 * a + 1000 * s ==> !b,
        packets@.len() > 0 && now > t + 1000 * a + 1000 * s ==> b,
        packets@.len() == 0 ==> b == (now > old(c).last_activity + 1000 * a + 1000 * s),
        d.dead == old(c).dead,
        d.wait_send == old(c).wait_send,
{
}

/// Two picks in a row reach connections next to each other, and the first comes
/// behind the last.
pub proof fn law_turns_go_from_one_to_the_next(
    a: &mut RoundRobin,
    b: &mut RoundRobin,
    count: usize,
    i: usize,
    j: usize,
)
    requires
        count > 0,
        call_ensures(RoundRobin::pick, (a, count), i),
        *old(b) == *final(a),
        old(a).next < usize::MAX,
        call_ensures(RoundRobin::pick, (b, count), j),
    ensures
        i < count && j < count,
        i + 1 < count ==> j == i + 1,
        i + 1 == count ==> j == 0,
        old(a).next < count ==> i == old(a).next,
{
    let n = old(a).next as int;
    let c = count as int;
    vstd::arithmetic::div_mod::lemma_fundamental_div_mod(n, c);
    let q = n / c;
    let m = n % c;
    if m + 1 < c {
        assert(n + 1 == q * c + (m + 1)) by (nonlinear_arith)
            requires
                n == c * q + m,
        ;
        vstd::arithmetic::div_mod::lemma_fundamental_div_mod_converse(n + 1, c, q, m + 1);
    } else {
        assert(n + 1 == (q + 1) * c + 0) by (nonlinear_arith)
            requires
                n == c * q + m,
                m + 1 == c,
        ;
        vstd::arithmetic::div_mod::lemma_fundamental_div_mod_converse(n + 1, c, q + 1, 0);
    }
    if n < c {
        vstd::arithmetic::div_mod::lemma_small_mod(n as nat, c as nat);
    }
}

/// Opening a stream: a live connection is used and a dead one redialed first;
/// who cannot dial gets no stream; a stream that does not open is tried once
/// more, from the beginning, and then given up.
pub proof fn law_stream_is_tried_twice(s: OpenStep, ok: bool, t: OpenStep, begin: OpenStep)
    requires
        call_ensures(OpenStep::next, (s, ok), t),
        call_ensures(OpenStep::start, (), begin),
    ensures
        begin == (OpenStep::Probe { attempt: 0 }),
        s matches OpenStep::Probe { attempt } ==> (ok ==> t == (OpenStep::Open { attempt })) && (!ok
            ==> t == (OpenStep::Reconnect { attempt })),
        s matches OpenStep::Reconnect { attempt } ==> (ok ==> t == (OpenStep::Open { attempt })) && (
        !ok ==> t == OpenStep::GiveUp),
        s is Open && ok ==> t == OpenStep::Opened,
        s == (OpenStep::Open { attempt: 0 }) && !ok ==> t == (OpenStep::Probe { attempt: 1 }),
        s == (OpenStep::Open { attempt: 1 }) && !ok ==> t == OpenStep::GiveUp,
        s == OpenStep::Opened || s == OpenStep::GiveUp ==> t == s,
{
}

/// A datagram under error correction, told by the mark in its fifth and sixth
/// byte, lowest first: a data shard brings what stands behind eight bytes and
/// what it completes, a parity shard what it completes, a packet outside the
/// stream nothing, and any other is a packet.
pub proof fn law_marks_tell_datagrams_apart(
    input: &[u8],
    recovered: Vec<Vec<u8>>,
    packets: Vec<Vec<u8>>,
    front: Seq<u8>,
    low: u8,
    high: u8,
    back: Seq<u8>,
)
    requires
        call_ensures(client_packets, (true, input, recovered), packets),
        front.len() == 4,
        input@ == front + seq![low, high] + back,
    ensures
        ({
            let got = crate::wire::byte_rows(packets@);
            let whole = crate::wire::byte_rows(recovered@);
            &&& low == 0xf1 && high == 0 && back.len() > 2 ==> got == seq![back.skip(2)] + whole
            &&& low == 0xf1 && high == 0 && back.len() <= 2 ==> got == whole
            &&& low == 0xf2 && high == 0 ==> got == whole
            &&& low == 0xf3 && high == 0 ==> got.len() == 0
            &&& !((low == 0xf1 || low == 0xf2 || low == 0xf3) && high == 0) ==> got == seq![input@]
        }),
{
    assert(input@[4] == low && input@[5] == high);
    if back.len() >= 2 {
        assert(input@.skip(8) =~= back.skip(2));
    }
    assert(Seq::<Seq<u8>>::empty() + crate::wire::byte_rows(recovered@) =~= crate::wire::byte_rows(
        recovered@,
    ));
}

/// Without error correction a datagram of 24 bytes or more is a packet, and a
/// shorter one none; with it, one too short for a mark is none.
pub proof fn law_short_datagrams_bring_nothing(
    has_fec: bool,
    input: &[u8],
    recovered: Vec<Vec<u8>>,
    packets: Vec<Vec<u8>>,
)
    requires
        call_ensures(client_packets, (has_fec, input, recovered), packets),
    ensures
        has_fec && input@.len() < 6 ==> packets@.len() == 0,
        !has_fec && input@.len() < 24 ==> packets@.len() == 0,
        !has_fec && input@.len() >= 24 ==> packets@.len() == 1 && packets@[0]@ == input@,
{
    let got = crate::wire::byte_rows(packets@);
    assert(got.len() == packets@.len());
    if !has_fec && input@.len() >= 24 {
        assert(got == seq![input@]);
        assert(got[0] == packets@[0]@);
    }
}

/// Data goes out from its first byte to its last: the pieces follow each other
/// without a gap, and all but the last are as long as they may be, which is one
/// fragment less than the protocol allows, or one segment.
pub proof fn law_pieces_run_through_the_data(
    len: usize,
    mss: usize,
    max_frag: usize,
    bounds: Vec<(usize, usize)>,
)
    requires
        mss > 0,
        call_ensures(send_pieces, (len, mss, max_frag), bounds),
    ensures
        len == 0 ==> bounds@.len() == 0,
        len > 0 ==> bounds@.len() > 0 && bounds@[0].0 == 0 && bounds@[bounds@.len() - 1].1 == len,
        forall|i: int|
            0 <= i < bounds@.len() ==> (#[trigger] bounds@[i]).0 < bounds@[i].1 <= len,
        forall|i: int, j: int|
            0 <= i < bounds@.len() && j == i + 1 && j < bounds@.len() ==> (#[trigger] bounds@[i]).1
                == (#[trigger] bounds@[j]).0,
        forall|i: int|
            0 <= i < bounds@.len() - 1 && 1 < max_frag && (max_frag - 1) * mss <= usize::MAX ==> (
            #[trigger] bounds@[i]).1 - bounds@[i].0 == (max_frag - 1) * mss,
        forall|i: int|
            0 <= i < bounds@.len() - 1 && max_frag <= 1 ==> (#[trigger] bounds@[i]).1 - bounds@[i].0
                == mss,
        forall|i: int|
            0 <= i < bounds@.len() && 1 < max_frag ==> (#[trigger] bounds@[i]).1 - bounds@[i].0 <= (
            max_frag - 1) * mss,
        forall|i: int|
            0 <= i < bounds@.len() && max_frag <= 1 ==> (#[trigger] bounds@[i]).1 - bounds@[i].0
                <= mss,
{
    let piece = crate::client::conn::piece_len(mss as nat, max_frag as nat);
    assert(0 * mss == 0) by (nonlinear_arith);
    if max_frag > 1 {
        let f = max_frag - 1;
        assert(f * mss >= mss) by (nonlinear_arith)
            requires
                f >= 1,
                mss > 0,
        ;
    }
    assert(piece > 0);
    let n = bounds@.len();
    assert(n == crate::client::conn::piece_count(len as nat, piece));
    assert forall|i: int| 0 <= i < n implies {
        &&& (#[trigger] bounds@[i]).0 == i * piece
        &&& bounds@[i].0 < bounds@[i].1 <= len
        &&& i + 1 < n ==> bounds@[i].1 == (i + 1) * piece
        &&& i + 1 == n ==> bounds@[i].1 == len
        &&& bounds@[i].1 - bounds@[i].0 <= piece
        &&& (i + 1) * piece == i * piece + piece
    } by {
        crate::client::conn::lemma_piece_bounds(len as nat, piece, i as nat);
    }
    if n > 0 {
        assert(0 * piece == 0) by (nonlinear_arith);
        assert(bounds@[0].0 == 0 * piece);
        assert(bounds@[n - 1].1 == len);
    }
    if len > 0 {
        assert(n > 0) by {
            vstd::arithmetic::div_mod::lemma_div_pos_is_pos(len - 1, piece as int);
        }
    }
    assert forall|i: int, j: int|
        0 <= i < n && j == i + 1 && j < n implies (#[trigger] bounds@[i]).1 == (#[trigger] bounds@[j]).0 by {
        assert(bounds@[i].1 == (i + 1) * piece);
        assert(bounds@[j].0 == j * piece);
    }
}

/// The receiver takes in a datagram that has bytes, passes over an empty one,
/// and rests for 100 milliseconds where the socket failed.
pub proof fn law_receiver_goes_on(got: Option<usize>, s: ReceiverStep)
    requires
        call_ensures(received, (got,), s),
    ensures
        got matches Some(n) ==> (n > 0 ==> s == ReceiverStep::TakeIn(n)) && (n == 0 ==> s
            == ReceiverStep::Wait),
        got is None ==> s == ReceiverStep::Rest(100),
{
}

/// The sender comes back in one millisecond while data is on its way, and else
/// in two, or when the protocol asks for it sooner.
pub proof fn law_sender_comes_back_soon(c: &mut ClientConn, flush_ms: u64, wait_send: usize)
    requires
        call_ensures(ClientConn::flushed, (c, flush_ms, wait_send), ()),
    ensures
        old(c).outbound || wait_send > 0 ==> final(c).next_update == 1,
        !old(c).outbound && wait_send == 0 && flush_ms <= 1 ==> final(c).next_update == 1,
        !old(c).outbound && wait_send == 0 && flush_ms >= 2 ==> final(c).next_update == 2,
        final(c).wait_send == wait_send,
        final(c).outbound == old(c).outbound && final(c).fins == old(c).fins && final(c).dead
            == old(c).dead,
{
}

/// The end of a stream is announced once, and only where the data that held its
/// FIN frame was taken whole.
pub proof fn law_ends_are_announced_once(
    c: &mut ClientConn,
    d: &mut ClientConn,
    all_taken: bool,
    again_taken: bool,
    announced: Vec<u32>,
    again: Vec<u32>,
)
    requires
        call_ensures(ClientConn::handed_over, (c, all_taken), announced),
        *old(d) == *final(c),
        call_ensures(ClientConn::handed_over, (d, again_taken), again),
    ensures
        all_taken && old(c).outbound ==> announced@ == old(c).fins@,
        !all_taken || !old(c).outbound ==> announced@.len() == 0,
        again@.len() == 0,
{
}

/// Writers are woken while there is room in the send window; a pass follows at
/// once where a stream has data that the other side takes.
pub proof fn law_room_and_data_wake(
    c: &mut ClientConn,
    wait_send: usize,
    wake: bool,
    d: &mut ClientConn,
    streams: &Vec<StreamState>,
    again: bool,
)
    requires
        call_ensures(ClientConn::acked, (c, wait_send), wake),
        call_ensures(ClientConn::end_pass, (d, streams), again),
    ensures
        wake == (wait_send < old(c).snd_wnd),
        final(c).wait_send == wait_send,
        (exists|i: int|
            0 <= i < streams@.len() && (#[trigger] streams@[i]).pending_send > 0
                && streams@[i].peer_send_window > 0) ==> again && final(d).next_update == 1,
        (forall|i: int|
            0 <= i < streams@.len() ==> (#[trigger] streams@[i]).pending_send == 0
                || streams@[i].peer_send_window == 0) ==> !again && final(d).next_update == old(d).next_update,
{
}

/// What the command line sets stays; what it leaves open, the file sets.
pub proof fn law_command_line_goes_first(cli: Cli, cfg: Config, r: Cli)
    requires
        call_ensures(Cli::merge, (cli, cfg), r),
    ensures
        cli.localaddr is Some ==> r.localaddr == cli.localaddr,
        cli.localaddr is None ==> r.localaddr == cfg.localaddr,
        cli.remoteaddr is Some ==> r.remoteaddr == cli.remoteaddr,
        cli.remoteaddr is None ==> r.remoteaddr == cfg.remoteaddr,
        cli.key is Some ==> r.key == cli.key,
        cli.key is None ==> r.key == cfg.key,
        cli.crypt is Some ==> r.crypt == cli.crypt,
        cli.crypt is None ==> r.crypt == cfg.crypt,
        cli.mode is Some ==> r.mode == cli.mode,
        cli.mode is None ==> r.mode == cfg.mode,
        cli.conn is Some ==> r.conn == cli.conn,
        cli.conn is None ==> r.conn == cfg.conn,
        cli.autoexpire is Some ==> r.autoexpire == cli.autoexpire,
        cli.autoexpire is None ==> r.autoexpire == cfg.autoexpire,
        cli.scavengettl is Some ==> r.scavengettl == cli.scavengettl,
        cli.scavengettl is None ==> r.scavengettl == cfg.scavengettl,
        cli.mtu is Some ==> r.mtu == cli.mtu,
        cli.mtu is None ==> r.mtu == cfg.mtu,
        cli.ratelimit > 0 ==> r.ratelimit == cli.ratelimit,
        cli.ratelimit == 0 && cfg.ratelimit is Some ==> r.ratelimit == cfg.ratelimit->0,
        cli.ratelimit == 0 && cfg.ratelimit is None ==> r.ratelimit == 0,
        cli.sndwnd is Some ==> r.sndwnd == cli.sndwnd,
        cli.sndwnd is None ==> r.sndwnd == cfg.sndwnd,
        cli.rcvwnd is Some ==> r.rcvwnd == cli.rcvwnd,
        cli.rcvwnd is None ==> r.rcvwnd == cfg.rcvwnd,
        cli.datashard is Some ==> r.datashard == cli.datashard,
        cli.datashard is None ==> r.datashard == cfg.datashard,
        cli.parityshard is Some ==> r.parityshard == cli.parityshard,
        cli.parityshard is None ==> r.parityshard == cfg.parityshard,
        cli.dscp is Some ==> r.dscp == cli.dscp,
        cli.dscp is None ==> r.dscp == cfg.dscp,
        cli.nodelay is Some ==> r.nodelay == cli.nodelay,
        cli.nodelay is None ==> r.nodelay == cfg.nodelay,
        cli.interval is Some ==> r.interval == cli.interval,
        cli.interval is None ==> r.interval == cfg.interval,
        cli.resend is Some ==> r.resend == cli.resend,
        cli.resend is None ==> r.resend == cfg.resend,
        cli.nc is Some ==> r.nc == cli.nc,
        cli.nc is None ==> r.nc == cfg.nc,
        cli.sockbuf is Some ==> r.sockbuf == cli.sockbuf,
        cli.sockbuf is None ==> r.sockbuf == cfg.sockbuf,
        cli.smuxver is Some ==> r.smuxver == cli.smuxver,
        cli.smuxver is None ==> r.smuxver == cfg.smuxver,
        cli.smuxbuf is Some ==> r.smuxbuf == cli.smuxbuf,
        cli.smuxbuf is None ==> r.smuxbuf == cfg.smuxbuf,
        cli.streambuf is Some ==> r.streambuf == cli.streambuf,
        cli.streambuf is None ==> r.streambuf == cfg.streambuf,
        cli.framesize is Some ==> r.framesize == cli.framesize,
        cli.framesize is None ==> r.framesize == cfg.framesize,
        cli.keepalive is Some ==> r.keepalive == cli.keepalive,
        cli.keepalive is None ==> r.keepalive == cfg.keepalive,
        cli.closewait is Some ==> r.closewait == cli.closewait,
        cli.closewait is None ==> r.closewait == cfg.closewait,
        cli.snmplog is Some ==> r.snmplog == cli.snmplog,
        cli.snmplog is None ==> r.snmplog == cfg.snmplog,
        cli.snmpperiod is Some ==> r.snmpperiod == cli.snmpperiod,
        cli.snmpperiod is None ==> r.snmpperiod == cfg.snmpperiod,
        cli.log is Some ==> r.log == cli.log,
        cli.log is None ==> r.log == cfg.log,
        cli.pprof is Some ==> r.pprof == cli.pprof,
        cli.pprof is None ==> r.pprof == cfg.pprof,
        cli.qppcount is Some ==> r.qppcount == cli.qppcount,
        cli.qppcount is None ==> r.qppcount == cfg.qppcount,
        r.c == cli.c,
{
}

/// A switch that either has on is on, and one that neither has on is off.
pub proof fn law_switches_add_up(cli: Cli, cfg: Config, r: Cli)
    requires
        call_ensures(Cli::merge, (cli, cfg), r),
    ensures
        r.nocomp <==> cli.nocomp || cfg.nocomp == Some(true),
        r.acknodelay <==> cli.acknodelay || cfg.acknodelay == Some(true),
        r.quiet <==> cli.quiet || cfg.quiet == Some(true),
        r.tcp <==> cli.tcp || cfg.tcp == Some(true),
        r.qpp <==> cli.qpp || cfg.qpp == Some(true),
        !r.version_flag,
{
}

/// What is set is used as it is set.
pub proof fn law_set_options_are_used(cli: &Cli, r: Result<ClientOptions, OptionsError>)
    requires
        call_ensures(client_options, (cli,), r),
    ensures
        r is Ok == cli.remoteaddr is Some,
        r is Ok ==> r->Ok_0.remote_addr@ == cli.remoteaddr->0@,
        r is Ok && cli.localaddr is Some ==> r->Ok_0.local_addr@ == cli.localaddr->0@,
        r is Ok && cli.key is Some ==> r->Ok_0.key@ == cli.key->0@,
        r is Ok && cli.crypt is Some ==> r->Ok_0.session.crypt@ == cli.crypt->0@,
        r is Ok && cli.mode is Some ==> r->Ok_0.session.mode@ == cli.mode->0@,
        r is Ok && cli.mtu is Some ==> r->Ok_0.session.mtu == cli.mtu->0,
        r is Ok && cli.sndwnd is Some ==> r->Ok_0.session.sndwnd == cli.sndwnd->0,
        r is Ok && cli.rcvwnd is Some ==> r->Ok_0.session.rcvwnd == cli.rcvwnd->0,
        r is Ok && cli.datashard is Some ==> r->Ok_0.session.datashard == cli.datashard->0,
        r is Ok && cli.parityshard is Some ==> r->Ok_0.session.parityshard == cli.parityshard->0,
        r is Ok && cli.nodelay is Some ==> r->Ok_0.session.nodelay == cli.nodelay->0,
        r is Ok && cli.interval is Some ==> r->Ok_0.session.interval == cli.interval->0,
        r is Ok && cli.resend is Some ==> r->Ok_0.session.resend == cli.resend->0,
        r is Ok && cli.nc is Some ==> r->Ok_0.session.nc == cli.nc->0,
        r is Ok && cli.smuxver is Some ==> r->Ok_0.session.smuxver == cli.smuxver->0,
        r is Ok && cli.smuxbuf is Some ==> r->Ok_0.session.smuxbuf == cli.smuxbuf->0,
        r is Ok && cli.streambuf is Some ==> r->Ok_0.session.streambuf == cli.streambuf->0,
        r is Ok && cli.framesize is Some ==> r->Ok_0.session.framesize == cli.framesize->0,
        r is Ok && cli.keepalive is Some ==> r->Ok_0.session.keepalive == cli.keepalive->0,
        r is Ok && cli.sockbuf is Some ==> r->Ok_0.sockbuf == cli.sockbuf->0,
        r is Ok && cli.dscp is Some ==> r->Ok_0.dscp == cli.dscp->0,
        r is Ok && cli.autoexpire is Some ==> r->Ok_0.autoexpire == cli.autoexpire->0,
        r is Ok && cli.scavengettl is Some ==> r->Ok_0.scavengettl == cli.scavengettl->0,
        r is Ok && cli.closewait is Some ==> r->Ok_0.closewait == cli.closewait->0,
        r is Ok && cli.qppcount is Some ==> r->Ok_0.qpp_count == cli.qppcount->0,
        r is Ok && cli.conn is Some && cli.conn->0 > 0 ==> r->Ok_0.conn_count == cli.conn->0,
        r is Ok ==> r->Ok_0.session.acknodelay == cli.acknodelay,
        r is Ok ==> r->Ok_0.session.nocomp == cli.nocomp,
        r is Ok ==> r->Ok_0.session.ratelimit == cli.ratelimit,
        r is Ok ==> r->Ok_0.quiet == cli.quiet,
        r is Ok ==> r->Ok_0.tcp == cli.tcp,
        r is Ok ==> r->Ok_0.qpp == cli.qpp,
{
}

/// What is left open has the default of a client, and there is at least one
/// connection.
pub proof fn law_open_options_have_defaults(cli: &Cli, r: Result<ClientOptions, OptionsError>)
    requires
        call_ensures(client_options, (cli,), r),
        r is Ok,
    ensures
        cli.localaddr is None ==> r->Ok_0.local_addr@ == seq![':', '1', '2', '9', '4', '8'],
        cli.crypt is None ==> r->Ok_0.session.crypt@ == seq!['a', 'e', 's'],
        cli.mode is None ==> r->Ok_0.session.mode@ == seq!['f', 'a', 's', 't'],
        cli.mtu is None ==> r->Ok_0.session.mtu == 1350,
        cli.sndwnd is None ==> r->Ok_0.session.sndwnd == 128,
        cli.rcvwnd is None ==> r->Ok_0.session.rcvwnd == 512,
        cli.datashard is None ==> r->Ok_0.session.datashard == 10,
        cli.parityshard is None ==> r->Ok_0.session.parityshard == 3,
        cli.nodelay is None ==> r->Ok_0.session.nodelay == 0,
        cli.interval is None ==> r->Ok_0.session.interval == 50,
        cli.resend is None ==> r->Ok_0.session.resend == 0,
        cli.nc is None ==> r->Ok_0.session.nc == 0,
        cli.smuxver is None ==> r->Ok_0.session.smuxver == 2,
        cli.smuxbuf is None ==> r->Ok_0.session.smuxbuf == 4194304,
        cli.streambuf is None ==> r->Ok_0.session.streambuf == 2097152,
        cli.framesize is None ==> r->Ok_0.session.framesize == 8192,
        cli.keepalive is None ==> r->Ok_0.session.keepalive == 10,
        cli.sockbuf is None ==> r->Ok_0.sockbuf == 4194304,
        cli.dscp is None ==> r->Ok_0.dscp == 0,
        cli.autoexpire is None ==> r->Ok_0.autoexpire == 0,
        cli.scavengettl is None ==> r->Ok_0.scavengettl == 600,
        cli.closewait is None ==> r->Ok_0.closewait == 0,
        cli.qppcount is None ==> r->Ok_0.qpp_count == 61,
        r->Ok_0.conn_count > 0,
        cli.conn is None ==> r->Ok_0.conn_count == 1,
        cli.conn == Some(0u32) ==> r->Ok_0.conn_count == 1,
{
    reveal_strlit(":12948");
    reveal_strlit("aes");
    reveal_strlit("fast");
}

/// Statistics are logged where there is a path, every 60 seconds unless another
/// period is set; an empty path or a period of 0 turns them off.
pub proof fn law_statistics_are_logged_where_asked_for(cli: &Cli, p: SnmpPlan)
    requires
        call_ensures(snmp_plan, (cli,), p),
    ensures
        cli.snmplog is None ==> p is Off,
        cli.snmplog is Some && cli.snmplog->0@.len() == 0 ==> p is Disabled,
        cli.snmplog is Some && cli.snmpperiod == Some(0u64) ==> p is Disabled,
        cli.snmplog is Some && cli.snmplog->0@.len() > 0 && cli.snmpperiod is None ==> p is Log
            && p->path@ == cli.snmplog->0@ && p->period_secs == 60,
        cli.snmplog is Some && cli.snmplog->0@.len() > 0 && cli.snmpperiod is Some
            && cli.snmpperiod->0 > 0 ==> p is Log && p->path@ == cli.snmplog->0@ && p->period_secs
            == cli.snmpperiod->0,
{
}

/// A peer may be silent for three keepalive intervals. A DSCP value stands above
/// the two lowest bits of the byte that carries it.
pub proof fn law_derived_settings(
    cfg: &SessionConfig,
    s: SmuxConfig,
    dscp: u32,
    t: Option<u32>,
    sockbuf: u32,
    n: usize,
)
    requires
        call_ensures(smux_config, (cfg,), s),
        call_ensures(tos_of_dscp, (dscp,), t),
        call_ensures(client_sockbuf, (sockbuf,), n),
    ensures
        s.version == cfg.smuxver,
        s.max_receive_buffer == cfg.smuxbuf,
        s.max_stream_buffer == cfg.streambuf,
        s.max_frame_size == cfg.framesize,
        s.keepalive_interval == cfg.keepalive,
        cfg.keepalive + cfg.keepalive + cfg.keepalive <= u64::MAX ==> s.keepalive_timeout
            == cfg.keepalive + cfg.keepalive + cfg.keepalive,
        cfg.keepalive + cfg.keepalive + cfg.keepalive > u64::MAX ==> s.keepalive_timeout
            == u64::MAX,
        dscp == 0 ==> t is None,
        0 < dscp < 64 ==> t is Some && t->0 / 4 == dscp && t->0 % 4 == 0 && t->0 < 256,
        sockbuf == 0 ==> n == 2097152,
        sockbuf > 0 ==> n == sockbuf,
{
}

/// Rotating a log loses no copy but the oldest: each file is renamed to a name
/// that was freed just before, from the last down to the log itself; a log that
/// fits stays.
pub proof fn law_rotation_frees_each_name_first(
    path: &str,
    len: u64,
    max_size: u64,
    plan: Vec<(String, String)>,
)
    requires
        call_ensures(rotate_log_plan, (path, len, max_size), plan),
    ensures
        len <= max_size ==> plan@.len() == 0,
        len > max_size ==> {
            &&& plan@.len() == 5
            &&& plan@[0].1@ == path@ + seq!['.', '5']
            &&& forall|k: int, j: int|
                0 <= k && j == k + 1 && j < 5 ==> (#[trigger] plan@[j]).1@ == (#[trigger] plan@[k]).0@
            &&& plan@[0].0@ == path@ + seq!['.', '4']
            &&& plan@[1].0@ == path@ + seq!['.', '3']
            &&& plan@[2].0@ == path@ + seq!['.', '2']
            &&& plan@[3].0@ == path@ + seq!['.', '1']
            &&& plan@[4].0@ == path@
        },
{
    reveal_with_fuel(crate::text::decimal, 2);
    if len > max_size {
        assert(plan@[0].1@ =~= path@ + seq!['.', '5']);
        assert(plan@[0].0@ =~= path@ + seq!['.', '4']);
        assert(plan@[1].0@ =~= path@ + seq!['.', '3']);
        assert(plan@[2].0@ =~= path@ + seq!['.', '2']);
        assert(plan@[3].0@ =~= path@ + seq!['.', '1']);
        assert forall|k: int, j: int|
            0 <= k && j == k + 1 && j < 5 implies (#[trigger] plan@[j]).1@ == (#[trigger] plan@[k]).0@ by {
            if j == 4 {
                assert(plan@[3].0@ == crate::client::options::rotated(path@, 1));
            }
        }
    }
}

/// A datagram that is there already is taken in next; where there is none, or an
/// empty one, it is waited for.
pub proof fn law_receiver_takes_what_is_there(ready: Option<usize>, s: ReceiverStep)
    requires
        call_ensures(taken_in, (ready,), s),
    ensures
        ready is Some && ready->0 > 0 ==> s == ReceiverStep::TakeIn(ready->0),
        ready is None || ready->0 == 0 ==> s == ReceiverStep::Wait,
{
}

/// A connection begins alive and at its first look at the health, and codes and
/// paces as its session does.
pub proof fn law_connection_begins_alive(
    nocomp: bool,
    has_fec: bool,
    snd_wnd: u32,
    ratelimit: u32,
    now_ms: u64,
    now_ns: u64,
    c: ClientConn,
    s: KcptunSession,
    d: &mut ClientConn,
    t: &mut KcptunSession,
    data: &[u8],
    frames: Vec<u8>,
    other: Vec<u8>,
)
    requires
        call_ensures(ClientConn::new, (nocomp, has_fec, snd_wnd, ratelimit, now_ms, now_ns), c),
        call_ensures(KcptunSession::new, (nocomp, ratelimit, now_ns), s),
        old(d).codec@ == old(t)@,
        call_ensures(ClientConn::message, (d, data), frames),
        call_ensures(KcptunSession::take_in, (t, data), other),
    ensures
        !c.dead && !c.outbound && c.has_fec == has_fec && c.snd_wnd == snd_wnd && c.wait_send == 0,
        c.last_activity == now_ms,
        c.next_update == 2,
        c.health.left == 0,
        c.fins@.len() == 0,
        c.codec@ == s@ && c.codec.writer() == s.writer(),
        frames@ == other@,
        final(d).codec@ == final(t)@,
        final(d).last_activity == old(d).last_activity && final(d).dead == old(d).dead,
{
}

/// A pass of the sender begins with the health, as seen: a dead connection is
/// given up, a closed one left.
pub proof fn law_sender_begins_with_the_health(
    c: &mut ClientConn,
    closed: bool,
    seen: Seen,
    start: SenderStart,
    h: &mut HealthCheck,
    r: SessionHealth,
)
    requires
        call_ensures(ClientConn::begin_pass, (c, closed, seen), start),
        *old(h) == old(c).health,
        call_ensures(HealthCheck::pass, (h, seen), r),
    ensures
        old(c).dead || closed ==> start == SenderStart::End && final(c).dead == old(c).dead
            && final(c).health.left == old(c).health.left,
        !old(c).dead && !closed ==> {
            &&& r == SessionHealth::Dead ==> start == SenderStart::Dead && final(c).dead
            &&& r == SessionHealth::Keepalive ==> start == (SenderStart::Go { keepalive: true })
            &&& r == SessionHealth::Fine ==> start == (SenderStart::Go { keepalive: false })
            &&& r != SessionHealth::Dead ==> !final(c).dead
            &&& final(c).health.left == final(h).left
            &&& !final(c).outbound
        },
{
}

/// What a connection sends is what its session packs, and the streams at their
/// end go.
pub proof fn law_sender_packs_the_frames(
    c: &mut ClientConn,
    out: &[u8],
    fins: Vec<u32>,
    streams: &Vec<StreamState>,
    r: PassOut,
    s: &mut KcptunSession,
    packet: Option<Vec<u8>>,
    ids: Vec<u32>,
)
    requires
        call_ensures(ClientConn::pack, (c, out, fins, streams), r),
        old(s)@ == old(c).codec@,
        call_ensures(KcptunSession::packet, (s, out), packet),
        call_ensures(stale_streams, (streams,), ids),
    ensures
        r.remove@ == ids@,
        r.packet is Some == packet is Some,
        r.packet is Some ==> r.packet->0@ == packet->0@,
        final(c).codec@ == final(s)@,
        final(c).fins@ == fins@,
        final(c).outbound == (out@.len() > 0),
{
}

/// A connection that nobody listens to is given up; other failures are not held
/// against it. It is dead once anything says so, and stays so.
pub proof fn law_dead_connections_stay_dead(
    c: &mut ClientConn,
    r: SendResult,
    end: bool,
    d: &mut ClientConn,
    closed: bool,
    link_dead: bool,
    b: bool,
)
    requires
        call_ensures(ClientConn::sent, (c, r), end),
        call_ensures(ClientConn::is_dead, (d, closed, link_dead), b),
    ensures
        r == SendResult::Refused ==> end && final(c).dead,
        r != SendResult::Refused ==> !end && final(c).dead == old(c).dead,
        b == (old(d).dead || closed || link_dead),
        old(d).dead ==> final(d).dead,
        link_dead && !closed ==> final(d).dead,
        !link_dead ==> final(d).dead == old(d).dead,
{
}

/// The endpoint of a session has the windows and the largest datagram of its
/// options, and the timing of the profile that they name, or else their own.
pub proof fn law_endpoint_follows_the_options(cfg: &SessionConfig, k: KCP, name: &str, m: Option<KcpMode>)
    requires
        call_ensures(kcp_endpoint, (cfg,), k),
        name@ == cfg.mode@,
        call_ensures(parse_mode, (name,), m),
    ensures
        k.conv == 0xDEADBEEF && k.token == 0 && k.stream,
        k.mtu == cfg.mtu && k.snd_wnd == cfg.sndwnd && k.rcv_wnd == cfg.rcvwnd,
        m == Some(KcpMode::Normal) ==> k.nodelay == 0 && k.interval == 40,
        m == Some(KcpMode::Fast) ==> k.nodelay == 0 && k.interval == 30,
        m == Some(KcpMode::Fast2) ==> k.nodelay == 1 && k.interval == 20,
        m == Some(KcpMode::Fast3) ==> k.nodelay == 1 && k.interval == 10,
        m is Some ==> k.resend == 2 && k.nc == 1 && k.mode == m->0,
        m is None ==> k.nodelay == cfg.nodelay && k.resend == cfg.resend && k.nc == cfg.nc,
        m is None && cfg.interval >= 10 ==> k.interval == cfg.interval,
        m is None && cfg.interval < 10 ==> k.interval == 40,
{
}

} // verus!
