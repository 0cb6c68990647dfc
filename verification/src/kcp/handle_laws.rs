//! What builders, buffers and handles are for, stated over what calls take and
//! give.

use crate::kcp::buffers::{RawPacketQueue, ReadBuffer};
use crate::kcp::builder::{peer_conn, KcpListenerBuilder, KcpTcpListener};
use crate::kcp::config::{KcpConfig, KcpMode, KCP};
use crate::kcp::conn::{
    Burst, ConnError, ConnHandle, DialTransport, Halves, KcpConn, KcpConnBuilder, Step, WriteAll,
};
use crate::kcp::flush::FlushState;
use crate::kcp::listener::{AcceptError, KcpListener, KcpListenerLimits};
use crate::kcp::transport::{PeerQueue, RecvStep};
use bytes::Bytes;
use vstd::prelude::*;

verus! {

/// Two configurations that differ at most in the conversation, the token, the
/// largest datagram, the windows and the switches.
pub open spec fn same_timing(a: KcpConfig, b: KcpConfig) -> bool {
    a.mode == b.mode && a.nodelay == b.nodelay && a.interval == b.interval && a.resend == b.resend
        && a.nc == b.nc && a.datashard == b.datashard && a.parityshard == b.parityshard
}

/// Two configurations that differ at most in their timing and in error
/// correction.
pub open spec fn same_sizes(a: KcpConfig, b: KcpConfig) -> bool {
    a.conv == b.conv && a.token == b.token && a.mtu == b.mtu && a.sndwnd == b.sndwnd && a.rcvwnd
        == b.rcvwnd && a.stream == b.stream && a.acknodelay == b.acknodelay
}

/// Two builders that differ at most in their configuration.
pub open spec fn same_plan(a: KcpConnBuilder, b: KcpConnBuilder) -> bool {
    a.remote == b.remote && a.has_transport == b.has_transport && a.connected == b.connected
        && a.dial == b.dial && a.adopt_conv == b.adopt_conv && a.background_input
        == b.background_input && a.connect_timeout == b.connect_timeout
}

/// A setting of a connection changes what it names and nothing else.
pub proof fn law_connection_settings(
    a: KcpConnBuilder,
    b: KcpConnBuilder,
    n: u32,
    on: bool,
)
    ensures
        call_ensures(KcpConnBuilder::mtu, (a, n), b) ==> b.config.mtu == n && b.config.conv == a.config.conv && b.config.token == a.config.token && b.config.sndwnd == a.config.sndwnd && b.config.rcvwnd == a.config.rcvwnd && b.config.stream == a.config.stream && b.config.acknodelay == a.config.acknodelay && same_timing(a.config, b.config) && same_plan(a, b),
        call_ensures(KcpConnBuilder::sndwnd, (a, n), b) ==> b.config.sndwnd == n && b.config.conv == a.config.conv && b.config.token == a.config.token && b.config.mtu == a.config.mtu && b.config.rcvwnd == a.config.rcvwnd && b.config.stream == a.config.stream && b.config.acknodelay == a.config.acknodelay && same_timing(a.config, b.config) && same_plan(a, b),
        call_ensures(KcpConnBuilder::rcvwnd, (a, n), b) ==> b.config.rcvwnd == n && b.config.conv == a.config.conv && b.config.token == a.config.token && b.config.mtu == a.config.mtu && b.config.sndwnd == a.config.sndwnd && b.config.stream == a.config.stream && b.config.acknodelay == a.config.acknodelay && same_timing(a.config, b.config) && same_plan(a, b),
        call_ensures(KcpConnBuilder::stream, (a, on), b) ==> b.config.stream == on && b.config.conv == a.config.conv && b.config.token == a.config.token && b.config.mtu == a.config.mtu && b.config.sndwnd == a.config.sndwnd && b.config.rcvwnd == a.config.rcvwnd && b.config.acknodelay == a.config.acknodelay && same_timing(a.config, b.config) && same_plan(a, b),
        call_ensures(KcpConnBuilder::acknodelay, (a, on), b) ==> b.config.acknodelay == on && b.config.conv == a.config.conv && b.config.token == a.config.token && b.config.mtu == a.config.mtu && b.config.sndwnd == a.config.sndwnd && b.config.rcvwnd == a.config.rcvwnd && b.config.stream == a.config.stream && same_timing(a.config, b.config) && same_plan(a, b),
        call_ensures(KcpConnBuilder::conv, (a, n), b) ==> b.config.conv == n && b.config.token == a.config.token && b.config.mtu == a.config.mtu && b.config.sndwnd == a.config.sndwnd && b.config.rcvwnd == a.config.rcvwnd && b.config.stream == a.config.stream && b.config.acknodelay == a.config.acknodelay && same_timing(a.config, b.config) && same_plan(a, b),
        call_ensures(KcpConnBuilder::token, (a, n), b) ==> b.config.token == n && b.config.conv == a.config.conv && b.config.mtu == a.config.mtu && b.config.sndwnd == a.config.sndwnd && b.config.rcvwnd == a.config.rcvwnd && b.config.stream == a.config.stream && b.config.acknodelay == a.config.acknodelay && same_timing(a.config, b.config) && same_plan(a, b),
{
}

/// So do the settings of the timing and of error correction; an explicit timing
/// is that of the manual profile.
pub proof fn law_connection_settings_of_timing(
    a: KcpConnBuilder,
    b: KcpConnBuilder,
    m: KcpMode,
    c: KcpConfig,
    t: (u32, u32, u32, u32),
)
    ensures
        call_ensures(KcpConnBuilder::mode, (a, m), b) ==> b.config.mode == m && b.config.nodelay
            == a.config.nodelay && b.config.interval == a.config.interval && b.config.resend
            == a.config.resend && b.config.nc == a.config.nc && b.config.datashard
            == a.config.datashard && b.config.parityshard == a.config.parityshard && same_sizes(
            a.config,
            b.config,
        ) && same_plan(a, b),
        call_ensures(KcpConnBuilder::nodelay, (a, t.0, t.1, t.2, t.3), b) ==> b.config.mode
            == KcpMode::Manual && b.config.nodelay == t.0 && b.config.interval == t.1
            && b.config.resend == t.2 && b.config.nc == t.3 && b.config.datashard
            == a.config.datashard && b.config.parityshard == a.config.parityshard && same_sizes(
            a.config,
            b.config,
        ) && same_plan(a, b),
        call_ensures(KcpConnBuilder::fec, (a, t.0, t.1), b) ==> b.config.datashard == t.0
            && b.config.parityshard == t.1 && b.config.mode == a.config.mode && b.config.nodelay
            == a.config.nodelay && b.config.interval == a.config.interval && b.config.resend
            == a.config.resend && b.config.nc == a.config.nc && same_sizes(a.config, b.config)
            && same_plan(a, b),
        call_ensures(KcpConnBuilder::config, (a, c), b) ==> b.config == c && same_plan(a, b),
{
}

/// A setting of a listener changes what it names and nothing else.
pub proof fn law_listener_settings(
    a: KcpListenerBuilder,
    b: KcpListenerBuilder,
    n: u32,
    on: bool,
)
    ensures
        call_ensures(KcpListenerBuilder::mtu, (a, n), b) ==> b.config.mtu == n && b.config.conv == a.config.conv && b.config.token == a.config.token && b.config.sndwnd == a.config.sndwnd && b.config.rcvwnd == a.config.rcvwnd && b.config.stream == a.config.stream && b.config.acknodelay == a.config.acknodelay && same_timing(a.config, b.config) && a.limits == b.limits,
        call_ensures(KcpListenerBuilder::sndwnd, (a, n), b) ==> b.config.sndwnd == n && b.config.conv == a.config.conv && b.config.token == a.config.token && b.config.mtu == a.config.mtu && b.config.rcvwnd == a.config.rcvwnd && b.config.stream == a.config.stream && b.config.acknodelay == a.config.acknodelay && same_timing(a.config, b.config) && a.limits == b.limits,
        call_ensures(KcpListenerBuilder::rcvwnd, (a, n), b) ==> b.config.rcvwnd == n && b.config.conv == a.config.conv && b.config.token == a.config.token && b.config.mtu == a.config.mtu && b.config.sndwnd == a.config.sndwnd && b.config.stream == a.config.stream && b.config.acknodelay == a.config.acknodelay && same_timing(a.config, b.config) && a.limits == b.limits,
        call_ensures(KcpListenerBuilder::stream, (a, on), b) ==> b.config.stream == on && b.config.conv == a.config.conv && b.config.token == a.config.token && b.config.mtu == a.config.mtu && b.config.sndwnd == a.config.sndwnd && b.config.rcvwnd == a.config.rcvwnd && b.config.acknodelay == a.config.acknodelay && same_timing(a.config, b.config) && a.limits == b.limits,
        call_ensures(KcpListenerBuilder::acknodelay, (a, on), b) ==> b.config.acknodelay == on && b.config.conv == a.config.conv && b.config.token == a.config.token && b.config.mtu == a.config.mtu && b.config.sndwnd == a.config.sndwnd && b.config.rcvwnd == a.config.rcvwnd && b.config.stream == a.config.stream && same_timing(a.config, b.config) && a.limits == b.limits,
        call_ensures(KcpListenerBuilder::conv, (a, n), b) ==> b.config.conv == n && b.config.token == a.config.token && b.config.mtu == a.config.mtu && b.config.sndwnd == a.config.sndwnd && b.config.rcvwnd == a.config.rcvwnd && b.config.stream == a.config.stream && b.config.acknodelay == a.config.acknodelay && same_timing(a.config, b.config) && a.limits == b.limits,
        call_ensures(KcpListenerBuilder::token, (a, n), b) ==> b.config.token == n && b.config.conv == a.config.conv && b.config.mtu == a.config.mtu && b.config.sndwnd == a.config.sndwnd && b.config.rcvwnd == a.config.rcvwnd && b.config.stream == a.config.stream && b.config.acknodelay == a.config.acknodelay && same_timing(a.config, b.config) && a.limits == b.limits,
{
}

/// So do the settings of the timing and of error correction; an explicit timing
/// is that of the manual profile.
pub proof fn law_listener_settings_of_timing(
    a: KcpListenerBuilder,
    b: KcpListenerBuilder,
    m: KcpMode,
    c: KcpConfig,
    t: (u32, u32, u32, u32),
)
    ensures
        call_ensures(KcpListenerBuilder::mode, (a, m), b) ==> b.config.mode == m && b.config.nodelay
            == a.config.nodelay && b.config.interval == a.config.interval && b.config.resend
            == a.config.resend && b.config.nc == a.config.nc && b.config.datashard
            == a.config.datashard && b.config.parityshard == a.config.parityshard && same_sizes(
            a.config,
            b.config,
        ) && a.limits == b.limits,
        call_ensures(KcpListenerBuilder::nodelay, (a, t.0, t.1, t.2, t.3), b) ==> b.config.mode
            == KcpMode::Manual && b.config.nodelay == t.0 && b.config.interval == t.1
            && b.config.resend == t.2 && b.config.nc == t.3 && b.config.datashard
            == a.config.datashard && b.config.parityshard == a.config.parityshard && same_sizes(
            a.config,
            b.config,
        ) && a.limits == b.limits,
        call_ensures(KcpListenerBuilder::fec, (a, t.0, t.1), b) ==> b.config.datashard == t.0
            && b.config.parityshard == t.1 && b.config.mode == a.config.mode && b.config.nodelay
            == a.config.nodelay && b.config.interval == a.config.interval && b.config.resend
            == a.config.resend && b.config.nc == a.config.nc && same_sizes(a.config, b.config)
            && a.limits == b.limits,
        call_ensures(KcpListenerBuilder::config, (a, c), b) ==> b.config == c && a.limits == b.limits,
{
}

/// The plan of a connection is changed where it is named, and nowhere else.
pub proof fn law_connection_plan(a: KcpConnBuilder, b: KcpConnBuilder, on: bool, ms: u64, n: usize)
    ensures
        call_ensures(KcpConnBuilder::adopt_conv, (a, on), b) ==> b.adopt_conv == on && b.connected
            == a.connected && b.background_input == a.background_input && b.connect_timeout
            == a.connect_timeout && b.config == a.config && b.remote == a.remote,
        call_ensures(KcpConnBuilder::connected, (a, on), b) ==> b.connected == on && b.adopt_conv
            == a.adopt_conv && b.background_input == a.background_input && b.connect_timeout
            == a.connect_timeout && b.config == a.config && b.remote == a.remote,
        call_ensures(KcpConnBuilder::background_input, (a, on), b) ==> b.background_input == on
            && b.connected == a.connected && b.adopt_conv == a.adopt_conv && b.connect_timeout
            == a.connect_timeout && b.config == a.config && b.remote == a.remote,
        call_ensures(KcpConnBuilder::connect_timeout, (a, ms), b) ==> b.connect_timeout == Some(ms)
            && b.connected == a.connected && b.adopt_conv == a.adopt_conv && b.background_input
            == a.background_input && b.config == a.config && b.remote == a.remote,
        call_ensures(KcpConnBuilder::buffer_size, (a, n), b) ==> b == a,
{
}

/// Waiting for the peer takes a connection that reads its transport itself.
pub proof fn law_waiting_takes_background_input(
    b: &KcpConnBuilder,
    r: Result<Option<u64>, ConnError>,
)
    requires
        call_ensures(KcpConnBuilder::connect_wait, (b,), r),
    ensures
        b.connect_timeout is None ==> r == Ok::<Option<u64>, ConnError>(None),
        b.connect_timeout is Some && b.background_input ==> r == Ok::<Option<u64>, ConnError>(
            b.connect_timeout,
        ),
        b.connect_timeout is Some && !b.background_input ==> r == Err::<Option<u64>, ConnError>(
            ConnError::InvalidInput,
        ),
{
}

/// What builders begin with: a client dials, over datagrams or segments, and
/// sends to its peer alone; a peer of a listener shares the socket and adopts the
/// conversation that it is spoken to under; one that was accepted has a socket of
/// its own. All have the default settings unless they are given others.
pub proof fn law_builders_begin(
    addr: &str,
    udp: KcpConnBuilder,
    tcp: KcpConnBuilder,
    given: KcpConnBuilder,
    config: KcpConfig,
    peer: KcpConnBuilder,
    l: &KcpTcpListener,
    accepted: KcpConnBuilder,
)
    requires
        call_ensures(KcpConn::connect, (addr,), udp),
        call_ensures(KcpConn::connect_tcp, (addr,), tcp),
        call_ensures(KcpConn::with_transport, (addr,), given),
        call_ensures(peer_conn, (config, addr), peer),
        call_ensures(KcpTcpListener::accepted, (l, addr), accepted),
    ensures
        udp.dial == DialTransport::Udp && !udp.has_transport && udp.connected,
        tcp.dial == DialTransport::TcpRaw && !tcp.has_transport && tcp.connected,
        given.has_transport && !given.connected,
        peer.has_transport && !peer.connected && peer.adopt_conv && peer.config == config,
        accepted.has_transport && accepted.connected && !accepted.adopt_conv && accepted.config
            == l.config,
        !udp.adopt_conv && !tcp.adopt_conv && !given.adopt_conv,
        udp.background_input && tcp.background_input && given.background_input
            && peer.background_input && accepted.background_input,
        udp.connect_timeout is None && tcp.connect_timeout is None && given.connect_timeout is None
            && peer.connect_timeout is None && accepted.connect_timeout is None,
        udp.remote is Some && udp.remote->0@ == addr@,
        tcp.remote is Some && tcp.remote->0@ == addr@,
        given.remote is Some && given.remote->0@ == addr@,
        peer.remote is Some && peer.remote->0@ == addr@,
        accepted.remote is Some && accepted.remote->0@ == addr@,
        udp.config == tcp.config && udp.config == given.config,
        udp.config.conv == 0xDEADBEEF && udp.config.mtu == 1350 && udp.config.sndwnd == 128
            && udp.config.rcvwnd == 128 && udp.config.mode == KcpMode::Fast3 && udp.config.stream
            && udp.config.acknodelay && udp.config.datashard == 0 && udp.config.parityshard == 0,
{
}

/// A listener is made with the limits that were set, or with none, and without
/// sessions.
pub proof fn law_listener_begins_empty(
    fresh: KcpListenerBuilder,
    a: KcpListenerBuilder,
    limits: KcpListenerLimits,
    b: KcpListenerBuilder,
    l: KcpListener,
    unlimited: KcpListener,
)
    requires
        call_ensures(KcpListenerBuilder::new, (), fresh),
        call_ensures(KcpListenerBuilder::limits, (a, limits), b),
        call_ensures(KcpListenerBuilder::build, (b,), l),
        call_ensures(KcpListenerBuilder::build, (fresh,), unlimited),
    ensures
        b.config == a.config,
        l@.limits == limits,
        l@.sessions.len() == 0 && l@.pending.len() == 0 && l@.build_work.len() == 0 && !l@.closed,
        unlimited@.limits.max_sessions == 0 && unlimited@.limits.max_pending_accepts == 0
            && unlimited@.limits.max_peer_queue_packets == 0
            && unlimited@.limits.max_builds_per_wakeup == 0
            && unlimited@.limits.max_build_time_per_wakeup == 0
            && unlimited@.limits.max_drain_packets == 0 && unlimited@.limits.building_timeout == 0
            && unlimited@.limits.pending_timeout == 0,
{
}

/// A listener over segments accepts until it is closed, or the time is up, and
/// gives its last error once.
pub proof fn law_segment_listener_accepts_until_closed(
    config: KcpConfig,
    fresh: KcpTcpListener,
    begin: Result<(), AcceptError>,
    c: &mut KcpTcpListener,
    end: Result<(), AcceptError>,
    timed_out: bool,
    t: Result<(), AcceptError>,
    f: &mut KcpTcpListener,
    e: std::io::Error,
    g: &mut KcpTcpListener,
    first: Option<std::io::Error>,
    h: &mut KcpTcpListener,
    second: Option<std::io::Error>,
)
    requires
        call_ensures(KcpTcpListener::new, (config,), fresh),
        call_ensures(KcpTcpListener::accept, (&fresh,), begin),
        call_ensures(KcpTcpListener::accept_timeout, (&fresh, timed_out), t),
        call_ensures(KcpTcpListener::close, (c,), ()),
        call_ensures(KcpTcpListener::accept, (&*final(c),), end),
        call_ensures(KcpTcpListener::failed, (f, e), ()),
        *old(g) == *final(f),
        call_ensures(KcpTcpListener::take_error, (g,), first),
        *old(h) == *final(g),
        call_ensures(KcpTcpListener::take_error, (h,), second),
    ensures
        begin is Ok,
        fresh.config == config,
        timed_out ==> t == Err::<(), AcceptError>(AcceptError::TimedOut),
        !timed_out ==> t is Ok,
        end == Err::<(), AcceptError>(AcceptError::ConnectionAborted),
        final(c).config == old(c).config,
        first == Some(e),
        second is None,
        final(f).closed == old(f).closed,
{
}

/// Error correction takes shards of both kinds. The timing in force asks for no
/// delay in the two fastest profiles, or where the explicit one does.
pub proof fn law_switches_of_a_configuration(c: &KcpConfig, fec: bool, nodelay: bool)
    requires
        call_ensures(KcpConfig::fec_enabled, (c,), fec),
        call_ensures(KcpConfig::nodelay_enabled, (c,), nodelay),
    ensures
        fec == (c.datashard > 0 && c.parityshard > 0),
        c.mode == KcpMode::Fast2 || c.mode == KcpMode::Fast3 ==> nodelay,
        c.mode == KcpMode::Normal || c.mode == KcpMode::Fast ==> !nodelay,
        c.mode == KcpMode::Manual ==> nodelay == (c.nodelay != 0),
{
}

/// An endpoint begins with the fastest profile, and its timing is what it is set
/// to.
pub proof fn law_endpoint_timing(
    conv: u32,
    token: u32,
    k: KCP,
    a: &mut KCP,
    b: &mut KCP,
    m: KcpMode,
    t: (u32, u32, u32, u32),
)
    requires
        call_ensures(KCP::new, (conv, token), k),
        call_ensures(KCP::set_nodelay, (a, t.0, t.1, t.2, t.3), ()),
        call_ensures(KCP::set_mode, (b, m, t.0, t.1, t.2, t.3), ()),
    ensures
        k.conv == conv && k.token == token && k.nodelay == 1 && k.interval == 10 && k.resend == 2
            && k.nc == 1 && k.mtu == 1350 && k.snd_wnd == 128 && k.rcv_wnd == 128 && k.stream,
        final(a).nodelay == t.0 && final(a).interval == t.1 && final(a).resend == t.2
            && final(a).nc == t.3 && final(a).mode == KcpMode::Manual,
        final(b).nodelay == t.0 && final(b).interval == t.1 && final(b).resend == t.2
            && final(b).nc == t.3 && final(b).mode == m,
        final(a).conv == old(a).conv && final(a).mtu == old(a).mtu && final(a).snd_wnd
            == old(a).snd_wnd && final(a).rcv_wnd == old(a).rcv_wnd && final(a).stream
            == old(a).stream,
{
}

/// Messages that wait come out as they went in: behind the others or before them.
pub proof fn law_messages_wait_in_order(
    b: &mut ReadBuffer,
    m: Bytes,
    data: Vec<Bytes>,
    r: Option<Bytes>,
    n: usize,
    e: bool,
)
    ensures
        call_ensures(ReadBuffer::push_back, (b, m), ()) ==> final(b).messages() == old(b).messages() + seq![crate::kcp::buffers::contents(m)],
        call_ensures(ReadBuffer::push_front, (b, m), ()) ==> final(b).messages() == seq![
            crate::kcp::buffers::contents(m),
        ] + old(b).messages(),
        call_ensures(ReadBuffer::extend, (b, data), ()) ==> final(b).messages().len() == old(b).messages().len() + data@.len() && final(b).messages().take(
            old(b).messages().len() as int,
        ) == old(b).messages() && forall|i: int|
            0 <= i < data@.len() ==> final(b).messages()[old(b).messages().len() + i]
                == crate::kcp::buffers::contents(#[trigger] data@[i]),
        call_ensures(ReadBuffer::pop_front, (b,), r) ==> r is Some == (old(b).messages().len() > 0)
            && (r is Some ==> old(b).messages() == seq![crate::kcp::buffers::contents(r->0)]
            + final(b).messages()) && (r is None ==> final(b).messages() == old(b).messages()),
        call_ensures(ReadBuffer::clear, (b,), ()) ==> final(b).messages().len() == 0,
        call_ensures(ReadBuffer::len, (&*old(b),), n) ==> n == old(b).messages().len(),
        call_ensures(ReadBuffer::is_empty, (&*old(b),), e) ==> e == (old(b).messages().len() == 0),
{
    let ms = old(b).messages();
    let c = crate::kcp::buffers::contents(m);
    assert(ms.push(c) =~= ms + seq![c]);
    let all = crate::kcp::buffers::all_contents(data@);
    assert(all.len() == data@.len());
    if call_ensures(ReadBuffer::extend, (b, data), ()) {
        assert(final(b).messages().take(ms.len() as int) =~= ms);
        assert forall|i: int| 0 <= i < data@.len() implies final(b).messages()[ms.len() + i]
            == crate::kcp::buffers::contents(#[trigger] data@[i]) by {
            assert(all[i] == crate::kcp::buffers::contents(data@[i]));
        }
    }
    if ms.len() > 0 {
        assert(ms =~= seq![ms[0]] + ms.skip(1));
    }
}

/// The bytes of a buffer are those of its messages, each counted once.
pub proof fn law_bytes_are_counted(
    a: &ReadBuffer,
    n: usize,
    b: &mut ReadBuffer,
    m: Bytes,
    k: usize,
)
    requires
        *old(b) == *a,
        call_ensures(ReadBuffer::bytes, (a,), n),
        call_ensures(ReadBuffer::push_back, (b, m), ()),
        call_ensures(ReadBuffer::bytes, (&*final(b),), k),
    ensures
        k - n == crate::kcp::buffers::contents(m).len(),
        a.messages().len() == 0 ==> n == 0,
{
    crate::kcp::buffers::lemma_flat_push(a.messages(), crate::kcp::buffers::contents(m));
}

/// A look at a buffer shows the front of its first message, as much as fits, and
/// takes nothing.
pub proof fn law_look_shows_the_first_message(
    a: &ReadBuffer,
    buf: &mut [u8],
    r: Option<usize>,
    m: Seq<u8>,
)
    requires
        call_ensures(ReadBuffer::peek, (a, buf), r),
    ensures
        a.messages().len() == 0 ==> r is None && final(buf)@ == old(buf)@,
        a.messages().len() > 0 && a.messages()[0] == m ==> {
            &&& r is Some
            &&& r->0 <= m.len() && r->0 <= old(buf)@.len()
            &&& r->0 == m.len() || r->0 == old(buf)@.len()
            &&& final(buf)@ == m.take(r->0 as int) + old(buf)@.skip(r->0 as int)
        },
{
    let b = old(buf)@;
    assert(b.len() == old(buf).len());
    if m.len() >= b.len() {
        assert(m.take(b.len() as int) + b.skip(b.len() as int) =~= m.take(b.len() as int));
    } else {
        assert(m.take(m.len() as int) =~= m);
    }
}

/// Storage of more than 256 slots is not kept, whatever the allocator gave.
pub proof fn law_large_storage_is_not_kept(
    q: &mut RawPacketQueue,
    batch: Vec<Bytes>,
    n: usize,
    e: bool,
    fresh: RawPacketQueue,
)
    requires
        call_ensures(RawPacketQueue::recycle, (q, batch), ()),
        call_ensures(RawPacketQueue::spare_capacity, (&*final(q),), n),
        call_ensures(RawPacketQueue::is_empty, (&*final(q),), e),
        call_ensures(RawPacketQueue::new, (), fresh),
    ensures
        n <= 256,
        batch@.len() > 256 ==> n == old(q).spare_slots(),
        n == old(q).spare_slots() || n >= batch@.len(),
        final(q).packets() == old(q).packets(),
        e == (old(q).packets().len() == 0),
        fresh.packets().len() == 0 && fresh.spare_slots() == 0,
{
}

/// The flush loop is woken after a burst unless the input loop sent everything
/// by itself.
pub proof fn law_flush_is_woken_for_what_is_left(inline: bool, sent: bool, pending: bool, b: bool)
    requires
        call_ensures(KcpConn::wakes_flush, (inline, sent, pending), b),
    ensures
        !b ==> inline && sent && !pending,
        inline && sent && !pending ==> !b,
{
}

/// A connection waits for its first packet: its time being up closes it, and
/// comes before all else.
pub proof fn law_connection_is_made_by_the_first_packet(
    c: &mut KcpConn,
    timed_out: bool,
    s: Step,
)
    requires
        call_ensures(KcpConn::connect_step, (c, timed_out), s),
    ensures
        timed_out ==> s == Step::Fail(ConnError::TimedOut) && final(c).closed,
        !timed_out && old(c).first_inbound ==> s == Step::Ready,
        !timed_out && !old(c).first_inbound && old(c).closed ==> s == Step::Fail(
            ConnError::NotConnected,
        ),
        !timed_out && !old(c).first_inbound && !old(c).closed ==> s == Step::Wait(None),
        !timed_out ==> *final(c) == *old(c),
{
}

/// What the protocol has unacknowledged is looked at after each write and each
/// flush; writers are woken while it is less than the window.
pub proof fn law_window_is_looked_at(
    w: &mut KcpConn,
    sent: usize,
    queued: usize,
    now: u64,
    notify: bool,
    m: &mut KcpConn,
    wake: bool,
    relieved: bool,
)
    requires
        call_ensures(KcpConn::wrote, (w, sent, queued, now), notify),
        call_ensures(KcpConn::maintained, (m, queued), wake),
        call_ensures(KcpConn::backpressure_relieved, (&*final(m),), relieved),
    ensures
        notify == (sent > 0),
        final(w).wait_send == queued,
        sent > 0 ==> final(w).last_activity_ms == now && final(w).write_deadline is None,
        sent == 0 ==> final(w).last_activity_ms == old(w).last_activity_ms
            && final(w).write_deadline == old(w).write_deadline,
        final(m).wait_send == queued,
        wake == (queued < old(m).snd_wnd),
        relieved == wake,
{
}

/// A connection is closed once; what is closed says so.
pub proof fn law_connection_is_closed_once(
    a: &mut KcpConn,
    first: bool,
    b: &mut KcpConn,
    second: bool,
    is: bool,
)
    requires
        call_ensures(KcpConn::close, (a,), first),
        *old(b) == *final(a),
        call_ensures(KcpConn::close, (b,), second),
        call_ensures(KcpConn::is_closed, (&*final(a),), is),
    ensures
        first == !old(a).closed,
        !second,
        is,
        final(a).read_closed == old(a).read_closed && final(a).write_closed == old(a).write_closed,
{
}

/// The settings of a connection read as they were set.
pub proof fn law_settings_read_as_set(
    c: &mut KcpConn,
    ms: Option<u64>,
    d: &mut KcpConn,
    on: bool,
    e: &mut KcpConn,
    mtu: u32,
    f: &mut KcpConn,
    g: &mut KcpConn,
    r: Option<u64>,
    w: Option<u64>,
)
    requires
        call_ensures(KcpConn::set_read_timeout, (c, ms), ()),
        call_ensures(KcpConn::read_timeout, (&*final(c),), r),
        call_ensures(KcpConn::set_write_timeout, (d, ms), ()),
        call_ensures(KcpConn::write_timeout, (&*final(d),), w),
        call_ensures(KcpConn::set_kcp_mtu, (e, mtu), ()),
        call_ensures(KcpConn::set_kcp_stream_mode, (f, on), ()),
        call_ensures(KcpConn::set_kcp_acknodelay, (g, on), ()),
    ensures
        r == ms && final(c).write_timeout == old(c).write_timeout,
        w == ms && final(d).read_timeout == old(d).read_timeout,
        final(e).kcp.mtu == mtu && final(e).kcp.snd_wnd == old(e).kcp.snd_wnd,
        final(f).kcp.stream == on && final(f).kcp.mtu == old(f).kcp.mtu,
        final(g).acknodelay == on && final(g).nodelay == old(g).nodelay,
{
}

/// An error of the transport is given once. There is something to read where a
/// message was moved ahead or is complete.
pub proof fn law_transport_error_is_given_once(
    a: &mut KcpConn,
    first: Option<std::io::Error>,
    b: &mut KcpConn,
    second: Option<std::io::Error>,
    has_message: bool,
    has: bool,
)
    requires
        call_ensures(KcpConn::take_error, (a,), first),
        *old(b) == *final(a),
        call_ensures(KcpConn::take_error, (b,), second),
        call_ensures(KcpConn::has_read_data, (&*final(a), has_message), has),
    ensures
        first == old(a).last_error,
        second is None,
        has == (has_message || old(a).read_buf.messages().len() > 0),
{
}

/// A write begins with its first byte. One whose wait ran out goes on where there
/// is room by then, and fails else.
pub proof fn law_late_room_is_room(fresh: WriteAll, w: &mut WriteAll, c: &KcpConn, s: Step)
    requires
        call_ensures(WriteAll::start, (), fresh),
        call_ensures(WriteAll::wait_ran_out, (w, c), s),
    ensures
        fresh.offset == 0 && fresh.blocked_deadline is None,
        c.wait_send < c.snd_wnd ==> s == Step::Ready && final(w).blocked_deadline is None,
        c.wait_send >= c.snd_wnd ==> s == Step::Fail(ConnError::TimedOut),
        final(w).offset == old(w).offset,
{
}

/// A burst begins with the datagram that was waited for. The flush loop begins by
/// driving the protocol at once.
pub proof fn law_burst_begins_with_one(b: Burst, end: Option<usize>, f: FlushState, now: u64)
    requires
        call_ensures(Burst::start, (), b),
        call_ensures(Burst::pool_end, (&b,), end),
        call_ensures(FlushState::start, (now,), f),
    ensures
        b.len == 1,
        end == Some(17usize),
        f.next_deadline == Some(now),
        !f.idle_candidate,
{
}

/// Of the halves of a connection, the last that goes closes it; of its handles,
/// the one that it was made with.
pub proof fn law_last_half_closes(
    both: Halves,
    a: &mut Halves,
    first: bool,
    b: &mut Halves,
    second: bool,
    owner: ConnHandle,
    copy: ConnHandle,
    c: &mut KcpConn,
    by_owner: bool,
    d: &mut KcpConn,
    by_copy: bool,
    split: Halves,
)
    requires
        call_ensures(Halves::both, (), both),
        *old(a) == both,
        call_ensures(Halves::drop_one, (a,), first),
        *old(b) == *final(a),
        call_ensures(Halves::drop_one, (b,), second),
        call_ensures(ConnHandle::owner, (), owner),
        call_ensures(ConnHandle::copy, (&owner,), copy),
        call_ensures(ConnHandle::dropped, (owner, c), by_owner),
        call_ensures(ConnHandle::dropped, (copy, d), by_copy),
        call_ensures(ConnHandle::into_split, (owner,), split),
    ensures
        !first && second,
        by_owner == !old(c).closed && final(c).closed,
        !by_copy && final(d).closed == old(d).closed,
        split == both,
{
}

/// A queue of a peer begins open and empty, with its bound; closing it loses
/// nothing, and its packets are exchanged for buffers.
pub proof fn law_peer_queue_begins_empty(
    max: usize,
    q: PeerQueue,
    c: &mut PeerQueue,
    closed: bool,
    r: &mut PeerQueue,
    buf: &mut Vec<u8>,
    s: RecvStep,
    p: Seq<u8>,
    rest: Seq<Seq<u8>>,
)
    requires
        call_ensures(PeerQueue::new, (max,), q),
        call_ensures(PeerQueue::mark_closed, (c,), ()),
        call_ensures(PeerQueue::is_closed, (&*final(c),), closed),
        call_ensures(PeerQueue::recv_vec_step, (r, buf), s),
    ensures
        q@.packets.len() == 0 && q@.max_packets == max && !q@.closed && q@.drops == 0,
        closed,
        final(c)@.packets == old(c)@.packets,
        old(r)@.packets == seq![p] + rest && p.len() <= usize::MAX ==> s is Ready && s->Ready_0
            == p.len() && final(buf)@ == p && final(r)@.packets == rest,
        old(r)@.packets.len() == 0 && old(r)@.closed ==> s == RecvStep::Closed,
        old(r)@.packets.len() == 0 && !old(r)@.closed ==> s == RecvStep::Wait,
{
    if old(r)@.packets == seq![p] + rest {
        assert(old(r)@.packets[0] == p);
        assert((seq![p] + rest).skip(1) =~= rest);
    }
}

/// A listener is closed once, and counts what it holds; a wakeup begins with
/// nobody to wake.
pub proof fn law_listener_is_closed_once(
    a: &mut KcpListener,
    first: bool,
    b: &mut KcpListener,
    second: bool,
    is: bool,
    sessions: usize,
    pending: usize,
    left: u64,
    w: &mut KcpListener,
)
    requires
        call_ensures(KcpListener::close, (a,), first),
        *old(b) == *final(a),
        call_ensures(KcpListener::close, (b,), second),
        call_ensures(KcpListener::is_closed, (&*final(a),), is),
        call_ensures(KcpListener::session_count, (&*final(a),), sessions),
        call_ensures(KcpListener::pending_count, (&*final(a),), pending),
        call_ensures(KcpListener::generations_left, (&*final(a),), left),
        call_ensures(KcpListener::begin_wakeup, (w,), ()),
    ensures
        first == !old(a)@.closed,
        !second,
        is,
        sessions == old(a)@.sessions.len(),
        pending == old(a)@.pending.len(),
        left + old(a)@.next_generation == u64::MAX,
        final(w)@.affected.len() == 0,
        final(w)@.sessions == old(w)@.sessions && final(w)@.queues == old(w)@.queues
            && final(w)@.pending == old(w)@.pending,
{
}

} // verus!
