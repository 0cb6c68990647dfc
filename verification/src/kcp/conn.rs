//! A connection: what it is made with, what it holds, and what reading, writing
//! and sending come to in each state of it.
//!
//! Times are milliseconds on a clock that only goes forward. Waiting, waking and
//! the protocol itself are the caller's part: each step takes what the protocol
//! says as plain values and returns what to do.

use crate::kcp::buffers::{read_available, RawPacketQueue, ReadBuffer};
use crate::kcp::config::{KcpConfig, KcpMode, KCP};
use crate::kcp::inbound::ConvState;
use bytes::Bytes;
use std::collections::VecDeque;
use vstd::prelude::*;
use vstd::string::*;

verus! {

/// Most bytes that one call hands to the protocol.
pub const KCP_SEND_CHUNK: usize = 65536;

/// Slots by which a burst of datagrams grows.
pub const INPUT_BATCH_GROW: usize = 16;

/// Datagrams that are taken in at a time.
pub const MAX_INPUT_BATCH: usize = 64;

/// How a connection is dialed.
#[derive(Clone, Copy, Debug, PartialEq, Eq, Structural)]
pub enum DialTransport {
    Udp,
    TcpRaw,
}

/// What an operation on a connection fails with.
#[derive(Clone, Copy, Debug, PartialEq, Eq, Structural)]
pub enum ConnError {
    /// There is no remote address, or settings contradict each other.
    InvalidInput,
    /// The time is up.
    TimedOut,
    /// The connection was closed while it was being made.
    NotConnected,
    /// Nothing can be written any more.
    BrokenPipe,
    /// Nothing can be read any more.
    UnexpectedEof,
    /// Nothing is there yet.
    WouldBlock,
}

/// Which half of a connection is shut down.
#[derive(Clone, Copy, Debug, PartialEq, Eq, Structural)]
pub enum Shutdown {
    Read,
    Write,
    Both,
}

/// What a connection is made with.
#[derive(Debug)]
pub struct KcpConnBuilder {
    /// The address of the peer.
    pub remote: Option<String>,
    /// A transport is given, so none is dialed.
    pub has_transport: bool,
    pub config: KcpConfig,
    /// The transport sends to one peer only.
    pub connected: bool,
    pub dial: DialTransport,
    pub adopt_conv: bool,
    pub background_input: bool,
    /// Wait so many milliseconds for the first packet of the peer.
    pub connect_timeout: Option<u64>,
}

/// Where the transport of a connection comes from.
#[derive(Clone, Copy, Debug, PartialEq, Eq, Structural)]
pub enum TransportPlan {
    /// It is given.
    Given,
    /// It is dialed.
    Dial(DialTransport),
}

/// A connection.
pub struct KcpConn {
    /// The protocol's settings.
    pub kcp: KCP,
    pub read_buf: ReadBuffer,
    pub raw_packets: RawPacketQueue,
    /// Segments that are not acknowledged, at the last look.
    pub wait_send: usize,
    pub snd_wnd: usize,
    pub acknodelay: bool,
    pub connected: bool,
    pub closed: bool,
    pub conv: ConvState,
    pub background_input: bool,
    pub last_activity_ms: u64,
    /// Someone is sending.
    pub is_sending: bool,
    /// Error correction is on.
    pub fec: bool,
    pub read_timeout: Option<u64>,
    pub write_timeout: Option<u64>,
    pub read_deadline: Option<u64>,
    pub write_deadline: Option<u64>,
    pub nodelay: bool,
    pub write_closed: bool,
    pub read_closed: bool,
    /// A valid packet of the peer has come in.
    pub first_inbound: bool,
    /// The last error of the transport.
    pub last_error: Option<std::io::Error>,
}

fn builder(remote: &str, has_transport: bool, connected: bool, dial: DialTransport) -> (b:
    KcpConnBuilder)
    ensures
        b.remote is Some && b.remote->0@ == remote@,
        b.has_transport == has_transport,
        b.config == crate::kcp::config::default_config(),
        b.connected == connected,
        b.dial == dial,
        !b.adopt_conv,
        b.background_input,
        b.connect_timeout is None,
{
    KcpConnBuilder {
        remote: Some(remote.to_owned()),
        has_transport,
        config: KcpConfig::default(),
        connected,
        dial,
        adopt_conv: false,
        background_input: true,
        connect_timeout: None,
    }
}

impl KcpConnBuilder {
    pub fn mtu(self, value: u32) -> (b: Self)
        ensures
            b == (KcpConnBuilder { config: KcpConfig { mtu: value, ..self.config }, ..self }),
    {
        let mut b = self;
        b.config.mtu = value;
        b
    }

    pub fn sndwnd(self, value: u32) -> (b: Self)
        ensures
            b == (KcpConnBuilder { config: KcpConfig { sndwnd: value, ..self.config }, ..self }),
    {
        let mut b = self;
        b.config.sndwnd = value;
        b
    }

    pub fn rcvwnd(self, value: u32) -> (b: Self)
        ensures
            b == (KcpConnBuilder { config: KcpConfig { rcvwnd: value, ..self.config }, ..self }),
    {
        let mut b = self;
        b.config.rcvwnd = value;
        b
    }

    pub fn mode(self, value: KcpMode) -> (b: Self)
        ensures
            b == (KcpConnBuilder { config: KcpConfig { mode: value, ..self.config }, ..self }),
    {
        let mut b = self;
        b.config.mode = value;
        b
    }

    pub fn stream(self, value: bool) -> (b: Self)
        ensures
            b == (KcpConnBuilder { config: KcpConfig { stream: value, ..self.config }, ..self }),
    {
        let mut b = self;
        b.config.stream = value;
        b
    }

    pub fn acknodelay(self, value: bool) -> (b: Self)
        ensures
            b == (KcpConnBuilder {
                config: KcpConfig { acknodelay: value, ..self.config },
                ..self
            }),
    {
        let mut b = self;
        b.config.acknodelay = value;
        b
    }

    pub fn conv(self, value: u32) -> (b: Self)
        ensures
            b == (KcpConnBuilder { config: KcpConfig { conv: value, ..self.config }, ..self }),
    {
        let mut b = self;
        b.config.conv = value;
        b
    }

    pub fn token(self, value: u32) -> (b: Self)
        ensures
            b == (KcpConnBuilder { config: KcpConfig { token: value, ..self.config }, ..self }),
    {
        let mut b = self;
        b.config.token = value;
        b
    }

    /// Sets the timing explicitly, under the manual profile.
    pub fn nodelay(self, nodelay: u32, interval: u32, resend: u32, nc: u32) -> (b: Self)
        ensures
            b == (KcpConnBuilder {
                config: KcpConfig {
                    mode: KcpMode::Manual,
                    nodelay,
                    interval,
                    resend,
                    nc,
                    ..self.config
                },
                ..self
            }),
    {
        let mut b = self;
        b.config.mode = KcpMode::Manual;
        b.config.nodelay = nodelay;
        b.config.interval = interval;
        b.config.resend = resend;
        b.config.nc = nc;
        b
    }

    /// Turns error correction on, where both numbers are above 0.
    pub fn fec(self, datashard: u32, parityshard: u32) -> (b: Self)
        ensures
            b == (KcpConnBuilder {
                config: KcpConfig { datashard, parityshard, ..self.config },
                ..self
            }),
    {
        let mut b = self;
        b.config.datashard = datashard;
        b.config.parityshard = parityshard;
        b
    }

    pub fn config(self, config: KcpConfig) -> (b: Self)
        ensures
            b == (KcpConnBuilder { config, ..self }),
    {
        let mut b = self;
        b.config = config;
        b
    }

    /// Adopts the conversation of the first valid packet.
    pub fn adopt_conv(self, enabled: bool) -> (b: Self)
        ensures
            b == (KcpConnBuilder { adopt_conv: enabled, ..self }),
    {
        let mut b = self;
        b.adopt_conv = enabled;
        b
    }

    /// The transport sends to one peer only.
    pub fn connected(self, v: bool) -> (b: Self)
        ensures
            b == (KcpConnBuilder { connected: v, ..self }),
    {
        let mut b = self;
        b.connected = v;
        b
    }

    /// Whether the connection reads its transport itself.
    pub fn background_input(self, enabled: bool) -> (b: Self)
        ensures
            b == (KcpConnBuilder { background_input: enabled, ..self }),
    {
        let mut b = self;
        b.background_input = enabled;
        b
    }

    /// Wait so many milliseconds for the first packet of the peer.
    pub fn connect_timeout(self, timeout_ms: u64) -> (b: Self)
        ensures
            b == (KcpConnBuilder { connect_timeout: Some(timeout_ms), ..self }),
    {
        let mut b = self;
        b.connect_timeout = Some(timeout_ms);
        b
    }

    /// Kept for callers that set it; nothing is buffered on writing, so the size
    /// does not matter.
    pub fn buffer_size(self, _bytes: usize) -> (b: Self)
        ensures
            b == self,
    {
        self
    }

    /// Begins to make the connection: its state as its loops start, where its
    /// transport comes from, and how long the first packet of the peer is waited
    /// for. It is made once [`Connecting::finish`] hands it over. Without a remote
    /// address this fails, and so it does where the peer is to be waited for and
    /// the connection does not read its transport itself. A dialed transport is
    /// always connected.
    pub fn build(self, now: u64) -> (r: Result<Connecting, ConnError>)
        ensures
            self.remote is None || (self.connect_timeout is Some && !self.background_input)
                ==> r == Err::<Connecting, ConnError>(ConnError::InvalidInput),
            self.remote is Some && (self.connect_timeout is None || self.background_input) ==> {
                &&& r is Ok
                &&& r->Ok_0.transport == (if self.has_transport {
                    TransportPlan::Given
                } else {
                    TransportPlan::Dial(self.dial)
                })
                &&& r->Ok_0.wait == self.connect_timeout
                &&& !r->Ok_0.timed_out
                &&& built(r->Ok_0.conn, self, now)
            },
    {
        if self.remote.is_none() {
            return Err(ConnError::InvalidInput);
        }
        let wait: Option<u64> = match self.connect_wait() {
            Ok(wait) => wait,
            Err(e) => return Err(e),
        };
        let mut kcp = KCP::new(self.config.conv, self.config.token);
        kcp.apply(&self.config);
        let (plan, connected) = if self.has_transport {
            (TransportPlan::Given, self.connected)
        } else {
            (TransportPlan::Dial(self.dial), true)
        };
        let conn = KcpConn {
            kcp,
            read_buf: ReadBuffer::new(),
            raw_packets: RawPacketQueue::new(),
            wait_send: 0,
            snd_wnd: kcp.snd_wnd() as usize,
            acknodelay: self.config.acknodelay,
            connected,
            closed: false,
            conv: ConvState { conv: self.config.conv, adopting: self.adopt_conv },
            background_input: self.background_input,
            last_activity_ms: now,
            is_sending: false,
            fec: self.config.fec_enabled(),
            read_timeout: None,
            write_timeout: None,
            read_deadline: None,
            write_deadline: None,
            nodelay: self.config.nodelay_enabled(),
            write_closed: false,
            read_closed: false,
            first_inbound: false,
            last_error: None,
        };
        Ok(Connecting { conn, transport: plan, wait, timed_out: false })
    }

    /// Whether the connection, once made, waits for the first packet of the
    /// peer, and for how long. It cannot do so unless it reads its transport
    /// itself.
    pub fn connect_wait(&self) -> (r: Result<Option<u64>, ConnError>)
        ensures
            r == (if self.connect_timeout is Some && !self.background_input {
                Err::<Option<u64>, ConnError>(ConnError::InvalidInput)
            } else {
                Ok::<Option<u64>, ConnError>(self.connect_timeout)
            }),
    {
        match self.connect_timeout {
            None => Ok(None),
            Some(ms) => if self.background_input {
                Ok(Some(ms))
            } else {
                Err(ConnError::InvalidInput)
            },
        }
    }
}

/// A connection that is being made.
pub struct Connecting {
    pub conn: KcpConn,
    /// Where its transport comes from.
    pub transport: TransportPlan,
    /// How many milliseconds the first packet of the peer is waited for; none
    /// where it is not.
    pub wait: Option<u64>,
    /// The time for the first packet was up.
    pub timed_out: bool,
}

/// What is done first to make a connection.
#[derive(Clone, Copy, Debug, PartialEq, Eq, Structural)]
pub struct ConnectStart {
    /// Have the protocol ask the peer for an answer.
    pub probe: bool,
    /// Wake the flush loop, so that the question goes out at once.
    pub wake_flush: bool,
    /// Wait so many milliseconds for the first packet.
    pub wait: Option<u64>,
}

impl Connecting {
    /// What is done first: where the first packet of the peer is waited for, the
    /// peer is asked for one.
    pub fn begin(&self) -> (s: ConnectStart)
        ensures
            s == (ConnectStart {
                probe: self.wait is Some,
                wake_flush: self.wait is Some,
                wait: self.wait,
            }),
    {
        let waits: bool = self.wait.is_some();
        ConnectStart { probe: waits, wake_flush: waits, wait: self.wait }
    }

    /// After a look at whether the connection is made, where the time for it is
    /// up or not: a connection whose time was up once is closed and is not made
    /// any more.
    pub open spec fn stepped(self, timed_out: bool) -> Connecting {
        if self.wait is None {
            self
        } else {
            Connecting {
                conn: KcpConn {
                    closed: self.conn.closed || self.timed_out || timed_out,
                    ..self.conn
                },
                timed_out: self.timed_out || timed_out,
                ..self
            }
        }
    }

    /// Whether the connection is made, as [`KcpConn::connect_step`] says; at once
    /// where nothing is waited for.
    pub fn step(&mut self, timed_out: bool) -> (s: Step)
        ensures
            *final(self) == old(self).stepped(timed_out),
            s == (if old(self).wait is None {
                Step::Ready
            } else {
                connect_outcome(old(self).conn, old(self).timed_out || timed_out)
            }),
    {
        if self.wait.is_none() {
            return Step::Ready;
        }
        self.timed_out = self.timed_out || timed_out;
        self.conn.connect_step(self.timed_out)
    }

    /// The connection, where it is made, or why it is not.
    pub open spec fn finished(self) -> Result<KcpConn, ConnError> {
        if self.wait is None {
            Ok(self.conn)
        } else if self.timed_out {
            Err(ConnError::TimedOut)
        } else if !self.conn.first_inbound {
            Err(ConnError::NotConnected)
        } else {
            Ok(self.conn)
        }
    }

    /// Hands the connection over once it is made. Where the first packet of the
    /// peer is waited for, there is no connection without it: the time is up, or
    /// the connection was closed meanwhile.
    pub fn finish(self) -> (r: Result<KcpConn, ConnError>)
        ensures
            r == self.finished(),
    {
        if self.wait.is_none() {
            return Ok(self.conn);
        }
        if self.timed_out {
            return Err(ConnError::TimedOut);
        }
        if !self.conn.first_inbound {
            return Err(ConnError::NotConnected);
        }
        Ok(self.conn)
    }
}

/// A connection that is being made, after looks at it in order, none of which
/// found a packet of the peer.
pub open spec fn unheard(c: Connecting, looks: Seq<bool>) -> Connecting
    decreases looks.len(),
{
    if looks.len() == 0 {
        c
    } else {
        unheard(c, looks.drop_last()).stepped(looks.last())
    }
}

/// Where the first packet of the peer is waited for, a connection that has not
/// heard its peer is never handed over, however often it is looked at; once the
/// time is up it is closed, and that is the error.
pub proof fn law_waited_for_connection_has_heard_its_peer(c: Connecting, looks: Seq<bool>)
    requires
        c.wait is Some,
        !c.conn.first_inbound,
    ensures
        unheard(c, looks).finished() is Err,
        looks.contains(true) ==> unheard(c, looks).conn.closed && unheard(c, looks).finished()
            == Err::<KcpConn, ConnError>(ConnError::TimedOut),
        unheard(c, looks).wait == c.wait,
        !unheard(c, looks).conn.first_inbound,
        unheard(c, looks).timed_out == (c.timed_out || looks.contains(true)),
    decreases looks.len(),
{
    if looks.len() > 0 {
        let before = looks.drop_last();
        law_waited_for_connection_has_heard_its_peer(c, before);
        assert(looks.contains(true) == (before.contains(true) || looks.last())) by {
            assert(looks =~= before.push(looks.last()));
            if before.contains(true) {
                let i = choose|i: int| 0 <= i < before.len() && before[i];
                assert(looks[i]);
            }
            if looks.last() {
                assert(looks[looks.len() - 1]);
            }
            if looks.contains(true) && !looks.last() {
                let i = choose|i: int| 0 <= i < looks.len() && looks[i];
                assert(before[i]);
            }
        }
    }
}

/// How waiting for the first packet of the peer goes on.
pub open spec fn connect_outcome(conn: KcpConn, timed_out: bool) -> Step {
    if timed_out {
        Step::Fail(ConnError::TimedOut)
    } else if conn.first_inbound {
        Step::Ready
    } else if conn.closed {
        Step::Fail(ConnError::NotConnected)
    } else {
        Step::Wait(None)
    }
}

/// A connection is as its builder makes it.
pub open spec fn built(c: KcpConn, b: KcpConnBuilder, now: u64) -> bool {
    &&& c.kcp.conv == b.config.conv
    &&& c.kcp.token == b.config.token
    &&& c.kcp.mode == b.config.mode
    &&& c.kcp.timing() == b.config.timing()
    &&& c.kcp.mtu == b.config.mtu
    &&& c.kcp.snd_wnd == b.config.sndwnd
    &&& c.kcp.rcv_wnd == b.config.rcvwnd
    &&& c.kcp.stream == b.config.stream
    &&& c.wf()
    &&& c.read_buf.messages() == Seq::<Seq<u8>>::empty()
    &&& c.raw_packets.packets() == Seq::<Seq<u8>>::empty()
    &&& c.wait_send == 0
    &&& c.snd_wnd == b.config.sndwnd
    &&& c.acknodelay == b.config.acknodelay
    &&& c.connected == (b.connected || !b.has_transport)
    &&& !c.closed && !c.write_closed && !c.read_closed && !c.is_sending && !c.first_inbound
    &&& c.conv == (ConvState { conv: b.config.conv, adopting: b.adopt_conv })
    &&& c.background_input == b.background_input
    &&& c.last_activity_ms == now
    &&& c.fec == b.config.fec()
    &&& c.read_timeout is None && c.write_timeout is None
    &&& c.read_deadline is None && c.write_deadline is None
    &&& c.nodelay == (b.config.timing().0 != 0)
    &&& c.last_error is None
}

impl KcpConn {
    /// The buffers are in order, and the protocol runs under the conversation of
    /// the connection.
    pub open spec fn wf(&self) -> bool {
        self.read_buf.wf() && self.raw_packets.wf() && self.kcp.conv == self.conv.conv
    }

    /// The conversation under which a packet is offered to the protocol: see
    /// [`ConvState::candidate`].
    pub fn conv_candidate(&self, input: &[u8]) -> (c: Option<u32>)
        ensures
            c == (if input@.len() < crate::kcp::inbound::KCP_MIN_SEGMENT {
                None
            } else if self.conv.adopting {
                Some(crate::kcp::inbound::segment_conv(input@))
            } else {
                Some(self.conv.conv)
            }),
    {
        self.conv.candidate(input)
    }

    /// The protocol accepted a packet under the conversation `candidate`, or did
    /// not. A connection that adopts its conversation adopts that of a packet
    /// which was accepted, and the protocol runs under it from then on.
    pub fn conv_settled(&mut self, candidate: u32, accepted: bool)
        requires
            old(self).wf(),
        ensures
            final(self).wf(),
            final(self).conv == (if accepted && old(self).conv.adopting {
                ConvState { conv: candidate, adopting: false }
            } else {
                old(self).conv
            }),
            *final(self) == (KcpConn {
                conv: final(self).conv,
                kcp: KCP { conv: final(self).conv.conv, ..old(self).kcp },
                ..*old(self)
            }),
    {
        let mut conv: ConvState = self.conv;
        conv.settle(candidate, accepted);
        self.conv = conv;
        self.kcp.conv = conv.conv;
    }

    /// A builder that dials a UDP socket.
    pub fn connect(addr: &str) -> (b: KcpConnBuilder)
        ensures
            b.remote is Some && b.remote->0@ == addr@,
            !b.has_transport,
            b.config == crate::kcp::config::default_config(),
            b.connected,
            b.dial == DialTransport::Udp,
            !b.adopt_conv,
            b.background_input,
            b.connect_timeout is None,
    {
        builder(addr, false, true, DialTransport::Udp)
    }

    /// A builder that dials with TCP segments.
    pub fn connect_tcp(addr: &str) -> (b: KcpConnBuilder)
        ensures
            b.remote is Some && b.remote->0@ == addr@,
            !b.has_transport,
            b.config == crate::kcp::config::default_config(),
            b.connected,
            b.dial == DialTransport::TcpRaw,
            !b.adopt_conv,
            b.background_input,
            b.connect_timeout is None,
    {
        builder(addr, false, true, DialTransport::TcpRaw)
    }

    /// A builder on a transport that is given, which is taken to send to many.
    pub fn with_transport(remote: &str) -> (b: KcpConnBuilder)
        ensures
            b.remote is Some && b.remote->0@ == remote@,
            b.has_transport,
            b.config == crate::kcp::config::default_config(),
            !b.connected,
            b.dial == DialTransport::Udp,
            !b.adopt_conv,
            b.background_input,
            b.connect_timeout is None,
    {
        builder(remote, true, false, DialTransport::Udp)
    }

    /// There is room in the send window, at the last look.
    pub open spec fn relieved(&self) -> bool {
        self.wait_send < self.snd_wnd
    }

    /// Whether there is room in the send window, at the last look.
    pub fn backpressure_relieved(&self) -> (b: bool)
        ensures
            b == self.relieved(),
    {
        self.wait_send < self.snd_wnd
    }

    /// Closes the connection; tells whether it was open, and so whether everyone
    /// who waits on it is to be woken.
    pub fn close(&mut self) -> (was_open: bool)
        ensures
            was_open == !old(self).closed,
            *final(self) == (KcpConn { closed: true, ..*old(self) }),
    {
        let was_open: bool = !self.closed;
        self.closed = true;
        was_open
    }

    /// Whether the connection is closed.
    pub fn is_closed(&self) -> (b: bool)
        ensures
            b == self.closed,
    {
        self.closed
    }

    /// Shuts one half down or both. With the read half go the messages that were
    /// not read; both halves together are the connection. Whether the
    /// connection was closed by it is returned.
    pub fn shutdown(&mut self, how: Shutdown) -> (closed_now: bool)
        requires
            old(self).wf(),
        ensures
            final(self).wf(),
            final(self).read_closed == (old(self).read_closed || how != Shutdown::Write),
            final(self).write_closed == (old(self).write_closed || how != Shutdown::Read),
            final(self).closed == (old(self).closed || how == Shutdown::Both),
            closed_now == (how == Shutdown::Both && !old(self).closed),
            how == Shutdown::Read ==> final(self).read_buf.messages() == Seq::<Seq<u8>>::empty()
                && final(self).read_deadline is None,
            how != Shutdown::Read ==> final(self).read_buf == old(self).read_buf && final(self).read_deadline == old(self).read_deadline,
            *final(self) == (KcpConn {
                read_closed: final(self).read_closed,
                write_closed: final(self).write_closed,
                closed: final(self).closed,
                read_buf: final(self).read_buf,
                read_deadline: final(self).read_deadline,
                ..*old(self)
            }),
    {
        match how {
            Shutdown::Read => {
                self.read_closed = true;
                self.read_buf.clear();
                self.read_deadline = None;
                false
            },
            Shutdown::Write => {
                self.write_closed = true;
                false
            },
            Shutdown::Both => {
                self.read_closed = true;
                self.write_closed = true;
                self.close()
            },
        }
    }

    /// Sets the protocol's timing.
    pub fn set_kcp_nodelay(&mut self, nodelay: u32, interval: u32, resend: u32, nc: u32)
        ensures
            final(self).kcp.timing() == (nodelay, interval, resend, nc),
            *final(self) == (KcpConn {
                kcp: KCP {
                    mode: KcpMode::Manual,
                    nodelay,
                    interval,
                    resend,
                    nc,
                    ..old(self).kcp
                },
                ..*old(self)
            }),
    {
        self.kcp.set_nodelay(nodelay, interval, resend, nc);
    }

    /// Sets the windows; tells whether a writer that waits is to be woken.
    pub fn set_kcp_window_size(&mut self, snd_wnd: u32, rcv_wnd: u32) -> (wake: bool)
        ensures
            *final(self) == (KcpConn {
                kcp: KCP { snd_wnd, rcv_wnd, ..old(self).kcp },
                snd_wnd: snd_wnd as usize,
                ..*old(self)
            }),
            wake == final(self).relieved(),
    {
        self.kcp.snd_wnd = snd_wnd;
        self.kcp.rcv_wnd = rcv_wnd;
        self.snd_wnd = snd_wnd as usize;
        self.backpressure_relieved()
    }

    /// Sets the largest datagram.
    pub fn set_kcp_mtu(&mut self, mtu: u32)
        ensures
            *final(self) == (KcpConn { kcp: KCP { mtu, ..old(self).kcp }, ..*old(self) }),
    {
        self.kcp.mtu = mtu;
    }

    /// Turns stream mode on or off.
    pub fn set_kcp_stream_mode(&mut self, enable: bool)
        ensures
            *final(self) == (KcpConn { kcp: KCP { stream: enable, ..old(self).kcp }, ..*old(self) }),
    {
        self.kcp.stream = enable;
    }

    /// Whether acknowledgements are sent at once.
    pub fn set_kcp_acknodelay(&mut self, enable: bool)
        ensures
            *final(self) == (KcpConn { acknodelay: enable, ..*old(self) }),
    {
        self.acknodelay = enable;
    }

    /// As on a TCP stream: the timing of the profile `fast3`, or of `normal`.
    pub fn set_nodelay(&mut self, nodelay: bool)
        ensures
            final(self).nodelay == nodelay,
            Some(final(self).kcp.timing()) == (if nodelay {
                KcpMode::Fast3.params()
            } else {
                KcpMode::Normal.params()
            }),
            *final(self) == (KcpConn {
                nodelay,
                kcp: KCP {
                    mode: KcpMode::Manual,
                    nodelay: final(self).kcp.nodelay,
                    interval: final(self).kcp.interval,
                    resend: final(self).kcp.resend,
                    nc: final(self).kcp.nc,
                    ..old(self).kcp
                },
                ..*old(self)
            }),
    {
        self.nodelay = nodelay;
        if nodelay {
            self.kcp.set_nodelay(1, 10, 2, 1);
        } else {
            self.kcp.set_nodelay(0, 40, 2, 1);
        }
    }

    /// Sets how long reading waits, in milliseconds; `None` is without end.
    pub fn set_read_timeout(&mut self, ms: Option<u64>)
        ensures
            *final(self) == (KcpConn { read_timeout: ms, ..*old(self) }),
    {
        self.read_timeout = ms;
    }

    /// Sets how long writing waits, in milliseconds; `None` is without end.
    pub fn set_write_timeout(&mut self, ms: Option<u64>)
        ensures
            *final(self) == (KcpConn { write_timeout: ms, ..*old(self) }),
    {
        self.write_timeout = ms;
    }

    /// How long reading waits.
    pub fn read_timeout(&self) -> (ms: Option<u64>)
        ensures
            ms == self.read_timeout,
    {
        self.read_timeout
    }

    /// How long writing waits.
    pub fn write_timeout(&self) -> (ms: Option<u64>)
        ensures
            ms == self.write_timeout,
    {
        self.write_timeout
    }

    /// What [`KcpConn::set_nodelay`] was last called with, or what the settings
    /// asked for.
    pub fn nodelay(&self) -> (b: bool)
        ensures
            b == self.nodelay,
    {
        self.nodelay
    }

    /// When something was last read or written.
    pub fn last_activity_ms(&self) -> (t: u64)
        ensures
            t == self.last_activity_ms,
    {
        self.last_activity_ms
    }

    /// The send window.
    pub fn snd_wnd(&self) -> (n: usize)
        ensures
            n == self.snd_wnd,
    {
        self.snd_wnd
    }

    /// The receive window.
    pub fn rcv_wnd(&self) -> (n: u32)
        ensures
            n == self.kcp.rcv_wnd,
    {
        self.kcp.rcv_wnd
    }

    /// The segments that are not acknowledged, at the last look.
    pub fn wait_send(&self) -> (n: usize)
        ensures
            n == self.wait_send,
    {
        self.wait_send
    }

    /// Hands over the last error of the transport, and forgets it.
    pub fn take_error(&mut self) -> (e: Option<std::io::Error>)
        ensures
            e == old(self).last_error,
            *final(self) == (KcpConn { last_error: None, ..*old(self) }),
    {
        self.last_error.take()
    }

    /// Whether something can be read: a message that was moved ahead, or one
    /// that is complete in the protocol, as `has_message` says.
    pub fn has_read_data(&self, has_message: bool) -> (b: bool)
        ensures
            b == (self.read_buf.messages().len() > 0 || has_message),
    {
        !self.read_buf.is_empty() || has_message
    }

    /// The transport delivered a datagram, failed, or was not read to the end
    /// because the connection was closed meanwhile: what the input loop does.
    pub fn input_step(&mut self, event: InputEvent, now: u64) -> (s: InputStep)
        ensures
            s == (match event {
                InputEvent::Got(n) => if n > 0 {
                    InputStep::Collect
                } else {
                    InputStep::Again
                },
                InputEvent::Failed(_) => if old(self).closed {
                    InputStep::End
                } else {
                    InputStep::Rest(INPUT_REST_MS)
                },
                InputEvent::Cancelled => InputStep::End,
            }),
            *final(self) == (KcpConn {
                last_activity_ms: match event {
                    InputEvent::Got(n) => activity_step(old(self).last_activity_ms, now, n as int),
                    _ => old(self).last_activity_ms,
                },
                last_error: match event {
                    InputEvent::Failed(e) => if old(self).closed {
                        old(self).last_error
                    } else {
                        Some(e)
                    },
                    _ => old(self).last_error,
                },
                ..*old(self)
            }),
    {
        match event {
            InputEvent::Got(n) => if n > 0 {
                self.last_activity_ms = now;
                InputStep::Collect
            } else {
                InputStep::Again
            },
            InputEvent::Failed(e) => if self.closed {
                InputStep::End
            } else {
                self.last_error = Some(e);
                InputStep::Rest(INPUT_REST_MS)
            },
            InputEvent::Cancelled => InputStep::End,
        }
    }

    /// Whether the flush loop is woken once a burst was taken in. Where the
    /// input loop sends by itself, only if it could not or more is pending in
    /// the protocol.
    pub fn wakes_flush(sends_inline: bool, sent: bool, protocol_pending: bool) -> (b: bool)
        ensures
            b == (!sends_inline || !sent || protocol_pending),
    {
        !sends_inline || !sent || protocol_pending
    }

    /// Whether the connection has been made: the first valid packet of the peer
    /// is in. `timed_out` says that the time for it is up.
    pub fn connect_step(&mut self, timed_out: bool) -> (s: Step)
        ensures
            s == connect_outcome(*old(self), timed_out),
            *final(self) == (KcpConn { closed: old(self).closed || timed_out, ..*old(self) }),
    {
        if timed_out {
            self.closed = true;
            Step::Fail(ConnError::TimedOut)
        } else if self.first_inbound {
            Step::Ready
        } else if self.closed {
            Step::Fail(ConnError::NotConnected)
        } else {
            Step::Wait(None)
        }
    }

    /// Copies from what can be read without taking it out: from the first message
    /// that was moved ahead, or from `front`, the first segment that is complete
    /// in the protocol.
    pub fn peek(&self, front: Option<&[u8]>, buf: &mut [u8]) -> (r: Result<usize, ConnError>)
        ensures
            ({
                let first = if self.read_buf.messages().len() > 0 {
                    Some(self.read_buf.messages()[0])
                } else {
                    match front {
                        Some(s) => Some(s@),
                        None => None,
                    }
                };
                if self.read_closed || old(buf)@.len() == 0 {
                    r == Ok::<usize, ConnError>(0) && final(buf)@ == old(buf)@
                } else {
                    match first {
                        None => r == Err::<usize, ConnError>(ConnError::WouldBlock) && final(buf)@ == old(buf)@,
                        Some(m) => {
                            &&& final(buf)@ == crate::wire::overlaid(old(buf)@, m)
                            &&& r == Ok::<usize, ConnError>(
                                if m.len() <= old(buf)@.len() {
                                    m.len() as usize
                                } else {
                                    old(buf)@.len() as usize
                                },
                            )
                        },
                    }
                }
            }),
    {
        if self.read_closed || buf.is_empty() {
            return Ok(0);
        }
        if let Some(n) = self.read_buf.peek(buf) {
            return Ok(n);
        }
        match front {
            None => Err(ConnError::WouldBlock),
            Some(s) => Ok(crate::wire::copy_prefix(s, buf)),
        }
    }

    /// Reads what is there; tells how much, and whether the flush loop is to be
    /// woken.
    fn read_now(&mut self, kcp: &mut VecDeque<Bytes>, buf: &mut [u8]) -> (r: (usize, bool))
        requires
            old(self).wf(),
        ensures
            final(self).wf(),
            *final(self) == (KcpConn { read_buf: final(self).read_buf, ..*old(self) }),
            crate::kcp::buffers::read_effect(
                old(self).read_buf.messages(),
                crate::kcp::buffers::all_contents(old(kcp)@),
                old(buf)@,
                final(self).read_buf.messages(),
                crate::kcp::buffers::all_contents(final(kcp)@),
                final(buf)@,
                r.0 as int,
                r.1,
            ),
    {
        read_available(&mut self.read_buf, kcp, buf)
    }

    /// One round of reading: what is there is read, which is activity; where there
    /// is nothing, the end of the stream, the deadline or a wait follows.
    pub fn read_step(
        &mut self,
        kcp: &mut VecDeque<Bytes>,
        buf: &mut [u8],
        deadline: Option<u64>,
        now: u64,
    ) -> (r: ReadRound)
        requires
            old(self).wf(),
        ensures
            final(self).wf(),
            *final(self) == (KcpConn {
                read_buf: final(self).read_buf,
                last_activity_ms: activity_step(old(self).last_activity_ms, now, bytes_of(r)),
                ..*old(self)
            }),
            old(buf)@.len() == 0 || old(self).read_closed ==> {
                &&& r == (ReadRound { step: ReadStep::Done(0), notify_flush: false })
                &&& final(self).read_buf == old(self).read_buf
                &&& final(kcp)@ == old(kcp)@
                &&& final(buf)@ == old(buf)@
            },
            old(buf)@.len() > 0 && !old(self).read_closed ==> crate::kcp::buffers::read_effect(
                old(self).read_buf.messages(),
                crate::kcp::buffers::all_contents(old(kcp)@),
                old(buf)@,
                final(self).read_buf.messages(),
                crate::kcp::buffers::all_contents(final(kcp)@),
                final(buf)@,
                bytes_of(r),
                r.notify_flush,
            ),
            old(buf)@.len() > 0 && !old(self).read_closed && bytes_of(r) == 0 ==> r.step == (
            if old(self).closed {
                ReadStep::Done(0)
            } else {
                match waited(deadline, now) {
                    Step::Fail(e) => ReadStep::Fail(e),
                    Step::Wait(w) => ReadStep::Wait(w),
                    Step::Ready => ReadStep::Done(0),
                }
            }),
    {
        if buf.is_empty() || self.read_closed {
            return ReadRound { step: ReadStep::Done(0), notify_flush: false };
        }
        let (filled, notify_flush) = self.read_now(kcp, buf);
        if filled > 0 {
            self.last_activity_ms = now;
        }
        if filled > 0 || self.closed {
            return ReadRound { step: ReadStep::Done(filled), notify_flush };
        }
        match wait_until(deadline, now) {
            Step::Fail(e) => ReadRound { step: ReadStep::Fail(e), notify_flush },
            Step::Wait(w) => ReadRound { step: ReadStep::Wait(w), notify_flush },
            Step::Ready => ReadRound { step: ReadStep::Done(0), notify_flush },
        }
    }

    /// Whether there is something to read, where `has_message` says that the
    /// protocol has a complete message.
    pub fn readable_step(&self, has_message: bool, deadline: Option<u64>, now: u64) -> (s: Step)
        ensures
            s == (if self.read_closed {
                Step::Fail(ConnError::UnexpectedEof)
            } else if self.read_buf.messages().len() > 0 || has_message {
                Step::Ready
            } else if self.closed {
                Step::Fail(ConnError::UnexpectedEof)
            } else {
                waited(deadline, now)
            }),
    {
        if self.read_closed {
            return Step::Fail(ConnError::UnexpectedEof);
        }
        if !self.read_buf.is_empty() || has_message {
            return Step::Ready;
        }
        if self.closed {
            return Step::Fail(ConnError::UnexpectedEof);
        }
        wait_until(deadline, now)
    }

    /// Whether there is room to write.
    pub fn writable_step(&self, deadline: Option<u64>, now: u64) -> (s: Step)
        ensures
            s == (if self.closed || self.write_closed {
                Step::Fail(ConnError::BrokenPipe)
            } else if self.relieved() {
                Step::Ready
            } else {
                match waited(deadline, now) {
                    Step::Fail(_) => Step::Fail(ConnError::TimedOut),
                    other => other,
                }
            }),
    {
        if self.closed || self.write_closed {
            return Step::Fail(ConnError::BrokenPipe);
        }
        if self.backpressure_relieved() {
            return Step::Ready;
        }
        wait_until(deadline, now)
    }

    /// The deadline of an operation that begins now under a timeout.
    pub fn deadline_after(timeout: Option<u64>, now: u64) -> (d: Option<u64>)
        ensures
            d == (match timeout {
                None => None,
                Some(ms) => Some(
                    if now + ms > u64::MAX {
                        u64::MAX
                    } else {
                        (now + ms) as u64
                    },
                ),
            }),
    {
        match timeout {
            None => None,
            Some(ms) => Some(saturating_sum(now, ms)),
        }
    }

    /// Reading for a task that is polled. A task that was not the one to poll
    /// last starts its timeout anew.
    pub fn poll_read_into(
        &mut self,
        kcp: &mut VecDeque<Bytes>,
        out: &mut [u8],
        waiter_changed: bool,
        now: u64,
    ) -> (r: PollRead)
        requires
            old(self).wf(),
            old(self).read_timeout is Some ==> now + old(self).read_timeout->0 <= u64::MAX,
        ensures
            final(self).wf(),
            *final(self) == (KcpConn {
                read_buf: final(self).read_buf,
                read_deadline: final(self).read_deadline,
                last_activity_ms: activity_step(
                    old(self).last_activity_ms,
                    now,
                    match r.step {
                        PollStep::Ready(n) => n as int,
                        _ => 0,
                    },
                ),
                ..*old(self)
            }),
            old(out)@.len() == 0 || old(self).read_closed ==> {
                &&& r == (PollRead { step: PollStep::Ready(0), notify_flush: false })
                &&& *final(self) == *old(self)
                &&& final(kcp)@ == old(kcp)@
                &&& final(out)@ == old(out)@
            },
            old(out)@.len() > 0 && !old(self).read_closed ==> {
                let armed = if waiter_changed {
                    None
                } else {
                    old(self).read_deadline
                };
                if armed is Some && now >= armed->0 {
                    &&& r == (PollRead {
                        step: PollStep::Fail(ConnError::TimedOut),
                        notify_flush: false,
                    })
                    &&& *final(self) == (KcpConn { read_deadline: None, ..*old(self) })
                    &&& final(kcp)@ == old(kcp)@
                    &&& final(out)@ == old(out)@
                } else {
                    let filled = match r.step {
                        PollStep::Ready(n) => n,
                        _ => 0,
                    };
                    &&& crate::kcp::buffers::read_effect(
                        old(self).read_buf.messages(),
                        crate::kcp::buffers::all_contents(old(kcp)@),
                        old(out)@,
                        final(self).read_buf.messages(),
                        crate::kcp::buffers::all_contents(final(kcp)@),
                        final(out)@,
                        filled as int,
                        r.notify_flush,
                    )
                    &&& filled > 0 ==> final(self).read_deadline is None
                    &&& filled == 0 && old(self).closed ==> r.step == PollStep::Ready(0) && final(self).read_deadline == armed
                    &&& filled == 0 && !old(self).closed ==> {
                        &&& final(self).read_deadline == (match old(self).read_timeout {
                            None => None,
                            Some(ms) => if armed is Some {
                                armed
                            } else {
                                Some((now + ms) as u64)
                            },
                        })
                        &&& r.step == PollStep::Pending {
                            wake_now: false,
                            arm: if armed is None {
                                final(self).read_deadline
                            } else {
                                None
                            },
                        }
                    }
                }
            },
    {
        if out.is_empty() || self.read_closed {
            return PollRead { step: PollStep::Ready(0), notify_flush: false };
        }
        if self.read_is_late(waiter_changed, now) {
            return PollRead { step: PollStep::Fail(ConnError::TimedOut), notify_flush: false };
        }
        let (filled, notify_flush) = self.read_now(kcp, out);
        if filled > 0 {
            self.read_deadline = None;
            self.last_activity_ms = now;
            return PollRead { step: PollStep::Ready(filled), notify_flush };
        }
        if self.closed {
            return PollRead { step: PollStep::Ready(0), notify_flush };
        }
        let arm: Option<u64> = self.arm_read(now);
        PollRead { step: PollStep::Pending { wake_now: false, arm }, notify_flush }
    }

    /// Whether the deadline of a polled read has passed, which is then no more.
    fn read_is_late(&mut self, waiter_changed: bool, now: u64) -> (late: bool)
        ensures
            ({
                let armed = if waiter_changed {
                    None
                } else {
                    old(self).read_deadline
                };
                &&& late == (armed is Some && now >= armed->0)
                &&& *final(self) == (KcpConn {
                    read_deadline: if late {
                        None
                    } else {
                        armed
                    },
                    ..*old(self)
                })
            }),
    {
        if waiter_changed {
            self.read_deadline = None;
        }
        if let Some(dl) = self.read_deadline {
            if now >= dl {
                self.read_deadline = None;
                return true;
            }
        }
        false
    }

    /// Sets the deadline of a polled read that has to wait, unless it is set; the
    /// time at which to be woken is returned where it was set just now.
    fn arm_read(&mut self, now: u64) -> (arm: Option<u64>)
        requires
            old(self).read_timeout is Some ==> now + old(self).read_timeout->0 <= u64::MAX,
        ensures
            *final(self) == (KcpConn {
                read_deadline: match old(self).read_timeout {
                    None => None,
                    Some(ms) => if old(self).read_deadline is Some {
                        old(self).read_deadline
                    } else {
                        Some((now + ms) as u64)
                    },
                },
                ..*old(self)
            }),
            arm == (if old(self).read_deadline is None {
                final(self).read_deadline
            } else {
                None
            }),
    {
        match self.read_timeout {
            Some(ms) => {
                if self.read_deadline.is_none() {
                    let dl: u64 = now + ms;
                    self.read_deadline = Some(dl);
                    Some(dl)
                } else {
                    None
                }
            },
            None => {
                self.read_deadline = None;
                None
            },
        }
    }

    /// What one write hands to the protocol, which cuts messages into at most
    /// `max_frag` segments of `mss` bytes and has `queued` segments that are not
    /// acknowledged: no more than fits the window and one call.
    pub fn send_plan(&self, mss: usize, queued: usize, len: usize, max_frag: usize) -> (p: SendPlan)
        ensures
            p.total == plan_total(self.snd_wnd as nat, mss as nat, queued as nat, len as nat),
            p.max_chunk == plan_chunk(mss as nat, max_frag as nat),
            mss > 0 ==> p.max_chunk > 0,
            p.total <= len,
    {
        let available: usize = if self.snd_wnd > queued {
            self.snd_wnd - queued
        } else {
            0
        };
        let frags: usize = if max_frag > 0 {
            max_frag - 1
        } else {
            0
        };
        let window_bytes: usize = match available.checked_mul(mss) {
            Some(b) => b,
            None => usize::MAX,
        };
        let many: usize = match frags.checked_mul(mss) {
            Some(b) => b,
            None => usize::MAX,
        };
        let max_chunk: usize = if many < mss {
            mss
        } else {
            many
        };
        let mut total: usize = len;
        if total > KCP_SEND_CHUNK {
            total = KCP_SEND_CHUNK;
        }
        if total > window_bytes {
            total = window_bytes;
        }
        SendPlan { total, max_chunk }
    }

    /// Writing for a task that is polled, where the protocol has `queued`
    /// segments that are not acknowledged. Where the window has room the caller
    /// sends and then reports with [`KcpConn::wrote`].
    pub fn poll_write_step(&mut self, len: usize, waiter_changed: bool, queued: usize, now: u64) -> (s:
        WriteStep)
        ensures
            *final(self) == (KcpConn { write_deadline: final(self).write_deadline, ..*old(self) }),
            old(self).closed || old(self).write_closed ==> s == WriteStep::Fail(
                ConnError::BrokenPipe,
            ) && *final(self) == *old(self),
            !old(self).closed && !old(self).write_closed && len == 0 ==> s == WriteStep::Done(0)
                && *final(self) == *old(self),
            !old(self).closed && !old(self).write_closed && len > 0 ==> {
                let armed = if waiter_changed {
                    None
                } else {
                    old(self).write_deadline
                };
                if armed is Some && now >= armed->0 {
                    s == WriteStep::Fail(ConnError::TimedOut) && final(self).write_deadline is None
                } else if queued >= old(self).snd_wnd {
                    &&& final(self).write_deadline == (match old(self).write_timeout {
                        None => None,
                        Some(ms) => if armed is Some {
                            armed
                        } else {
                            Some(
                                if now + ms > u64::MAX {
                                    u64::MAX
                                } else {
                                    (now + ms) as u64
                                },
                            )
                        },
                    })
                    &&& s == WriteStep::Pending {
                        wake_now: old(self).relieved(),
                        arm: if old(self).relieved() {
                            None
                        } else {
                            final(self).write_deadline
                        },
                    }
                } else {
                    s == WriteStep::Send && final(self).write_deadline == armed
                }
            },
    {
        if self.closed || self.write_closed {
            return WriteStep::Fail(ConnError::BrokenPipe);
        }
        if len == 0 {
            return WriteStep::Done(0);
        }
        if waiter_changed {
            self.write_deadline = None;
        }
        if let Some(dl) = self.write_deadline {
            if now >= dl {
                self.write_deadline = None;
                return WriteStep::Fail(ConnError::TimedOut);
            }
        }
        if queued >= self.snd_wnd {
            match self.write_timeout {
                Some(ms) => if self.write_deadline.is_none() {
                    self.write_deadline = Some(saturating_sum(now, ms));
                },
                None => {
                    self.write_deadline = None;
                },
            }
            let wake_now: bool = self.backpressure_relieved();
            let arm: Option<u64> = if wake_now {
                None
            } else {
                self.write_deadline
            };
            return WriteStep::Pending { wake_now, arm };
        }
        WriteStep::Send
    }

    /// `sent` bytes went to the protocol, which then has `queued` segments that
    /// are not acknowledged; tells whether the flush loop is to be woken.
    pub fn wrote(&mut self, sent: usize, queued: usize, now: u64) -> (notify_flush: bool)
        ensures
            notify_flush == (sent > 0),
            *final(self) == (KcpConn {
                wait_send: queued,
                write_deadline: if sent > 0 {
                    None
                } else {
                    old(self).write_deadline
                },
                last_activity_ms: activity_step(old(self).last_activity_ms, now, sent as int),
                ..*old(self)
            }),
    {
        self.wait_send = queued;
        if sent > 0 {
            self.write_deadline = None;
            self.last_activity_ms = now;
        }
        sent > 0
    }

    /// The protocol took packets in: `had_input` says that it accepted one, and
    /// `queued` segments are then not acknowledged. Complete messages are moved
    /// ahead; who is to be woken is returned.
    pub fn inbound_done(&mut self, had_input: bool, queued: usize, kcp: &mut VecDeque<Bytes>) -> (w:
        InboundWakes)
        requires
            old(self).wf(),
        ensures
            final(self).wf(),
            *final(self) == (KcpConn {
                read_buf: final(self).read_buf,
                first_inbound: old(self).first_inbound || had_input,
                wait_send: queued,
                ..*old(self)
            }),
            ({
                let ms = crate::kcp::buffers::all_contents(old(kcp)@);
                let k = crate::kcp::inbound::prefetch_count(
                    crate::kcp::buffers::flat(old(self).read_buf.messages()).len(),
                    old(self).read_buf.messages().len(),
                    ms,
                ) as int;
                &&& final(self).read_buf.messages() == old(self).read_buf.messages() + ms.take(k)
                &&& crate::kcp::buffers::all_contents(final(kcp)@) == ms.skip(k)
                &&& w == (InboundWakes {
                    connecting: had_input && !old(self).first_inbound,
                    writer: queued < old(self).snd_wnd,
                    reader: !old(self).read_closed && old(self).read_buf.messages().len()
                        + ms.len() > 0,
                })
            }),
    {
        let ready: bool = crate::kcp::inbound::prefetch(&mut self.read_buf, kcp);
        let connecting: bool = had_input && !self.first_inbound;
        if had_input {
            self.first_inbound = true;
        }
        self.wait_send = queued;
        InboundWakes {
            connecting,
            writer: queued < self.snd_wnd,
            reader: ready && !self.read_closed,
        }
    }

    /// The protocol was driven by the flush loop, and `queued` segments are not
    /// acknowledged: whether the writer is woken, because there is room.
    pub fn maintained(&mut self, queued: usize) -> (wake_writer: bool)
        ensures
            wake_writer == (queued < old(self).snd_wnd),
            *final(self) == (KcpConn { wait_send: queued, ..*old(self) }),
    {
        self.wait_send = queued;
        queued < self.snd_wnd
    }

    /// Takes the packets that wait to be sent, unless someone is sending
    /// already. The caller sends them and then calls
    /// [`KcpConn::finish_sending`].
    pub fn try_start_sending(&mut self) -> (batch: Option<Vec<Bytes>>)
        requires
            old(self).wf(),
        ensures
            final(self).wf(),
            old(self).is_sending ==> batch is None && *final(self) == *old(self),
            !old(self).is_sending ==> {
                &&& batch is Some
                &&& crate::kcp::buffers::all_contents(batch->0@) == old(self).raw_packets.packets()
                &&& final(self).raw_packets.packets() == Seq::<Seq<u8>>::empty()
                &&& *final(self) == (KcpConn {
                    is_sending: true,
                    raw_packets: final(self).raw_packets,
                    ..*old(self)
                })
            },
    {
        if self.is_sending {
            return None;
        }
        self.is_sending = true;
        Some(self.raw_packets.drain())
    }

    /// The batch is out, or could not be sent. Tells whether more packets have
    /// come meanwhile, and so whether the flush loop is to be woken.
    pub fn finish_sending(&mut self, batch: Vec<Bytes>) -> (notify_flush: bool)
        requires
            old(self).wf(),
        ensures
            final(self).wf(),
            final(self).raw_packets.packets() == old(self).raw_packets.packets(),
            notify_flush == (old(self).raw_packets.packets().len() > 0),
            *final(self) == (KcpConn {
                is_sending: false,
                raw_packets: final(self).raw_packets,
                ..*old(self)
            }),
    {
        self.raw_packets.recycle(batch);
        self.is_sending = false;
        !self.raw_packets.is_empty()
    }
}

/// How an operation that may wait goes on.
#[derive(Clone, Copy, Debug, PartialEq, Eq, Structural)]
pub enum Step {
    /// It can be done.
    Ready,
    /// It fails.
    Fail(ConnError),
    /// Wait to be woken, so many milliseconds at most or without end.
    Wait(Option<u64>),
}

/// How reading goes on.
#[derive(Clone, Copy, Debug, PartialEq, Eq, Structural)]
pub enum ReadStep {
    /// So many bytes were read; 0 is the end.
    Done(usize),
    Fail(ConnError),
    Wait(Option<u64>),
}

/// One round of reading, and whether the flush loop is to be woken, because the
/// receive window may have opened.
#[derive(Clone, Copy, Debug, PartialEq, Eq, Structural)]
pub struct ReadRound {
    pub step: ReadStep,
    pub notify_flush: bool,
}

/// How a polled operation goes on.
#[derive(Clone, Copy, Debug, PartialEq, Eq, Structural)]
pub enum PollStep {
    Ready(usize),
    Fail(ConnError),
    /// Poll again when woken. `arm` is a time at which to be woken in any case.
    Pending { wake_now: bool, arm: Option<u64> },
}

/// A polled read, and whether the flush loop is to be woken.
#[derive(Clone, Copy, Debug, PartialEq, Eq, Structural)]
pub struct PollRead {
    pub step: PollStep,
    pub notify_flush: bool,
}

/// How a polled write goes on.
#[derive(Clone, Copy, Debug, PartialEq, Eq, Structural)]
pub enum WriteStep {
    Done(usize),
    Fail(ConnError),
    Pending { wake_now: bool, arm: Option<u64> },
    /// Hand data to the protocol.
    Send,
}

/// Who is to be woken after packets came in.
#[derive(Clone, Copy, Debug, PartialEq, Eq, Structural)]
pub struct InboundWakes {
    /// Whoever waits for the connection to be made.
    pub connecting: bool,
    pub writer: bool,
    pub reader: bool,
}

/// What one write hands to the protocol: so many bytes in all, in pieces of at
/// most so many.
#[derive(Clone, Copy, Debug, PartialEq, Eq, Structural)]
pub struct SendPlan {
    pub total: usize,
    pub max_chunk: usize,
}

/// What one write hands to the protocol: all of it, but no more than one call
/// takes and than fits the window.
pub open spec fn plan_total(snd_wnd: nat, mss: nat, queued: nat, len: nat) -> nat {
    let free = if snd_wnd > queued {
        (snd_wnd - queued) as nat
    } else {
        0
    };
    crate::kcp::buffers::least(crate::kcp::buffers::least(len, KCP_SEND_CHUNK as nat), free * mss)
}

/// The largest piece: one segment less than a message may have, but one segment
/// at least.
pub open spec fn plan_chunk(mss: nat, max_frag: nat) -> nat {
    let frags = if max_frag > 0 {
        (max_frag - 1) as nat
    } else {
        0
    };
    let many = crate::kcp::buffers::least(frags * mss, usize::MAX as nat);
    if many < mss {
        mss
    } else {
        many
    }
}

impl SendPlan {
    /// Where the piece that begins at `offset` ends.
    pub fn chunk_end(&self, offset: usize) -> (end: usize)
        requires
            offset <= self.total,
        ensures
            end == crate::kcp::buffers::least((offset + self.max_chunk) as nat, self.total as nat),
    {
        if self.total - offset <= self.max_chunk {
            self.total
        } else {
            offset + self.max_chunk
        }
    }

    /// How many bytes the protocol took where it took the first `pieces` pieces
    /// and refused the next one, or took all.
    pub fn accepted(&self, pieces: usize) -> (n: usize)
        ensures
            n == crate::kcp::buffers::least((pieces * self.max_chunk) as nat, self.total as nat),
    {
        match pieces.checked_mul(self.max_chunk) {
            Some(n) => if n <= self.total {
                n
            } else {
                self.total
            },
            None => self.total,
        }
    }
}

/// Backpressure holds: a write never puts more segments than the window has room
/// for.
pub proof fn law_write_fits_the_window(snd_wnd: nat, mss: nat, queued: nat, len: nat)
    requires
        queued <= snd_wnd,
    ensures
        plan_total(snd_wnd, mss, queued, len) <= (snd_wnd - queued) * mss,
        queued == snd_wnd ==> plan_total(snd_wnd, mss, queued, len) == 0,
{
    assert(0 * mss == 0) by (nonlinear_arith);
}

/// `a + b`, or the largest number where that is too much.
fn saturating_sum(a: u64, b: u64) -> (s: u64)
    ensures
        s == (if a + b > u64::MAX {
            u64::MAX
        } else {
            (a + b) as u64
        }),
{
    match a.checked_add(b) {
        Some(s) => s,
        None => u64::MAX,
    }
}

/// An operation that has to wait: until its deadline, if it has one.
pub open spec fn waited(deadline: Option<u64>, now: u64) -> Step {
    match deadline {
        None => Step::Wait(None),
        Some(dl) => if dl <= now {
            Step::Fail(ConnError::TimedOut)
        } else {
            Step::Wait(Some((dl - now) as u64))
        },
    }
}

fn wait_until(deadline: Option<u64>, now: u64) -> (s: Step)
    ensures
        s == waited(deadline, now),
{
    match deadline {
        None => Step::Wait(None),
        Some(dl) => if dl <= now {
            Step::Fail(ConnError::TimedOut)
        } else {
            Step::Wait(Some(dl - now))
        },
    }
}

/// The bytes that a round read.
pub open spec fn bytes_of(r: ReadRound) -> int {
    match r.step {
        ReadStep::Done(n) => n as int,
        _ => 0,
    }
}

/// A write of a whole buffer that may have to wait in between.
#[derive(Clone, Copy, Debug, PartialEq, Eq, Structural)]
pub struct WriteAll {
    /// Bytes that the protocol took.
    pub offset: usize,
    /// When the write fails unless the window opens.
    pub blocked_deadline: Option<u64>,
}

impl WriteAll {
    /// A write that has not begun.
    pub fn start() -> (w: Self)
        ensures
            w == (WriteAll { offset: 0, blocked_deadline: None }),
    {
        WriteAll { offset: 0, blocked_deadline: None }
    }

    /// What comes next in writing `len` bytes, where the protocol has `queued`
    /// segments that are not acknowledged.
    pub fn next(&self, conn: &KcpConn, len: usize, queued: usize) -> (s: WriteStep)
        ensures
            s == (if self.offset >= len {
                WriteStep::Done(self.offset)
            } else if conn.closed || conn.write_closed {
                WriteStep::Fail(ConnError::BrokenPipe)
            } else if queued >= conn.snd_wnd {
                WriteStep::Pending { wake_now: false, arm: None }
            } else {
                WriteStep::Send
            }),
    {
        if self.offset >= len {
            WriteStep::Done(self.offset)
        } else if conn.closed || conn.write_closed {
            WriteStep::Fail(ConnError::BrokenPipe)
        } else if queued >= conn.snd_wnd {
            WriteStep::Pending { wake_now: false, arm: None }
        } else {
            WriteStep::Send
        }
    }

    /// The protocol took `sent` bytes more at the time `now`, and has `queued`
    /// segments that are not acknowledged; tells whether the flush loop is to be
    /// woken.
    pub fn sent(&mut self, conn: &mut KcpConn, sent: usize, queued: usize, now: u64) -> (notify_flush:
        bool)
        requires
            old(self).offset + sent <= usize::MAX,
        ensures
            notify_flush == (sent > 0),
            (*final(self), *final(conn)) == piece_sent(*old(self), *old(conn), (sent, queued, now)),
    {
        conn.wait_send = queued;
        if sent > 0 {
            conn.last_activity_ms = now;
            self.blocked_deadline = None;
            self.offset = self.offset + sent;
        }
        sent > 0
    }

    /// The window is full. The write waits until its timeout, counted from when
    /// it was blocked first, and fails then, unless there is room by then.
    pub fn blocked(&mut self, conn: &KcpConn, now: u64) -> (s: Step)
        ensures
            final(self).offset == old(self).offset,
            match conn.write_timeout {
                None => s == Step::Wait(None) && *final(self) == *old(self),
                Some(ms) => {
                    let dl = match old(self).blocked_deadline {
                        Some(d) => d,
                        None => if now + ms > u64::MAX {
                            u64::MAX
                        } else {
                            (now + ms) as u64
                        },
                    };
                    if dl > now {
                        &&& s == Step::Wait(Some((dl - now) as u64))
                        &&& final(self).blocked_deadline == Some(dl)
                    } else if conn.relieved() {
                        s == Step::Ready && final(self).blocked_deadline is None
                    } else {
                        s == Step::Fail(ConnError::TimedOut) && final(self).blocked_deadline
                            == Some(dl)
                    }
                },
            },
    {
        match conn.write_timeout {
            None => Step::Wait(None),
            Some(ms) => {
                let dl: u64 = match self.blocked_deadline {
                    Some(d) => d,
                    None => saturating_sum(now, ms),
                };
                self.blocked_deadline = Some(dl);
                if dl > now {
                    Step::Wait(Some(dl - now))
                } else if conn.backpressure_relieved() {
                    self.blocked_deadline = None;
                    Step::Ready
                } else {
                    Step::Fail(ConnError::TimedOut)
                }
            },
        }
    }

    /// The wait ran out.
    pub fn wait_ran_out(&mut self, conn: &KcpConn) -> (s: Step)
        ensures
            final(self).offset == old(self).offset,
            conn.relieved() ==> s == Step::Ready && final(self).blocked_deadline is None,
            !conn.relieved() ==> s == Step::Fail(ConnError::TimedOut) && *final(self) == *old(self),
    {
        if conn.backpressure_relieved() {
            self.blocked_deadline = None;
            Step::Ready
        } else {
            Step::Fail(ConnError::TimedOut)
        }
    }
}

/// When a connection was last active, where it was at `last` and `n` bytes are
/// read or written at the time `now`.
pub open spec fn activity_step(last: u64, now: u64, n: int) -> u64 {
    if n > 0 {
        now
    } else {
        last
    }
}

/// When a connection was last active, after reads and writes at these times, of
/// so many bytes each.
pub open spec fn activity(last: u64, run: Seq<(u64, usize)>) -> u64
    decreases run.len(),
{
    if run.len() == 0 {
        last
    } else {
        activity_step(activity(last, run.drop_last()), run.last().0, run.last().1 as int)
    }
}

/// The time of activity is that of the latest read or write that succeeded.
pub proof fn law_activity_is_that_of_the_latest_success(
    last: u64,
    run: Seq<(u64, usize)>,
    i: int,
)
    requires
        0 <= i < run.len(),
        run[i].1 > 0,
        forall|j: int| i < j < run.len() ==> (#[trigger] run[j]).1 == 0,
    ensures
        activity(last, run) == run[i].0,
    decreases run.len(),
{
    if i < run.len() - 1 {
        assert(run[run.len() - 1].1 == 0);
        assert forall|j: int| i < j < run.drop_last().len() implies (
        #[trigger] run.drop_last()[j]).1 == 0 by {
            assert(run[j].1 == 0);
        }
        law_activity_is_that_of_the_latest_success(last, run.drop_last(), i);
    }
}

/// A write and its connection after a piece: so many bytes that the protocol
/// took, how many segments it then had unacknowledged, and when.
pub open spec fn piece_sent(w: WriteAll, c: KcpConn, piece: (usize, usize, u64)) -> (
    WriteAll,
    KcpConn,
) {
    (
        WriteAll {
            offset: (w.offset + piece.0) as usize,
            blocked_deadline: if piece.0 > 0 {
                None
            } else {
                w.blocked_deadline
            },
        },
        KcpConn {
            wait_send: piece.1,
            last_activity_ms: activity_step(c.last_activity_ms, piece.2, piece.0 as int),
            ..c
        },
    )
}

/// A write and its connection after pieces in order.
pub open spec fn pieces_sent(w: WriteAll, c: KcpConn, pieces: Seq<(usize, usize, u64)>) -> (
    WriteAll,
    KcpConn,
)
    decreases pieces.len(),
{
    if pieces.len() == 0 {
        (w, c)
    } else {
        let before = pieces_sent(w, c, pieces.drop_last());
        piece_sent(before.0, before.1, pieces.last())
    }
}

/// A write that is done is activity: where pieces that were sent at the time
/// `start` or later bring a write that has not begun to its end, its connection
/// was active no earlier.
pub proof fn law_finished_write_is_activity(
    w: WriteAll,
    c: KcpConn,
    pieces: Seq<(usize, usize, u64)>,
    len: usize,
    start: u64,
)
    requires
        w.offset == 0,
        0 < len <= pieces_sent(w, c, pieces).0.offset,
        forall|i: int| 0 <= i < pieces.len() ==> start <= (#[trigger] pieces[i]).2,
    ensures
        pieces_sent(w, c, pieces).1.last_activity_ms >= start,
    decreases pieces.len(),
{
    if pieces.len() > 0 {
        let before = pieces.drop_last();
        assert(pieces[pieces.len() - 1].2 >= start);
        if pieces.last().0 == 0 {
            assert forall|i: int| 0 <= i < before.len() implies start <= (
            #[trigger] before[i]).2 by {
                assert(pieces[i].2 >= start);
            }
            law_finished_write_is_activity(w, c, before, len, start);
        }
    }
}

/// How long the input loop rests after the transport failed, in milliseconds.
pub const INPUT_REST_MS: u64 = 10;

/// What came of waiting for a datagram.
pub enum InputEvent {
    /// A datagram of so many bytes came.
    Got(usize),
    /// The transport failed.
    Failed(std::io::Error),
    /// The connection was closed meanwhile.
    Cancelled,
}

/// What the input loop does next.
#[derive(Clone, Copy, Debug, PartialEq, Eq, Structural)]
pub enum InputStep {
    /// Take the rest of the burst, and take it in.
    Collect,
    /// Wait for a datagram.
    Again,
    /// Rest for so many milliseconds, and then wait for a datagram.
    Rest(u64),
    /// Leave the loop.
    End,
}

/// A burst of datagrams that is being collected.
#[derive(Clone, Copy, Debug, PartialEq, Eq, Structural)]
pub struct Burst {
    /// Datagrams that are in.
    pub len: usize,
}

impl Burst {
    /// A burst of the one datagram that was waited for.
    pub fn start() -> (b: Self)
        ensures
            b.len == 1,
    {
        Burst { len: 1 }
    }

    /// The slots to fill next, from the length of the burst on: up to where, or
    /// none where the burst is as long as it may be.
    pub fn pool_end(&self) -> (end: Option<usize>)
        ensures
            end == burst_end(self.len),
    {
        burst_pool_end(self.len)
    }

    /// `got` more datagrams came: whether to look for more.
    pub fn grown(&mut self, got: usize) -> (more: bool)
        requires
            old(self).len + got <= MAX_INPUT_BATCH,
        ensures
            final(self).len == old(self).len + got,
            more == (got > 0 && final(self).len < MAX_INPUT_BATCH),
    {
        self.len = self.len + got;
        got > 0 && self.len < MAX_INPUT_BATCH
    }
}

/// How far a burst of `len` datagrams may grow in the next step.
pub open spec fn burst_end(len: usize) -> Option<usize> {
    if len >= MAX_INPUT_BATCH {
        None
    } else if len + INPUT_BATCH_GROW <= MAX_INPUT_BATCH {
        Some((len + INPUT_BATCH_GROW) as usize)
    } else {
        Some(MAX_INPUT_BATCH)
    }
}

/// How far a burst of `burst_len` datagrams may grow in the next step; `None`
/// where it is as long as it may be.
pub fn burst_pool_end(burst_len: usize) -> (end: Option<usize>)
    ensures
        end == burst_end(burst_len),
{
    if burst_len >= MAX_INPUT_BATCH {
        None
    } else if burst_len + INPUT_BATCH_GROW <= MAX_INPUT_BATCH {
        Some(burst_len + INPUT_BATCH_GROW)
    } else {
        Some(MAX_INPUT_BATCH)
    }
}

/// The owned halves of a connection. The last one to go closes it.
#[derive(Clone, Copy, Debug, PartialEq, Eq, Structural)]
pub struct Halves {
    pub remaining: usize,
}

impl Halves {
    /// Both halves.
    pub fn both() -> (h: Self)
        ensures
            h.remaining == 2,
    {
        Halves { remaining: 2 }
    }

    /// One half goes; tells whether the connection is to be closed.
    pub fn drop_one(&mut self) -> (close: bool)
        requires
            old(self).remaining > 0,
        ensures
            final(self).remaining == old(self).remaining - 1,
            close == (final(self).remaining == 0),
    {
        self.remaining = self.remaining - 1;
        self.remaining == 0
    }
}

/// A handle of a connection: the one that it was made with, which owns it, or a
/// copy.
#[derive(Debug, PartialEq, Eq, Structural)]
pub struct ConnHandle {
    pub owns_connection: bool,
}

impl ConnHandle {
    /// The handle that a connection is made with.
    pub fn owner() -> (h: Self)
        ensures
            h.owns_connection,
    {
        ConnHandle { owns_connection: true }
    }

    /// A copy shares the connection and does not own it.
    pub fn copy(&self) -> (h: Self)
        ensures
            !h.owns_connection,
    {
        ConnHandle { owns_connection: false }
    }

    /// The handle goes. Only the owner takes the connection with it; whether that
    /// closed it is returned.
    pub fn dropped(self, conn: &mut KcpConn) -> (closed_now: bool)
        ensures
            closed_now == (self.owns_connection && !old(conn).closed),
            *final(conn) == (KcpConn {
                closed: old(conn).closed || self.owns_connection,
                ..*old(conn)
            }),
    {
        if self.owns_connection {
            conn.close()
        } else {
            false
        }
    }

    /// The handle is split in halves, and the last of them closes the connection
    /// in its place.
    pub fn into_split(self) -> (h: Halves)
        ensures
            h.remaining == 2,
    {
        Halves::both()
    }
}

/// What can be read, in order: the messages that were moved ahead, then those
/// that are complete in the protocol.
pub open spec fn all_bytes(ahead: Seq<Seq<u8>>, queue: Seq<Seq<u8>>) -> Seq<u8> {
    crate::kcp::buffers::flat(ahead) + crate::kcp::buffers::flat(queue)
}

/// Nothing is lost or changed between reads: two reads, one after the other,
/// deliver the front of the stream in order.
pub proof fn law_reads_follow_each_other(
    ahead0: Seq<Seq<u8>>,
    ahead1: Seq<Seq<u8>>,
    ahead2: Seq<Seq<u8>>,
    queue0: Seq<Seq<u8>>,
    queue1: Seq<Seq<u8>>,
    queue2: Seq<Seq<u8>>,
    a0: Seq<u8>,
    a1: Seq<u8>,
    b0: Seq<u8>,
    b1: Seq<u8>,
    m: int,
    n: int,
    first_notify: bool,
    second_notify: bool,
)
    requires
        crate::kcp::buffers::read_effect(
            ahead0,
            queue0,
            a0,
            ahead1,
            queue1,
            a1,
            m,
            first_notify,
        ),
        crate::kcp::buffers::read_effect(
            ahead1,
            queue1,
            b0,
            ahead2,
            queue2,
            b1,
            n,
            second_notify,
        ),
    ensures
        a1.take(m) + b1.take(n) == all_bytes(ahead0, queue0).take(m + n),
        all_bytes(ahead2, queue2) == all_bytes(ahead0, queue0).skip(m + n),
{
    let stream = all_bytes(ahead0, queue0);
    crate::kcp::buffers::law_read_leaves_the_rest(
        ahead0,
        queue0,
        a0,
        ahead1,
        queue1,
        a1,
        m,
        first_notify,
    );
    crate::kcp::buffers::law_read_leaves_the_rest(
        ahead1,
        queue1,
        b0,
        ahead2,
        queue2,
        b1,
        n,
        second_notify,
    );
    assert(stream.take(m) + stream.skip(m).take(n) =~= stream.take(m + n));
    assert(stream.skip(m).skip(n) =~= stream.skip(m + n));
}

} // verus!
