//! What listeners are made with.

use crate::kcp::config::{KcpConfig, KcpMode};
use crate::kcp::conn::{KcpConn, KcpConnBuilder};
use crate::kcp::listener::{AcceptError, KcpListener, KcpListenerLimits};
use vstd::prelude::*;

verus! {

/// What a listener on a datagram socket is made with.
pub struct KcpListenerBuilder {
    /// The settings of the connections that it makes.
    pub config: KcpConfig,
    /// Its limits, if any are set.
    pub limits: Option<KcpListenerLimits>,
}

impl KcpListenerBuilder {
    /// The default settings, and no limits.
    pub fn new() -> (b: Self)
        ensures
            b.config == crate::kcp::config::default_config(),
            b.limits is None,
    {
        KcpListenerBuilder { config: KcpConfig::default(), limits: None }
    }

    pub fn mtu(self, value: u32) -> (b: Self)
        ensures
            b == (KcpListenerBuilder { config: KcpConfig { mtu: value, ..self.config }, ..self }),
    {
        let mut b = self;
        b.config.mtu = value;
        b
    }

    pub fn sndwnd(self, value: u32) -> (b: Self)
        ensures
            b == (KcpListenerBuilder { config: KcpConfig { sndwnd: value, ..self.config }, ..self }),
    {
        let mut b = self;
        b.config.sndwnd = value;
        b
    }

    pub fn rcvwnd(self, value: u32) -> (b: Self)
        ensures
            b == (KcpListenerBuilder { config: KcpConfig { rcvwnd: value, ..self.config }, ..self }),
    {
        let mut b = self;
        b.config.rcvwnd = value;
        b
    }

    pub fn mode(self, value: KcpMode) -> (b: Self)
        ensures
            b == (KcpListenerBuilder { config: KcpConfig { mode: value, ..self.config }, ..self }),
    {
        let mut b = self;
        b.config.mode = value;
        b
    }

    pub fn stream(self, value: bool) -> (b: Self)
        ensures
            b == (KcpListenerBuilder { config: KcpConfig { stream: value, ..self.config }, ..self }),
    {
        let mut b = self;
        b.config.stream = value;
        b
    }

    pub fn acknodelay(self, value: bool) -> (b: Self)
        ensures
            b == (KcpListenerBuilder { config: KcpConfig { acknodelay: value, ..self.config }, ..self }),
    {
        let mut b = self;
        b.config.acknodelay = value;
        b
    }

    pub fn conv(self, value: u32) -> (b: Self)
        ensures
            b == (KcpListenerBuilder { config: KcpConfig { conv: value, ..self.config }, ..self }),
    {
        let mut b = self;
        b.config.conv = value;
        b
    }

    pub fn token(self, value: u32) -> (b: Self)
        ensures
            b == (KcpListenerBuilder { config: KcpConfig { token: value, ..self.config }, ..self }),
    {
        let mut b = self;
        b.config.token = value;
        b
    }

    /// Sets the timing explicitly, under the manual profile.
    pub fn nodelay(self, nodelay: u32, interval: u32, resend: u32, nc: u32) -> (b: Self)
        ensures
            b == (KcpListenerBuilder {
                config: KcpConfig {
                    mode: KcpMode::Manual,
                    nodelay,
                    interval,
                    resend,
                    nc,
                    ..self.config
                },
                ..self
            }),
    {
        let mut b = self;
        b.config.mode = KcpMode::Manual;
        b.config.nodelay = nodelay;
        b.config.interval = interval;
        b.config.resend = resend;
        b.config.nc = nc;
        b
    }

    /// Turns error correction on, where both numbers are above 0.
    pub fn fec(self, datashard: u32, parityshard: u32) -> (b: Self)
        ensures
            b == (KcpListenerBuilder {
                config: KcpConfig { datashard, parityshard, ..self.config },
                ..self
            }),
    {
        let mut b = self;
        b.config.datashard = datashard;
        b.config.parityshard = parityshard;
        b
    }

    pub fn config(self, config: KcpConfig) -> (b: Self)
        ensures
            b == (KcpListenerBuilder { config, ..self }),
    {
        let mut b = self;
        b.config = config;
        b
    }

    /// Sets limits.
    pub fn limits(self, limits: KcpListenerLimits) -> (b: Self)
        ensures
            b == (KcpListenerBuilder { limits: Some(limits), ..self }),
    {
        let mut b = self;
        b.limits = Some(limits);
        b
    }

    /// The listener, without sessions.
    pub fn build(self) -> (l: KcpListener)
        ensures
            l.inv(),
            l@ == crate::kcp::listener::fresh(match self.limits {
                Some(limits) => limits,
                None => crate::kcp::listener::unlimited(),
            }),
    {
        let limits: KcpListenerLimits = match self.limits {
            Some(limits) => limits,
            None => KcpListenerLimits::default(),
        };
        KcpListener::new(limits)
    }
}

/// What the connection of a listener's peer is made with: a transport on the
/// socket that all peers share, and the conversation of the first valid packet.
pub fn peer_conn(config: KcpConfig, peer: &str) -> (b: KcpConnBuilder)
    ensures
        b.remote is Some && b.remote->0@ == peer@,
        b.has_transport,
        !b.connected,
        b.adopt_conv,
        b.config == config,
        b.background_input,
        b.connect_timeout is None,
{
    KcpConn::with_transport(peer).connected(false).adopt_conv(true).config(config)
}

/// A listener whose clients come over raw TCP, each with a socket of its own.
pub struct KcpTcpListener {
    /// The settings of the connections that it makes.
    pub config: KcpConfig,
    pub closed: bool,
    /// The last error of accepting.
    pub last_error: Option<std::io::Error>,
}

impl KcpTcpListener {
    /// A listener that accepts.
    pub fn new(config: KcpConfig) -> (l: Self)
        ensures
            l == (KcpTcpListener { config, closed: false, last_error: None }),
    {
        KcpTcpListener { config, closed: false, last_error: None }
    }

    /// Whether clients may be waited for.
    pub fn accept(&self) -> (r: Result<(), AcceptError>)
        ensures
            r == (if self.closed {
                Err::<(), AcceptError>(AcceptError::ConnectionAborted)
            } else {
                Ok::<(), AcceptError>(())
            }),
    {
        if self.closed {
            Err(AcceptError::ConnectionAborted)
        } else {
            Ok(())
        }
    }

    /// As [`KcpTcpListener::accept`], for someone who waits only so long;
    /// `timed_out` says that the time is up.
    pub fn accept_timeout(&self, timed_out: bool) -> (r: Result<(), AcceptError>)
        ensures
            r == (if timed_out {
                Err::<(), AcceptError>(AcceptError::TimedOut)
            } else if self.closed {
                Err::<(), AcceptError>(AcceptError::ConnectionAborted)
            } else {
                Ok::<(), AcceptError>(())
            }),
    {
        if timed_out {
            Err(AcceptError::TimedOut)
        } else {
            self.accept()
        }
    }

    /// What the connection of a client that was accepted is made with: the
    /// socket that came with it, which reaches that client alone.
    pub fn accepted(&self, peer: &str) -> (b: KcpConnBuilder)
        ensures
            b.remote is Some && b.remote->0@ == peer@,
            b.has_transport,
            b.connected,
            b.config == self.config,
            !b.adopt_conv,
            b.background_input,
            b.connect_timeout is None,
    {
        KcpConn::with_transport(peer).connected(true).config(self.config)
    }

    /// Accepting failed.
    pub fn failed(&mut self, e: std::io::Error)
        ensures
            *final(self) == (KcpTcpListener { last_error: Some(e), ..*old(self) }),
    {
        self.last_error = Some(e);
    }

    /// Hands over the last error of accepting, and forgets it.
    pub fn take_error(&mut self) -> (e: Option<std::io::Error>)
        ensures
            e == old(self).last_error,
            *final(self) == (KcpTcpListener { last_error: None, ..*old(self) }),
    {
        self.last_error.take()
    }

    /// Stops accepting. Connections that were accepted go on.
    pub fn close(&mut self)
        ensures
            *final(self) == (KcpTcpListener { closed: true, ..*old(self) }),
    {
        self.closed = true;
    }
}

} // verus!
