//! The settings of a KCP endpoint.

use vstd::prelude::*;

verus! {

/// The conversation that an endpoint takes part in unless it is told another.
pub const DEFAULT_CONV: u32 = 0xDEADBEEF;

/// A profile of timing settings.
#[derive(Clone, Copy, Debug, PartialEq, Eq, Structural)]
pub enum KcpMode {
    Normal,
    Fast,
    Fast2,
    Fast3,
    Manual,
}

impl KcpMode {
    /// The settings of a profile: nodelay, interval in milliseconds, resend
    /// and nc. The manual profile has none of its own.
    pub open spec fn params(self) -> Option<(u32, u32, u32, u32)> {
        match self {
            KcpMode::Normal => Some((0, 40, 2, 1)),
            KcpMode::Fast => Some((0, 30, 2, 1)),
            KcpMode::Fast2 => Some((1, 20, 2, 1)),
            KcpMode::Fast3 => Some((1, 10, 2, 1)),
            KcpMode::Manual => None,
        }
    }

    /// The settings of a profile, if it has any of its own.
    pub fn nodelay_params(self) -> (p: Option<(u32, u32, u32, u32)>)
        ensures
            p == self.params(),
    {
        match self {
            KcpMode::Normal => Some((0, 40, 2, 1)),
            KcpMode::Fast => Some((0, 30, 2, 1)),
            KcpMode::Fast2 => Some((1, 20, 2, 1)),
            KcpMode::Fast3 => Some((1, 10, 2, 1)),
            KcpMode::Manual => None,
        }
    }
}

/// What an endpoint is made with.
#[derive(Clone, Copy, Debug, PartialEq, Eq, Structural)]
pub struct KcpConfig {
    pub conv: u32,
    pub token: u32,
    pub mtu: u32,
    pub sndwnd: u32,
    pub rcvwnd: u32,
    pub mode: KcpMode,
    pub stream: bool,
    pub acknodelay: bool,
    pub nodelay: u32,
    pub interval: u32,
    pub resend: u32,
    pub nc: u32,
    pub datashard: u32,
    pub parityshard: u32,
}

impl KcpConfig {
    /// The timing settings in force: those of the profile, or the explicit ones
    /// under the manual profile.
    pub open spec fn timing(self) -> (u32, u32, u32, u32) {
        match self.mode.params() {
            Some(p) => p,
            None => (self.nodelay, self.interval, self.resend, self.nc),
        }
    }

    /// Error correction is on: there are data shards and parity shards.
    pub open spec fn fec(self) -> bool {
        self.datashard > 0 && self.parityshard > 0
    }

    /// Whether error correction is on.
    pub fn fec_enabled(&self) -> (on: bool)
        ensures
            on == self.fec(),
    {
        self.datashard > 0 && self.parityshard > 0
    }

    /// Whether the timing settings in force ask for nodelay.
    pub fn nodelay_enabled(&self) -> (on: bool)
        ensures
            on == (self.timing().0 != 0),
    {
        match self.mode.nodelay_params() {
            Some(p) => p.0 != 0,
            None => self.nodelay != 0,
        }
    }
}

/// What an endpoint is made with unless it is told otherwise.
pub open spec fn default_config() -> KcpConfig {
    KcpConfig {
        conv: DEFAULT_CONV,
        token: 0,
        mtu: 1350,
        sndwnd: 128,
        rcvwnd: 128,
        mode: KcpMode::Fast3,
        stream: true,
        acknodelay: true,
        nodelay: 1,
        interval: 10,
        resend: 2,
        nc: 1,
        datashard: 0,
        parityshard: 0,
    }
}

impl Default for KcpConfig {
    fn default() -> (c: Self)
        ensures
            c == default_config(),
    {
        KcpConfig {
            conv: DEFAULT_CONV,
            token: 0,
            mtu: 1350,
            sndwnd: 128,
            rcvwnd: 128,
            mode: KcpMode::Fast3,
            stream: true,
            acknodelay: true,
            nodelay: 1,
            interval: 10,
            resend: 2,
            nc: 1,
            datashard: 0,
            parityshard: 0,
        }
    }
}

/// The settings that a KCP endpoint runs with.
#[derive(Clone, Copy, Debug, PartialEq, Eq, Structural)]
pub struct KCP {
    pub conv: u32,
    pub token: u32,
    pub mode: KcpMode,
    pub nodelay: u32,
    pub interval: u32,
    pub resend: u32,
    pub nc: u32,
    pub mtu: u32,
    pub snd_wnd: u32,
    pub rcv_wnd: u32,
    pub stream: bool,
}

impl KCP {
    /// The timing settings: nodelay, interval, resend, nc.
    pub open spec fn timing(self) -> (u32, u32, u32, u32) {
        (self.nodelay, self.interval, self.resend, self.nc)
    }

    /// The endpoint with the profile `m` and its timing.
    pub open spec fn with_profile(self, m: KcpMode) -> KCP {
        match m.params() {
            Some((nodelay, interval, resend, nc)) => KCP {
                mode: m,
                nodelay,
                interval,
                resend,
                nc,
                ..self
            },
            None => self,
        }
    }

    /// An endpoint of a conversation, with the default settings.
    pub fn new(conv: u32, token: u32) -> (k: Self)
        ensures
            k == (KCP {
                conv,
                token,
                mode: KcpMode::Fast3,
                nodelay: 1,
                interval: 10,
                resend: 2,
                nc: 1,
                mtu: 1350,
                snd_wnd: 128,
                rcv_wnd: 128,
                stream: true,
            }),
    {
        KCP {
            conv,
            token,
            mode: KcpMode::Fast3,
            nodelay: 1,
            interval: 10,
            resend: 2,
            nc: 1,
            mtu: 1350,
            snd_wnd: 128,
            rcv_wnd: 128,
            stream: true,
        }
    }

    /// Sets the timing explicitly.
    pub fn set_nodelay(&mut self, nodelay: u32, interval: u32, resend: u32, nc: u32)
        ensures
            *final(self) == (KCP {
                mode: KcpMode::Manual,
                nodelay,
                interval,
                resend,
                nc,
                ..*old(self)
            }),
    {
        self.mode = KcpMode::Manual;
        self.nodelay = nodelay;
        self.interval = interval;
        self.resend = resend;
        self.nc = nc;
    }

    /// Sets the profile and the timing that goes with it.
    pub fn set_mode(&mut self, mode: KcpMode, nodelay: u32, interval: u32, resend: u32, nc: u32)
        ensures
            *final(self) == (KCP { mode, nodelay, interval, resend, nc, ..*old(self) }),
    {
        self.mode = mode;
        self.nodelay = nodelay;
        self.interval = interval;
        self.resend = resend;
        self.nc = nc;
    }

    /// Takes over the settings of a configuration.
    pub fn apply(&mut self, config: &KcpConfig)
        ensures
            final(self).timing() == config.timing(),
            *final(self) == (KCP {
                mode: config.mode,
                mtu: config.mtu,
                snd_wnd: config.sndwnd,
                rcv_wnd: config.rcvwnd,
                stream: config.stream,
                nodelay: config.timing().0,
                interval: config.timing().1,
                resend: config.timing().2,
                nc: config.timing().3,
                ..*old(self)
            }),
    {
        self.mtu = config.mtu;
        self.snd_wnd = config.sndwnd;
        self.rcv_wnd = config.rcvwnd;
        self.stream = config.stream;
        match config.mode.nodelay_params() {
            Some(p) => self.set_mode(config.mode, p.0, p.1, p.2, p.3),
            None => self.set_nodelay(config.nodelay, config.interval, config.resend, config.nc),
        }
    }

    /// The update interval in milliseconds.
    pub fn interval(&self) -> (i: u32)
        ensures
            i == self.interval,
    {
        self.interval
    }

    /// The largest datagram.
    pub fn mtu(&self) -> (m: u32)
        ensures
            m == self.mtu,
    {
        self.mtu
    }

    /// The send window in segments.
    pub fn snd_wnd(&self) -> (w: u32)
        ensures
            w == self.snd_wnd,
    {
        self.snd_wnd
    }
}

} // verus!
