//! What the options come to: defaults filled in, and the settings derived from
//! them.

use crate::client::cli::Cli;
use crate::smux::conn::SmuxConfig;
use crate::text::push_decimal;
use vstd::prelude::*;
use vstd::string::*;

verus! {

/// The value that is set, or else the default.
pub open spec fn or_default<T>(v: Option<T>, d: T) -> T {
    match v {
        Some(x) => x,
        None => d,
    }
}

/// The text that is set, or else the default.
pub open spec fn text_or(v: Option<String>, d: Seq<char>) -> Seq<char> {
    match v {
        Some(s) => s@,
        None => d,
    }
}

fn set_or<T>(v: Option<T>, d: T) -> (r: T)
    ensures
        r == or_default(v, d),
{
    match v {
        Some(x) => x,
        None => d,
    }
}

fn text_set_or(v: &Option<String>, d: &str) -> (r: String)
    ensures
        r@ == text_or(*v, d@),
{
    match v {
        Some(s) => s.clone(),
        None => d.to_owned(),
    }
}

/// The settings of a session, shared by dialing and redialing.
#[derive(Clone, Debug)]
pub struct SessionConfig {
    pub crypt: String,
    pub mode: String,
    pub mtu: u32,
    pub sndwnd: u32,
    pub rcvwnd: u32,
    pub datashard: u32,
    pub parityshard: u32,
    pub acknodelay: bool,
    pub nodelay: u32,
    pub interval: u32,
    pub resend: u32,
    pub nc: u32,
    pub smuxver: u8,
    pub smuxbuf: usize,
    pub streambuf: usize,
    pub framesize: usize,
    pub keepalive: u64,
    pub nocomp: bool,
    pub ratelimit: u32,
}

/// The settings of a client, with every default filled in.
#[derive(Clone, Debug)]
pub struct ClientOptions {
    pub local_addr: String,
    pub remote_addr: String,
    pub key: String,
    pub session: SessionConfig,
    pub conn_count: u32,
    pub sockbuf: u32,
    pub dscp: u32,
    pub autoexpire: u64,
    pub scavengettl: u64,
    pub closewait: u64,
    pub quiet: bool,
    pub tcp: bool,
    pub qpp: bool,
    pub qpp_count: u16,
}

/// What is wrong with the command line of a client.
#[derive(Clone, Copy, Debug, PartialEq, Eq, Structural)]
pub enum OptionsError {
    /// No remote address was given.
    MissingRemote,
}

/// `o` is what the command line says, with the default of a client wherever
/// it says nothing. The remote address has no default.
pub open spec fn filled_in(cli: Cli, o: ClientOptions) -> bool {
    &&& cli.remoteaddr is Some
    &&& o.remote_addr@ == cli.remoteaddr->0@
    &&& o.local_addr@ == text_or(cli.localaddr, ":12948"@)
    &&& o.key@ == text_or(cli.key, "it's a secrect"@)
    &&& o.session.crypt@ == text_or(cli.crypt, "aes"@)
    &&& o.session.mode@ == text_or(cli.mode, "fast"@)
    &&& o.session.mtu == or_default(cli.mtu, 1350)
    &&& o.session.sndwnd == or_default(cli.sndwnd, 128)
    &&& o.session.rcvwnd == or_default(cli.rcvwnd, 512)
    &&& o.session.datashard == or_default(cli.datashard, 10)
    &&& o.session.parityshard == or_default(cli.parityshard, 3)
    &&& o.session.acknodelay == cli.acknodelay
    &&& o.session.nodelay == or_default(cli.nodelay, 0)
    &&& o.session.interval == or_default(cli.interval, 50)
    &&& o.session.resend == or_default(cli.resend, 0)
    &&& o.session.nc == or_default(cli.nc, 0)
    &&& o.session.smuxver == or_default(cli.smuxver, 2)
    &&& o.session.smuxbuf == or_default(cli.smuxbuf, 4194304)
    &&& o.session.streambuf == or_default(cli.streambuf, 2097152)
    &&& o.session.framesize == or_default(cli.framesize, 8192)
    &&& o.session.keepalive == or_default(cli.keepalive, 10)
    &&& o.session.nocomp == cli.nocomp
    &&& o.session.ratelimit == cli.ratelimit
    &&& o.conn_count == (if or_default(cli.conn, 1) == 0 {
        1
    } else {
        or_default(cli.conn, 1)
    })
    &&& o.sockbuf == or_default(cli.sockbuf, 4194304)
    &&& o.dscp == or_default(cli.dscp, 0)
    &&& o.autoexpire == or_default(cli.autoexpire, 0)
    &&& o.scavengettl == or_default(cli.scavengettl, 600)
    &&& o.closewait == or_default(cli.closewait, 0)
    &&& o.quiet == cli.quiet
    &&& o.tcp == cli.tcp
    &&& o.qpp == cli.qpp
    &&& o.qpp_count == or_default(cli.qppcount, 61)
}

/// Fills in the defaults of a client. Without a remote address there is
/// nothing to connect to, and the command line is refused.
pub fn client_options(cli: &Cli) -> (r: Result<ClientOptions, OptionsError>)
    ensures
        r is Ok <==> cli.remoteaddr is Some,
        r is Ok ==> filled_in(*cli, r->Ok_0),
        r is Err ==> r->Err_0 == OptionsError::MissingRemote,
{
    if cli.remoteaddr.is_none() {
        return Err(OptionsError::MissingRemote);
    }
    let conn: u32 = set_or(cli.conn, 1);
    let options = ClientOptions {
        local_addr: text_set_or(&cli.localaddr, ":12948"),
        remote_addr: text_set_or(&cli.remoteaddr, ""),
        key: text_set_or(&cli.key, "it's a secrect"),
        session: SessionConfig {
            crypt: text_set_or(&cli.crypt, "aes"),
            mode: text_set_or(&cli.mode, "fast"),
            mtu: set_or(cli.mtu, 1350),
            sndwnd: set_or(cli.sndwnd, 128),
            rcvwnd: set_or(cli.rcvwnd, 512),
            datashard: set_or(cli.datashard, 10),
            parityshard: set_or(cli.parityshard, 3),
            acknodelay: cli.acknodelay,
            nodelay: set_or(cli.nodelay, 0),
            interval: set_or(cli.interval, 50),
            resend: set_or(cli.resend, 0),
            nc: set_or(cli.nc, 0),
            smuxver: set_or(cli.smuxver, 2),
            smuxbuf: set_or(cli.smuxbuf, 4194304),
            streambuf: set_or(cli.streambuf, 2097152),
            framesize: set_or(cli.framesize, 8192),
            keepalive: set_or(cli.keepalive, 10),
            nocomp: cli.nocomp,
            ratelimit: cli.ratelimit,
        },
        conn_count: if conn == 0 {
            1
        } else {
            conn
        },
        sockbuf: set_or(cli.sockbuf, 4194304),
        dscp: set_or(cli.dscp, 0),
        autoexpire: set_or(cli.autoexpire, 0),
        scavengettl: set_or(cli.scavengettl, 600),
        closewait: set_or(cli.closewait, 0),
        quiet: cli.quiet,
        tcp: cli.tcp,
        qpp: cli.qpp,
        qpp_count: set_or(cli.qppcount, 61),
    };
    Ok(options)
}

/// What the statistics log is to be.
#[derive(Clone, Debug)]
pub enum SnmpPlan {
    /// No log was asked for.
    Off,
    /// One was asked for, but with an empty path or a period of 0.
    Disabled,
    /// Lines go to `path` every `period_secs` seconds.
    Log { path: String, period_secs: u64 },
}

/// Whether and how statistics are logged.
pub fn snmp_plan(cli: &Cli) -> (p: SnmpPlan)
    ensures
        match cli.snmplog {
            None => p is Off,
            Some(path) => if path@.len() > 0 && or_default(cli.snmpperiod, 60) > 0 {
                &&& p is Log
                &&& p->path@ == path@
                &&& p->period_secs == or_default(cli.snmpperiod, 60)
            } else {
                p is Disabled
            },
        },
{
    match &cli.snmplog {
        None => SnmpPlan::Off,
        Some(path) => {
            let period_secs: u64 = set_or(cli.snmpperiod, 60);
            if period_secs > 0 && !path.as_str().is_empty() {
                SnmpPlan::Log { path: path.clone(), period_secs }
            } else {
                SnmpPlan::Disabled
            }
        },
    }
}

/// How long a peer may be silent: three keepalive intervals, as far as that
/// can be counted; 0, which is forever, without keepalive.
pub open spec fn keepalive_timeout(keepalive: u64) -> u64 {
    if keepalive * 3 > u64::MAX {
        u64::MAX
    } else {
        (keepalive * 3) as u64
    }
}

/// The settings of the multiplexed session that a session carries.
pub fn smux_config(cfg: &SessionConfig) -> (s: SmuxConfig)
    ensures
        s == (SmuxConfig {
            version: cfg.smuxver,
            max_receive_buffer: cfg.smuxbuf,
            max_stream_buffer: cfg.streambuf,
            max_frame_size: cfg.framesize,
            keepalive_interval: cfg.keepalive,
            keepalive_timeout: keepalive_timeout(cfg.keepalive),
        }),
{
    let timeout: u64 = match cfg.keepalive.checked_mul(3) {
        Some(t) => t,
        None => u64::MAX,
    };
    SmuxConfig {
        version: cfg.smuxver,
        max_receive_buffer: cfg.smuxbuf,
        max_stream_buffer: cfg.streambuf,
        max_frame_size: cfg.framesize,
        keepalive_interval: cfg.keepalive,
        keepalive_timeout: timeout,
    }
}

/// The KCP endpoint that a session starts with: the windows and the timing of
/// the options, in stream mode.
pub fn kcp_endpoint(cfg: &SessionConfig) -> (k: crate::kcp::config::KCP)
    ensures
        k.conv == crate::kcp::config::DEFAULT_CONV,
        k.token == 0,
        k.mtu == cfg.mtu,
        k.snd_wnd == cfg.sndwnd,
        k.rcv_wnd == cfg.rcvwnd,
        k.stream,
        match crate::common::mode::mode_named(cfg.mode@) {
            Some(m) => k.mode == m && Some(k.timing()) == m.params(),
            None => k.mode == crate::kcp::config::KcpMode::Manual && k.timing() == (
                cfg.nodelay,
                if cfg.interval >= 10 {
                    cfg.interval
                } else {
                    40
                },
                cfg.resend,
                cfg.nc,
            ),
        },
{
    let mut k = crate::kcp::config::KCP::new(crate::kcp::config::DEFAULT_CONV, 0);
    k.mtu = cfg.mtu;
    k.snd_wnd = cfg.sndwnd;
    k.rcv_wnd = cfg.rcvwnd;
    k.stream = true;
    crate::common::mode::apply_mode_or_manual(
        &mut k,
        cfg.mode.as_str(),
        cfg.nodelay,
        cfg.interval,
        cfg.resend,
        cfg.nc,
    );
    k
}

/// The size of a client's socket buffers: 2 MiB where none is asked for.
pub fn client_sockbuf(sockbuf: u32) -> (n: usize)
    ensures
        n == (if sockbuf > 0 {
            sockbuf as int
        } else {
            2097152
        }),
{
    if sockbuf > 0 {
        sockbuf as usize
    } else {
        2097152
    }
}

/// The type-of-service byte that a DSCP value makes, if one is asked for: the
/// value above the two lowest bits.
pub fn tos_of_dscp(dscp: u32) -> (t: Option<u32>)
    ensures
        t == (if dscp > 0 {
            Some((dscp * 4 % 0x1_0000_0000) as u32)
        } else {
            None
        }),
{
    if dscp > 0 {
        Some(dscp.wrapping_mul(4))
    } else {
        None
    }
}

/// `path.i`.
pub open spec fn rotated(path: Seq<char>, i: nat) -> Seq<char> {
    path + seq!['.'] + crate::text::decimal(i)
}

fn rotated_name(path: &str, i: u64) -> (s: String)
    ensures
        s@ == rotated(path@, i as nat),
{
    let mut s: String = path.to_owned();
    s.push('.');
    push_decimal(&mut s, i);
    assert(s@ =~= rotated(path@, i as nat));
    s
}

/// The renames that rotate a log file of `len` bytes which is to hold
/// `max_size`: none while it fits; else the four older copies move up by one,
/// oldest first, and the file becomes the first copy.
pub fn rotate_log_plan(log_path: &str, len: u64, max_size: u64) -> (plan: Vec<(String, String)>)
    ensures
        len <= max_size ==> plan@.len() == 0,
        len > max_size ==> {
            &&& plan@.len() == 5
            &&& forall|k: int|
                0 <= k < 4 ==> (#[trigger] plan@[k]).0@ == rotated(log_path@, (4 - k) as nat)
                    && plan@[k].1@ == rotated(log_path@, (5 - k) as nat)
            &&& plan@[4].0@ == log_path@
            &&& plan@[4].1@ == rotated(log_path@, 1)
        },
{
    let mut plan: Vec<(String, String)> = Vec::new();
    if len > max_size {
        let mut i: u64 = 4;
        while i > 0
            invariant
                i <= 4,
                plan@.len() == 4 - i,
                forall|k: int|
                    0 <= k < plan@.len() ==> (#[trigger] plan@[k]).0@ == rotated(
                        log_path@,
                        (4 - k) as nat,
                    ) && plan@[k].1@ == rotated(log_path@, (5 - k) as nat),
            decreases i,
        {
            plan.push((rotated_name(log_path, i), rotated_name(log_path, i + 1)));
            i = i - 1;
        }
        plan.push((log_path.to_owned(), rotated_name(log_path, 1)));
    }
    plan
}

} // verus!
