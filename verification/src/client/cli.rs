//! The options of the client: command line and configuration file.

use vstd::prelude::*;

verus! {

/// What a configuration file may set.
#[derive(Clone, Debug, Default)]
pub struct Config {
    pub localaddr: Option<String>,
    pub remoteaddr: Option<String>,
    pub key: Option<String>,
    pub crypt: Option<String>,
    pub mode: Option<String>,
    pub conn: Option<u32>,
    pub autoexpire: Option<u64>,
    pub scavengettl: Option<u64>,
    pub mtu: Option<u32>,
    pub ratelimit: Option<u32>,
    pub sndwnd: Option<u32>,
    pub rcvwnd: Option<u32>,
    pub datashard: Option<u32>,
    pub parityshard: Option<u32>,
    pub dscp: Option<u32>,
    pub nocomp: Option<bool>,
    pub acknodelay: Option<bool>,
    pub nodelay: Option<u32>,
    pub interval: Option<u32>,
    pub resend: Option<u32>,
    pub nc: Option<u32>,
    pub sockbuf: Option<u32>,
    pub smuxver: Option<u8>,
    pub smuxbuf: Option<usize>,
    pub streambuf: Option<usize>,
    pub framesize: Option<usize>,
    pub keepalive: Option<u64>,
    pub closewait: Option<u64>,
    pub snmplog: Option<String>,
    pub snmpperiod: Option<u64>,
    pub log: Option<String>,
    pub quiet: Option<bool>,
    pub tcp: Option<bool>,
    pub pprof: Option<String>,
    pub qpp: Option<bool>,
    pub qppcount: Option<u16>,
}

/// What the command line may set.
#[derive(Clone, Debug)]
pub struct Cli {
    /// Local listening address.
    pub localaddr: Option<String>,
    /// Remote server address.
    pub remoteaddr: Option<String>,
    /// Pre-shared secret between client and server.
    pub key: Option<String>,
    /// Encryption method.
    pub crypt: Option<String>,
    /// Protocol mode: normal, fast, fast2, fast3.
    pub mode: Option<String>,
    /// Number of UDP connections to use.
    pub conn: Option<u32>,
    /// Expire connections after so many seconds without activity.
    pub autoexpire: Option<u64>,
    /// Seconds that an expired connection is kept.
    pub scavengettl: Option<u64>,
    /// Largest datagram.
    pub mtu: Option<u32>,
    /// Bytes per second and connection; 0 is no limit.
    pub ratelimit: u32,
    /// Send window.
    pub sndwnd: Option<u32>,
    /// Receive window.
    pub rcvwnd: Option<u32>,
    /// Data shards of error correction.
    pub datashard: Option<u32>,
    /// Parity shards of error correction.
    pub parityshard: Option<u32>,
    /// DSCP value of IP packets.
    pub dscp: Option<u32>,
    /// Turn compression off.
    pub nocomp: bool,
    /// Send acknowledgements at once.
    pub acknodelay: bool,
    /// KCP nodelay.
    pub nodelay: Option<u32>,
    /// KCP update interval in milliseconds.
    pub interval: Option<u32>,
    /// KCP fast resend threshold.
    pub resend: Option<u32>,
    /// Turn KCP congestion control off.
    pub nc: Option<u32>,
    /// Socket buffer size in bytes.
    pub sockbuf: Option<u32>,
    /// SMUX version, 1 or 2.
    pub smuxver: Option<u8>,
    /// SMUX receive buffer size.
    pub smuxbuf: Option<usize>,
    /// SMUX stream buffer size.
    pub streambuf: Option<usize>,
    /// Largest SMUX frame.
    pub framesize: Option<usize>,
    /// SMUX keepalive interval in seconds.
    pub keepalive: Option<u64>,
    /// Seconds to wait before closing.
    pub closewait: Option<u64>,
    /// Statistics log file.
    pub snmplog: Option<String>,
    /// Seconds between statistics lines.
    pub snmpperiod: Option<u64>,
    /// Log file.
    pub log: Option<String>,
    /// Suppress log output.
    pub quiet: bool,
    /// Use TCP segments in place of UDP.
    pub tcp: bool,
    /// Address of the profiling server.
    pub pprof: Option<String>,
    /// Turn the permutation pad on.
    pub qpp: bool,
    /// Number of pads, best a prime.
    pub qppcount: Option<u16>,
    /// Path of the configuration file.
    pub c: Option<String>,
    /// Print the version and exit.
    pub version_flag: bool,
}

/// The first of two choices that is made.
pub open spec fn first_of<T>(a: Option<T>, b: Option<T>) -> Option<T> {
    match a {
        Some(x) => Some(x),
        None => b,
    }
}

fn first_set<T>(a: Option<T>, b: Option<T>) -> (r: Option<T>)
    ensures
        r == first_of(a, b),
{
    match a {
        Some(x) => Some(x),
        None => b,
    }
}

fn either(flag: bool, cfg: Option<bool>) -> (r: bool)
    ensures
        r == (flag || cfg == Some(true)),
{
    if flag {
        true
    } else {
        match cfg {
            Some(b) => b,
            None => false,
        }
    }
}

impl Cli {
    /// The options of the command line and of a configuration file together;
    /// what the command line sets goes first. A switch is on where either has
    /// it on. The path of the configuration file comes from the command line
    /// only, and the version is not asked for any more.
    pub fn merge(cli: Self, cfg: Config) -> (r: Self)
        ensures
            r.localaddr == first_of(cli.localaddr, cfg.localaddr),
            r.remoteaddr == first_of(cli.remoteaddr, cfg.remoteaddr),
            r.key == first_of(cli.key, cfg.key),
            r.crypt == first_of(cli.crypt, cfg.crypt),
            r.mode == first_of(cli.mode, cfg.mode),
            r.conn == first_of(cli.conn, cfg.conn),
            r.autoexpire == first_of(cli.autoexpire, cfg.autoexpire),
            r.scavengettl == first_of(cli.scavengettl, cfg.scavengettl),
            r.mtu == first_of(cli.mtu, cfg.mtu),
            r.ratelimit == (if cli.ratelimit != 0 {
                cli.ratelimit
            } else {
                match cfg.ratelimit {
                    Some(v) => v,
                    None => 0,
                }
            }),
            r.sndwnd == first_of(cli.sndwnd, cfg.sndwnd),
            r.rcvwnd == first_of(cli.rcvwnd, cfg.rcvwnd),
            r.datashard == first_of(cli.datashard, cfg.datashard),
            r.parityshard == first_of(cli.parityshard, cfg.parityshard),
            r.dscp == first_of(cli.dscp, cfg.dscp),
            r.nocomp == (cli.nocomp || cfg.nocomp == Some(true)),
            r.acknodelay == (cli.acknodelay || cfg.acknodelay == Some(true)),
            r.nodelay == first_of(cli.nodelay, cfg.nodelay),
            r.interval == first_of(cli.interval, cfg.interval),
            r.resend == first_of(cli.resend, cfg.resend),
            r.nc == first_of(cli.nc, cfg.nc),
            r.sockbuf == first_of(cli.sockbuf, cfg.sockbuf),
            r.smuxver == first_of(cli.smuxver, cfg.smuxver),
            r.smuxbuf == first_of(cli.smuxbuf, cfg.smuxbuf),
            r.streambuf == first_of(cli.streambuf, cfg.streambuf),
            r.framesize == first_of(cli.framesize, cfg.framesize),
            r.keepalive == first_of(cli.keepalive, cfg.keepalive),
            r.closewait == first_of(cli.closewait, cfg.closewait),
            r.snmplog == first_of(cli.snmplog, cfg.snmplog),
            r.snmpperiod == first_of(cli.snmpperiod, cfg.snmpperiod),
            r.log == first_of(cli.log, cfg.log),
            r.quiet == (cli.quiet || cfg.quiet == Some(true)),
            r.tcp == (cli.tcp || cfg.tcp == Some(true)),
            r.pprof == first_of(cli.pprof, cfg.pprof),
            r.qpp == (cli.qpp || cfg.qpp == Some(true)),
            r.qppcount == first_of(cli.qppcount, cfg.qppcount),
            r.c == cli.c,
            !r.version_flag,
    {
        Cli {
            localaddr: first_set(cli.localaddr, cfg.localaddr),
            remoteaddr: first_set(cli.remoteaddr, cfg.remoteaddr),
            key: first_set(cli.key, cfg.key),
            crypt: first_set(cli.crypt, cfg.crypt),
            mode: first_set(cli.mode, cfg.mode),
            conn: first_set(cli.conn, cfg.conn),
            autoexpire: first_set(cli.autoexpire, cfg.autoexpire),
            scavengettl: first_set(cli.scavengettl, cfg.scavengettl),
            mtu: first_set(cli.mtu, cfg.mtu),
            ratelimit: if cli.ratelimit != 0 {
                cli.ratelimit
            } else {
                match cfg.ratelimit {
                    Some(v) => v,
                    None => 0,
                }
            },
            sndwnd: first_set(cli.sndwnd, cfg.sndwnd),
            rcvwnd: first_set(cli.rcvwnd, cfg.rcvwnd),
            datashard: first_set(cli.datashard, cfg.datashard),
            parityshard: first_set(cli.parityshard, cfg.parityshard),
            dscp: first_set(cli.dscp, cfg.dscp),
            nocomp: either(cli.nocomp, cfg.nocomp),
            acknodelay: either(cli.acknodelay, cfg.acknodelay),
            nodelay: first_set(cli.nodelay, cfg.nodelay),
            interval: first_set(cli.interval, cfg.interval),
            resend: first_set(cli.resend, cfg.resend),
            nc: first_set(cli.nc, cfg.nc),
            sockbuf: first_set(cli.sockbuf, cfg.sockbuf),
            smuxver: first_set(cli.smuxver, cfg.smuxver),
            smuxbuf: first_set(cli.smuxbuf, cfg.smuxbuf),
            streambuf: first_set(cli.streambuf, cfg.streambuf),
            framesize: first_set(cli.framesize, cfg.framesize),
            keepalive: first_set(cli.keepalive, cfg.keepalive),
            closewait: first_set(cli.closewait, cfg.closewait),
            snmplog: first_set(cli.snmplog, cfg.snmplog),
            snmpperiod: first_set(cli.snmpperiod, cfg.snmpperiod),
            log: first_set(cli.log, cfg.log),
            quiet: either(cli.quiet, cfg.quiet),
            tcp: either(cli.tcp, cfg.tcp),
            pprof: first_set(cli.pprof, cfg.pprof),
            qpp: either(cli.qpp, cfg.qpp),
            qppcount: first_set(cli.qppcount, cfg.qppcount),
            c: cli.c,
            version_flag: false,
        }
    }
}

} // verus!
