//! The client: options, pool and connections.

use kcptun::client::cli::{Cli, Config};
use kcptun::client::conn::{
    client_packets, received, send_pieces, taken_in, ClientConn, ReceiverStep, SendResult,
    SenderStart, RECV_REST_MS,
};
use kcptun::client::options::{
    client_options, client_sockbuf, kcp_endpoint, rotate_log_plan, smux_config, snmp_plan, OptionsError,
    tos_of_dscp, SnmpPlan,
};
use kcptun::client::pool::{is_expired, scavenge, OpenStep, RoundRobin};
use kcptun::common::kcptun_session::{Seen, StreamState};
use kcptun::common::session::{ack_session_id, has_encryption};

fn empty_cli() -> Cli {
    Cli {
        localaddr: None,
        remoteaddr: None,
        key: None,
        crypt: None,
        mode: None,
        conn: None,
        autoexpire: None,
        scavengettl: None,
        mtu: None,
        ratelimit: 0,
        sndwnd: None,
        rcvwnd: None,
        datashard: None,
        parityshard: None,
        dscp: None,
        nocomp: false,
        acknodelay: false,
        nodelay: None,
        interval: None,
        resend: None,
        nc: None,
        sockbuf: None,
        smuxver: None,
        smuxbuf: None,
        streambuf: None,
        framesize: None,
        keepalive: None,
        closewait: None,
        snmplog: None,
        snmpperiod: None,
        log: None,
        quiet: false,
        tcp: false,
        pprof: None,
        qpp: false,
        qppcount: None,
        c: None,
        version_flag: false,
    }
}

#[test]
fn test_cli_merge() {
    let cli = Cli {
        localaddr: Some("0.0.0.0:8080".into()),
        remoteaddr: None,
        key: None,
        crypt: None,
        mode: None,
        conn: None,
        autoexpire: None,
        scavengettl: None,
        mtu: None,
        ratelimit: 0,
        sndwnd: None,
        rcvwnd: None,
        datashard: None,
        parityshard: None,
        dscp: None,
        nocomp: false,
        acknodelay: false,
        nodelay: None,
        interval: None,
        resend: None,
        nc: None,
        sockbuf: None,
        smuxver: None,
        smuxbuf: None,
        streambuf: None,
        framesize: None,
        keepalive: None,
        closewait: None,
        snmplog: None,
        snmpperiod: None,
        log: None,
        quiet: false,
        tcp: false,
        pprof: None,
        qpp: false,
        qppcount: None,
        c: None,
        version_flag: false,
    };
    let cfg = Config {
        remoteaddr: Some("server:1234".into()),
        key: Some("cfg-key".into()),
        ..Default::default()
    };
    let merged = Cli::merge(cli, cfg);
    assert_eq!(merged.localaddr.as_deref(), Some("0.0.0.0:8080"));
    assert_eq!(merged.remoteaddr.as_deref(), Some("server:1234"));
    assert_eq!(merged.key.as_deref(), Some("cfg-key"));
}

#[test]
fn command_line_goes_first() {
    let mut cli = empty_cli();
    cli.mtu = Some(1200);
    cli.version_flag = true;
    let cfg = Config {
        mtu: Some(900),
        ratelimit: Some(77),
        nocomp: Some(true),
        ..Default::default()
    };
    let merged = Cli::merge(cli, cfg);
    assert_eq!(merged.mtu, Some(1200));
    assert_eq!(merged.ratelimit, 77);
    assert!(merged.nocomp);
    assert!(!merged.version_flag);
}

#[test]
fn defaults_are_filled_in() {
    let mut cli = empty_cli();
    cli.remoteaddr = Some("vps:29900".to_string());
    let o = client_options(&cli).unwrap();
    assert_eq!(o.local_addr, ":12948");
    assert_eq!(o.remote_addr, "vps:29900");
    assert_eq!(o.session.crypt, "aes");
    assert_eq!(o.session.mode, "fast");
    assert_eq!(o.session.mtu, 1350);
    assert_eq!((o.session.sndwnd, o.session.rcvwnd), (128, 512));
    assert_eq!((o.session.datashard, o.session.parityshard), (10, 3));
    assert_eq!(o.session.keepalive, 10);
    assert_eq!(o.conn_count, 1);
    assert_eq!(o.scavengettl, 600);
    assert_eq!(o.qpp_count, 61);
    let s = smux_config(&o.session);
    assert_eq!(s.version, 2);
    assert_eq!((s.keepalive_interval, s.keepalive_timeout), (10, 30));
    let k = kcp_endpoint(&o.session);
    assert_eq!(k.mtu(), 1350);
    assert_eq!(k.snd_wnd(), 128);
}

#[test]
fn no_connection_count_is_less_than_one() {
    let mut cli = empty_cli();
    cli.remoteaddr = Some("vps:29900".to_string());
    cli.conn = Some(0);
    assert_eq!(client_options(&cli).unwrap().conn_count, 1);
}

#[test]
fn remote_address_is_required() {
    let mut cli = empty_cli();
    assert_eq!(client_options(&cli).err(), Some(OptionsError::MissingRemote));
    cli.remoteaddr = Some("10.0.0.1:4000".to_string());
    assert_eq!(client_options(&cli).unwrap().remote_addr, "10.0.0.1:4000");
}

#[test]
fn statistics_are_off_unless_asked_for() {
    let mut cli = empty_cli();
    assert!(matches!(snmp_plan(&cli), SnmpPlan::Off));
    cli.snmplog = Some("x.log".into());
    assert!(matches!(snmp_plan(&cli), SnmpPlan::Log { period_secs: 60, .. }));
    cli.snmpperiod = Some(0);
    assert!(matches!(snmp_plan(&cli), SnmpPlan::Disabled));
}

#[test]
fn small_settings() {
    assert!(has_encryption("aes") && has_encryption("none") && !has_encryption("null"));
    assert_eq!(ack_session_id(0xDEADBEEF), 0x7FB10E10);
    assert_eq!(client_sockbuf(0), 2097152);
    assert_eq!(client_sockbuf(9), 9);
    assert_eq!(tos_of_dscp(0), None);
    assert_eq!(tos_of_dscp(46), Some(184));
}

#[test]
fn logs_rotate_when_they_are_full() {
    assert!(rotate_log_plan("a.log", 10, 10).is_empty());
    let plan = rotate_log_plan("a.log", 11, 10);
    assert_eq!(plan[0], ("a.log.4".to_string(), "a.log.5".to_string()));
    assert_eq!(plan[3], ("a.log.1".to_string(), "a.log.2".to_string()));
    assert_eq!(plan[4], ("a.log".to_string(), "a.log.1".to_string()));
    assert_eq!(plan.len(), 5);
}

#[test]
fn test_is_expired_when_recently_active() {
    assert!(
        !is_expired(50, 3600, 600, 50),
        "fresh connection must not be expired"
    );
}

#[test]
fn test_is_expired_with_zero_autoexpire() {
    assert!(
        is_expired(50, 0, 0, 55),
        "zero autoexpire+scavengettl must expire immediately"
    );
}

#[test]
fn test_is_expired_respects_scavengettl() {
    assert!(
        !is_expired(50, 0, 3600, 50),
        "scavengettl grace period must prevent expiry"
    );
    assert!(is_expired(50, 0, 0, 55), "zero scavengettl must expire");
}

#[test]
fn scavenger_leaves_the_dead_alone() {
    assert!(scavenge(false, 0, 1, 1, 2001));
    assert!(!scavenge(false, 0, 1, 1, 2000));
    assert!(!scavenge(true, 0, 1, 1, 9000));
    assert!(!scavenge(false, 0, u64::MAX, 1, 9000));
}

#[test]
fn connections_take_turns() {
    let mut rr = RoundRobin { next: 0 };
    let picks: Vec<usize> = (0..5).map(|_| rr.pick(3)).collect();
    assert_eq!(picks, vec![0, 1, 2, 0, 1]);
}

#[test]
fn opening_is_tried_twice() {
    let s = OpenStep::start().next(false);
    assert_eq!(s, OpenStep::Reconnect { attempt: 0 });
    assert_eq!(s.next(false), OpenStep::GiveUp);
    let s = s.next(true).next(false);
    assert_eq!(s, OpenStep::Probe { attempt: 1 });
    assert_eq!(s.next(true).next(true), OpenStep::Opened);
    assert_eq!(s.next(true).next(false), OpenStep::GiveUp);
}

#[test]
fn client_takes_packets_from_datagrams() {
    let lost = vec![b"lost".to_vec()];
    let data = [0, 0, 0, 0, 0xf1, 0, 0, 0, 5, 6];
    assert_eq!(
        client_packets(true, &data, lost.clone()),
        vec![vec![5, 6], b"lost".to_vec()]
    );
    let parity = [0, 0, 0, 0, 0xf2, 0, 0, 0, 5, 6];
    assert_eq!(client_packets(true, &parity, lost.clone()), lost);
    let oob = [0, 0, 0, 0, 0xf3, 0, 0, 0, 5, 6];
    assert!(client_packets(true, &oob, lost).is_empty());
    assert_eq!(client_packets(true, &[9; 6], vec![]), vec![vec![9; 6]]);
    assert!(client_packets(true, &[9; 5], vec![]).is_empty());
    assert!(client_packets(false, &[9; 23], vec![]).is_empty());
    assert_eq!(client_packets(false, &[9; 24], vec![]), vec![vec![9; 24]]);
}

#[test]
fn receiver_drains_and_rests() {
    assert_eq!(received(Some(3)), ReceiverStep::TakeIn(3));
    assert_eq!(received(Some(0)), ReceiverStep::Wait);
    assert_eq!(received(None), ReceiverStep::Rest(RECV_REST_MS));
    assert_eq!(taken_in(Some(9)), ReceiverStep::TakeIn(9));
    assert_eq!(taken_in(None), ReceiverStep::Wait);
}

#[test]
fn pieces_make_up_the_data() {
    assert_eq!(send_pieces(10, 2, 3), vec![(0, 4), (4, 8), (8, 10)]);
    assert_eq!(send_pieces(8, 2, 3), vec![(0, 4), (4, 8)]);
    assert_eq!(send_pieces(3, 2, 0), vec![(0, 2), (2, 3)]);
    assert!(send_pieces(0, 2, 3).is_empty());
}

const QUIET: Seen = Seen { link_dead: false, timed_out: false, due: false };

fn client_conn() -> ClientConn {
    ClientConn::new(true, false, 4, 0, 100, 0)
}

fn busy_stream(window: usize) -> StreamState {
    StreamState {
        id: 1,
        local_closed: false,
        remote_closed: false,
        fin_sent: false,
        pending_send: 9,
        peer_send_window: window,
        local_closed_elapsed: None,
    }
}

#[test]
fn fins_need_all_their_data_taken() {
    let mut c = client_conn();
    let r = c.pack(b"frames", vec![3, 4], &vec![]);
    assert_eq!(r.packet.unwrap(), b"frames");
    assert_eq!(c.handed_over(true), vec![3, 4]);
    c.pack(b"frames", vec![3, 4], &vec![]);
    assert!(c.handed_over(false).is_empty());
    assert!(c.pack(b"", vec![3, 4], &vec![]).packet.is_none());
    assert!(c.handed_over(true).is_empty());
}

#[test]
fn sender_rests_briefly() {
    let mut c = client_conn();
    assert_eq!(c.next_update, 2);
    c.flushed(100, 0);
    assert_eq!(c.next_update, 2);
    c.flushed(100, 5);
    assert_eq!((c.next_update, c.wait_send), (1, 5));
    c.flushed(0, 0);
    assert_eq!(c.next_update, 1);
    c.pack(b"x", vec![], &vec![]);
    c.flushed(100, 0);
    assert_eq!(c.next_update, 1);
    c.next_update = 2;
    assert!(!c.end_pass(&vec![busy_stream(0)]));
    assert_eq!(c.next_update, 2);
    assert!(c.end_pass(&vec![busy_stream(1)]));
    assert_eq!(c.next_update, 1);
}

#[test]
fn sender_looks_at_the_health() {
    let mut c = client_conn();
    let due = Seen { due: true, ..QUIET };
    let gone = Seen { timed_out: true, ..QUIET };
    assert_eq!(c.begin_pass(false, due), SenderStart::Go { keepalive: true });
    for _ in 0..50 {
        assert_eq!(c.begin_pass(false, gone), SenderStart::Go { keepalive: false });
    }
    assert_eq!(c.begin_pass(true, gone), SenderStart::End);
    assert_eq!(c.begin_pass(false, gone), SenderStart::Dead);
    assert_eq!(c.begin_pass(false, QUIET), SenderStart::End);
}

#[test]
fn packets_are_activity() {
    let mut c = client_conn();
    assert!(c.datagram(&[1; 23], vec![], 900).is_empty());
    assert_eq!(c.last_activity, 100);
    assert_eq!(c.datagram(&[1; 24], vec![], 900).len(), 1);
    assert_eq!(c.last_activity, 900);
    assert_eq!(c.message(b"frame"), b"frame");
    assert!(c.acked(3));
    assert!(!c.acked(4));
    assert_eq!(c.wait_send, 4);
    assert!(!c.is_expired(1, 0, 1900));
    assert!(c.is_expired(1, 0, 1901));
}

#[test]
fn refused_connection_is_given_up() {
    let mut c = client_conn();
    assert!(!c.is_dead(false, false));
    assert!(!c.sent(SendResult::Failed));
    assert!(!c.sent(SendResult::Sent));
    assert!(!c.is_dead(false, false));
    assert!(c.is_dead(true, false));
    assert!(!c.dead);
    assert!(c.sent(SendResult::Refused));
    assert!(c.is_dead(false, false));
    let mut other = client_conn();
    assert!(other.is_dead(false, true));
    assert!(other.dead);
}
