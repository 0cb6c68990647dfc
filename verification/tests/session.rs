//! Sessions, encrypted transports and multiplexed connections.

use kcptun::common::kcptun_session::{
    allow_fin, can_send, has_pending, stale_streams, AfterSessionRead, HealthCheck, KcptunConfig,
    KcptunSession,
    PassStart, Seen, SessionHealth, SessionRead, StreamState, HEALTH_PASSES, IDLE_WAKE_MS,
    STREAM_LINGER,
};
use kcptun::common::session::{
    recv_next, try_recv_next, CryptoTransport, Datagram, OpenError, Opened, RecvNext, Wrapping,
};
use kcptun::kcp::config::KcpConfig;
use kcptun::smux::conn::{
    read_task_done, AcceptStep, AfterRead, Batch, FlushLoop, Health, ReadEvent, RunLoop,
    SessionError, SmuxConfig, SmuxConn, HEALTH_INTERVAL,
};
use kcptun::smux::io::{Parked, SmuxIo, SmuxIoError, StreamWrite};

fn stream(id: u32) -> StreamState {
    StreamState {
        id,
        local_closed: false,
        remote_closed: false,
        fin_sent: false,
        pending_send: 0,
        peer_send_window: 0,
        local_closed_elapsed: None,
    }
}

#[test]
fn frames_come_through_compressed_and_cut() {
    let mut sender = KcptunSession::new(false, 0, 0);
    let mut receiver = KcptunSession::new(false, 0, 0);
    let mut wire: Vec<u8> = Vec::new();
    let long = vec![b'x'; 5000];
    wire.extend(sender.packet(&long).unwrap());
    assert!(wire.len() < 1000);
    wire.extend(sender.packet(b"tail").unwrap());
    assert!(sender.packet(b"").is_none());
    let mut got: Vec<u8> = Vec::new();
    for piece in wire.chunks(7) {
        got.extend(receiver.take_in(piece));
    }
    assert_eq!(got.len(), 5004);
    assert_eq!(&got[5000..], b"tail");
}

#[test]
fn frames_come_through_plain() {
    let mut s = KcptunSession::new(true, 0, 0);
    assert_eq!(s.packet(b"frame").unwrap(), b"frame");
    assert_eq!(s.take_in(b"frame"), b"frame");
}

#[test]
fn session_ends_for_any_reason() {
    let mut s = KcptunSession::new(true, 0, 0);
    assert!(!s.is_dead(false, false, false, false));
    assert!(s.is_dead(true, false, false, false));
    assert!(s.is_dead(false, true, false, false));
    assert!(s.is_dead(false, false, true, false));
    assert!(s.is_dead(false, false, false, true));
    assert!(s.goes_on(false, false) && !s.goes_on(true, false) && !s.goes_on(false, true));
    s.close();
    assert!(s.is_dead(false, false, false, false));
    assert!(!s.goes_on(false, false));
}

#[test]
fn session_reads_until_the_end() {
    assert_eq!(KcptunSession::read_done(SessionRead::Data(0), false), AfterSessionRead::End);
    assert_eq!(KcptunSession::read_done(SessionRead::Data(5), false), AfterSessionRead::TakeIn);
    assert_eq!(KcptunSession::read_done(SessionRead::Failed, true), AfterSessionRead::End);
    assert_eq!(KcptunSession::read_done(SessionRead::Failed, false), AfterSessionRead::Again);
}

const QUIET: Seen = Seen { link_dead: false, timed_out: false, due: false };

#[test]
fn session_write_announces_fins_on_success() {
    let mut s = KcptunSession::new(true, 0, 0);
    let mut busy = stream(8);
    busy.pending_send = 3;
    let r = s.pack(b"frames", vec![5], &vec![]);
    assert!(r.remove.is_empty());
    assert_eq!(r.packet.unwrap(), b"frames");
    let ok = s.written(true, &vec![busy]);
    assert_eq!(ok.announced, vec![5]);
    assert!(!ok.end && ok.again);
    assert!(s.written(true, &vec![]).announced.is_empty());
    s.pack(b"frames", vec![5], &vec![]);
    let bad = s.written(false, &vec![busy]);
    assert!(bad.announced.is_empty() && bad.end && !bad.again);
    assert!(!s.goes_on(false, false));
}

#[test]
fn session_pass_begins_with_the_health() {
    let mut s = KcptunSession::new(true, 0, 0);
    let mut busy = stream(8);
    busy.pending_send = 3;
    let due = Seen { due: true, ..QUIET };
    let gone = Seen { link_dead: true, ..QUIET };
    assert_eq!(
        s.begin_pass(due, &vec![busy], 0),
        PassStart::Go { keepalive: true, allow_fin: false }
    );
    assert_eq!(
        s.begin_pass(gone, &vec![stream(1)], 0),
        PassStart::Go { keepalive: false, allow_fin: true }
    );
    let mut t = KcptunSession::new(true, 0, 0);
    assert_eq!(t.begin_pass(gone, &vec![], 0), PassStart::Dead);
    assert!(!t.goes_on(false, false));
    assert_eq!(KcptunSession::wait_ms(true), None);
    assert_eq!(KcptunSession::wait_ms(false), Some(IDLE_WAKE_MS));
}

#[test]
fn session_keeps_its_rate() {
    let mut s = KcptunSession::new(true, 1_000, 0);
    assert_eq!(s.pace(1_000, 0), 0);
    assert_eq!(s.pace(500, 0), 500_000_000);
    s.waited(500, 500_000_000);
    assert_eq!(s.pace(1, 500_000_000), 1_000_000);
}

#[test]
fn stale_streams_are_found() {
    let mut done = stream(1);
    done.local_closed = true;
    done.remote_closed = true;
    done.fin_sent = true;
    done.pending_send = 9;
    let mut waiting = stream(2);
    waiting.local_closed = true;
    waiting.local_closed_elapsed = Some(STREAM_LINGER - 1);
    let mut overdue = waiting;
    overdue.id = 3;
    overdue.local_closed_elapsed = Some(STREAM_LINGER);
    let mut unsent = overdue;
    unsent.id = 4;
    unsent.pending_send = 1;
    let all = vec![done, waiting, overdue, unsent, stream(5)];
    assert_eq!(stale_streams(&all), vec![1, 3]);
    assert!(has_pending(&all));
    assert!(!can_send(&all));
    assert!(!allow_fin(&all, 0));
    assert!(allow_fin(&vec![stream(5)], 0));
    assert!(!allow_fin(&vec![stream(5)], 1));
    unsent.peer_send_window = 1;
    assert!(can_send(&vec![unsent]));
}

#[test]
fn health_is_looked_at_now_and_then() {
    let mut h = HealthCheck::new();
    let all = Seen { link_dead: true, timed_out: true, due: true };
    assert_eq!(h.pass(Seen { timed_out: true, ..QUIET }), SessionHealth::Dead);
    assert_eq!(h.left, HEALTH_PASSES);
    for _ in 0..HEALTH_PASSES {
        assert_eq!(h.pass(all), SessionHealth::Fine);
    }
    assert_eq!(h.pass(Seen { due: true, ..QUIET }), SessionHealth::Keepalive);
}

#[test]
fn packets_come_out_as_they_went_in() {
    let packet = b"kcp-segment-payload".to_vec();
    let xored: Vec<u8> = packet.iter().map(|b| b ^ 0x5a).collect();

    let header = CryptoTransport::new("aes", false);
    let mut datagram = vec![7u8; 20];
    datagram.extend_from_slice(&xored);
    let n = datagram.len();
    let mut buf = vec![0u8; 64];
    buf[..n].copy_from_slice(&datagram);
    for b in &mut buf[20..n] {
        *b ^= 0x5a;
    }
    assert_eq!(header.decrypt_in_place(&mut buf, n, Opened::Tail(n - 20)), Ok(packet.len()));
    assert_eq!(&buf[..packet.len()], &packet[..]);

    let seal = CryptoTransport::new("aes-128-gcm", true);
    let mut buf = vec![1u8; 64];
    let opened = Opened::Sealed(xored.iter().map(|b| b ^ 0x5a).collect());
    assert_eq!(seal.decrypt_in_place(&mut buf, 47, opened), Ok(packet.len()));
    assert_eq!(&buf[..packet.len()], &packet[..]);

    let bare = CryptoTransport::new("null", false);
    let mut buf = packet.clone();
    let n = buf.len();
    assert_eq!(bare.decrypt_in_place(&mut buf, n, Opened::Bad), Ok(n));
    assert_eq!(buf, packet);

    let mut bad = datagram.clone();
    bad[0] ^= 1;
    let n = bad.len();
    assert_eq!(header.decrypt_in_place(&mut bad, n, Opened::Bad), Ok(0));
    assert_eq!(seal.decrypt_in_place(&mut bad, n, Opened::Bad), Ok(0));
}

#[test]
fn packets_come_to_the_front_of_the_buffer() {
    let t = CryptoTransport::new("aes", false);
    assert!(t.has_encryption());
    assert_eq!(t.wrap(), Wrapping::Header);
    let mut buf = *b"headerbody....";
    assert_eq!(t.decrypt_in_place(&mut buf, 10, Opened::Tail(4)), Ok(4));
    assert_eq!(&buf, b"bodyerbody....");
    assert_eq!(t.decrypt_in_place(&mut buf, 10, Opened::Bad), Ok(0));
    assert_eq!(t.decrypt_in_place(&mut buf, 0, Opened::Bad), Ok(0));
    let s = CryptoTransport::new("aes-128-gcm", true);
    assert_eq!(s.wrap(), Wrapping::Seal);
    assert_eq!(s.decrypt_in_place(&mut buf, 3, Opened::Sealed(b"PLAIN".to_vec())), Ok(5));
    assert_eq!(&buf[..6], b"PLAINr");
    assert_eq!(
        s.decrypt_in_place(&mut buf, 3, Opened::Sealed(vec![0; 15])),
        Err(OpenError::TooLong)
    );
    let n = CryptoTransport::new("null", false);
    assert!(!n.has_encryption());
    assert_eq!(n.wrap(), Wrapping::Bare);
    assert_eq!(n.decrypt_in_place(&mut buf, 7, Opened::Bad), Ok(7));
}

#[test]
fn nonces_of_data_and_acks_differ() {
    let (data, acks) = CryptoTransport::new("aes", false).nonce_ids();
    assert_eq!(data, 0xDEADBEEF);
    assert_eq!(acks, 0x7FB10E10);
    assert!(!CryptoTransport::new("aes", false).offloads(true, true));
    assert!(CryptoTransport::new("aes", false).offloads(false, true));
}

#[test]
fn bad_packets_are_passed_over() {
    let bad = Datagram::Came { n: 9, plain: 0 };
    assert_eq!(recv_next(true, bad), RecvNext::Try);
    assert_eq!(recv_next(false, bad), RecvNext::Wait);
    assert_eq!(recv_next(true, Datagram::Came { n: 9, plain: 3 }), RecvNext::Return(3));
    assert_eq!(recv_next(true, Datagram::Came { n: 0, plain: 0 }), RecvNext::Return(0));
    assert_eq!(recv_next(false, Datagram::Nothing), RecvNext::Wait);
    assert_eq!(recv_next(false, Datagram::Failed), RecvNext::Fail);
    assert_eq!(try_recv_next(bad), RecvNext::Try);
    assert_eq!(try_recv_next(Datagram::Nothing), RecvNext::WouldBlock);
    assert_eq!(try_recv_next(Datagram::Failed), RecvNext::Fail);
    assert_eq!(try_recv_next(Datagram::Came { n: 9, plain: 3 }), RecvNext::Return(3));
}

#[test]
fn connection_has_one_driver() {
    let mut c = SmuxConn::new(true);
    assert!(!c.queues_accepts());
    assert_eq!(c.drive(), Ok(()));
    assert_eq!(c.drive(), Err(SessionError::SessionClosed));
    assert!(SmuxConn::new(false).queues_accepts());
}

#[test]
fn accepting_passes_over_streams_that_are_gone() {
    assert_eq!(SmuxConn::accept(true, Some(1), true), AcceptStep::Closed);
    assert_eq!(SmuxConn::accept(false, Some(1), true), AcceptStep::Stream(1));
    assert_eq!(SmuxConn::accept(false, Some(1), false), AcceptStep::Again);
    assert_eq!(SmuxConn::accept(false, None, false), AcceptStep::Wait);
}

#[test]
fn reaped_streams_are_announced_only_when_written() {
    let l = RunLoop::start();
    assert!(l.looks());
    let mut batch = Batch { bytes: vec![1, 2], fins: vec![3] };
    batch.add_fins(&vec![7, 9], &vec![vec![70, 71], vec![90]]);
    assert_eq!(batch.bytes, vec![1, 2, 70, 71, 90]);
    let next = l.write_done(batch, true);
    assert_eq!(next.announced, vec![3, 7, 9]);
    assert!(!next.end);
    let next = l.write_done(Batch { bytes: vec![1], fins: vec![3] }, false);
    assert!(next.announced.is_empty() && next.end);
    let next = l.write_done(Batch { bytes: vec![], fins: vec![3] }, false);
    assert!(next.announced.is_empty() && !next.end);
    let f = FlushLoop::start();
    assert!(f.looks());
    assert_eq!(f.write_done(Batch { bytes: vec![1], fins: vec![3] }, true), vec![3]);
    assert!(f.write_done(Batch { bytes: vec![1], fins: vec![3] }, false).is_empty());
}

#[test]
fn drivers_look_at_the_health_regularly() {
    let mut l = RunLoop::start();
    assert_eq!(l.end_pass(false, true), Health::Keepalive);
    for _ in 1..HEALTH_INTERVAL {
        assert!(!l.looks());
        assert_eq!(l.end_pass(true, true), Health::Fine);
    }
    assert!(l.looks());
    assert_eq!(l.end_pass(true, true), Health::TimedOut);
    let mut f = FlushLoop::start();
    assert_eq!(f.begin_write(false, false), Health::Fine);
    assert_eq!(f.health, 99);
}

#[test]
fn reads_drive_the_connection() {
    let l = RunLoop::start();
    assert_eq!(l.read_done(ReadEvent::Eof), AfterRead::Close);
    assert_eq!(l.read_done(ReadEvent::Failed), AfterRead::Close);
    assert_eq!(l.read_done(ReadEvent::TimedOut), AfterRead::Flush);
    assert_eq!(l.read_done(ReadEvent::Data(true)), AfterRead::Flush);
    assert_eq!(l.read_done(ReadEvent::Data(false)), AfterRead::Fail);
    assert_eq!(read_task_done(ReadEvent::Data(false)), AfterRead::Flush);
    assert_eq!(read_task_done(ReadEvent::Eof), AfterRead::Close);
}

#[test]
fn held_back_writer_is_woken() {
    let mut free = SmuxIo::new();
    assert_eq!(free.hold_back(1_000_000), None);
    let mut s = SmuxIo::with_backpressure(4);
    assert_eq!(s.hold_back(3), None);
    assert_eq!(s.hold_back(4), Some(Parked::Waiter));
    assert_eq!(s.hold_back(5), Some(Parked::Recheck));
    assert!(!s.recheck(5));
    assert!(!s.waiter_done(4));
    assert!(s.recheck(3));
    assert!(s.waiter_done(3));
    assert!(s.recheck(5));
    assert_eq!(s.hold_back(4), Some(Parked::Waiter));
}

#[test]
fn stream_errors_are_told_apart() {
    assert_eq!(SmuxIo::wrote(StreamWrite::Wrote(3)), Ok(3));
    assert_eq!(SmuxIo::wrote(StreamWrite::Closed), Err(SmuxIoError::BrokenPipe));
    assert_eq!(SmuxIo::wrote(StreamWrite::Failed), Err(SmuxIoError::ConnectionReset));
}

#[test]
fn one_side_opens_streams_and_the_other_accepts() {
    let config = KcptunConfig {
        kcp: KcpConfig::default(),
        smux: SmuxConfig {
            version: 2,
            max_receive_buffer: 4194304,
            max_stream_buffer: 2097152,
            max_frame_size: 8192,
            keepalive_interval: 10,
            keepalive_timeout: 30,
        },
        nocomp: true,
        rate_limit: 5,
    };
    let mut client = KcptunSession::client(&config, 0);
    let server = KcptunSession::server(&config, 0);
    assert!(!client.queues_accepts() && server.queues_accepts());
    assert_eq!(client.pace(6, 0), 200_000_000);
    assert_eq!(client.packet(b"x").unwrap(), b"x");
    assert_eq!(KcptunSession::accept(false, Some(4), true), AcceptStep::Stream(4));
    assert_eq!(KcptunSession::accept(true, None, false), AcceptStep::Closed);
}
