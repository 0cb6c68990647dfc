//! Connections: settings, buffers, reading, writing and the flush loop.

use bytes::Bytes;
use kcptun::kcp::buffers::{
    read_available, RawPacketQueue, ReadBuffer, MAX_RETAINED_RAW_BATCH, READ_PREFETCH_MAX_BYTES,
};
use kcptun::kcp::config::{KcpConfig, KcpMode, DEFAULT_CONV, KCP};
use kcptun::kcp::conn::{
    burst_pool_end, Burst, ConnError, ConnHandle, ConnectStart, DialTransport, Halves, InputEvent, InputStep, KcpConn,
    PollStep, ReadStep, Shutdown, Step, TransportPlan, WriteAll, WriteStep, INPUT_REST_MS,
    KCP_SEND_CHUNK,
};
use kcptun::kcp::flush::{FlushState, FlushStep, IDLE_PARK_GRACE_MS, MS};
use kcptun::kcp::inbound::{inbound_packets, prefetch, ConvState};
use std::collections::VecDeque;

fn conn() -> KcpConn {
    KcpConn::connect("127.0.0.1:9").build(5).unwrap().conn
}

#[test]
fn read_buffer_tracks_bytes_and_entries() {
    let mut buffer = ReadBuffer::new();
    buffer.extend(vec![Bytes::from_static(b"abc"), Bytes::from_static(b"defgh")]);
    assert_eq!(buffer.len(), 2);
    assert_eq!(buffer.bytes(), 8);

    let first = buffer.pop_front().unwrap();
    assert_eq!(&first[..], b"abc");
    assert_eq!(buffer.len(), 1);
    assert_eq!(buffer.bytes(), 5);

    buffer.push_front(first.slice(1..));
    assert_eq!(buffer.len(), 2);
    assert_eq!(buffer.bytes(), 7);

    buffer.clear();
    assert!(buffer.is_empty());
    assert_eq!(buffer.bytes(), 0);
}

#[test]
fn config_defaults_fast3ish() {
    let c = KcpConfig::default();
    assert_eq!(c.mtu, 1350);
    assert_eq!(c.sndwnd, 128);
    assert_eq!(c.rcvwnd, 128);
    assert!(matches!(c.mode, KcpMode::Fast3));
    assert!(c.stream);
    assert!(c.acknodelay);
    assert_eq!(c.datashard, 0);
    assert_eq!(c.parityshard, 0);
}

#[test]
fn raw_packet_queue_recycles_capacity() {
    let mut q = RawPacketQueue::new();
    q.push(Bytes::from_static(b"a"));
    q.push(Bytes::from_static(b"b"));
    let batch = q.drain();
    assert_eq!(batch.len(), 2);
    assert!(q.is_empty());
    q.recycle(batch);
    assert!(q.spare_capacity() >= 2);
    q.push(Bytes::from_static(b"c"));
    let batch2 = q.drain();
    assert_eq!(batch2.len(), 1);
    assert!(
        q.pending_capacity() >= 2,
        "recycled capacity should become the next accumulation target"
    );
    q.recycle(batch2);
}

#[test]
fn raw_packet_queue_caps_retained_batch() {
    let mut q = RawPacketQueue::new();
    let big = Vec::with_capacity(MAX_RETAINED_RAW_BATCH + 1);
    q.recycle(big);
    assert_eq!(q.spare_capacity(), 0);
}

#[test]
fn storage_is_kept_up_to_a_bound() {
    let mut q = RawPacketQueue::new();
    assert_eq!(q.spare_capacity(), 0);
    q.take_back(Vec::new(), 256);
    assert_eq!(q.spare_capacity(), 256);
    q.take_back(Vec::new(), 257);
    assert_eq!(q.spare_capacity(), 256);
    q.push(Bytes::from_static(b"a"));
    assert_eq!(q.spare_capacity(), 256);
    assert_eq!(q.drain().len(), 1);
    assert_eq!(q.spare_capacity(), 0);
    let batch: Vec<Bytes> = Vec::with_capacity(9);
    let slots = batch.capacity();
    q.recycle(batch);
    assert_eq!(q.spare_capacity(), slots);
}

#[test]
fn builder_sets_mtu_windows() {
    let b = KcpConn::connect("127.0.0.1:9")
        .mtu(1400)
        .sndwnd(256)
        .rcvwnd(64)
        .mode(KcpMode::Fast2)
        .stream(false)
        .acknodelay(false);
    assert_eq!(b.config.mtu, 1400);
    assert_eq!(b.config.sndwnd, 256);
    assert_eq!(b.config.rcvwnd, 64);
    assert!(matches!(b.config.mode, KcpMode::Fast2));
    assert!(!b.config.stream);
    assert!(!b.config.acknodelay);
}

#[test]
fn apply_mode_values() {
    let mut kcp = KCP::new(1, 0);
    let cfg = KcpConfig {
        mode: KcpMode::Fast3,
        mtu: 1350,
        ..KcpConfig::default()
    };
    kcp.apply(&cfg);
    assert_eq!(kcp.mtu(), 1350);
    assert_eq!(kcp.snd_wnd(), 128);
    assert_eq!(kcp.interval(), 10);
}

#[test]
fn builder_fec_sets_shards() {
    let b = KcpConn::connect("127.0.0.1:9").fec(10, 3);
    assert_eq!(b.config.datashard, 10);
    assert_eq!(b.config.parityshard, 3);
}

#[test]
fn test_nodelay_mode_rto_behavior() {
    let mut kcp = KCP::new(1, 0);
    kcp.set_nodelay(0, 40, 2, 1);
    let normal_interval = kcp.interval();
    kcp.set_nodelay(1, 10, 2, 1);
    let nodelay_interval = kcp.interval();
    assert!(
        nodelay_interval < normal_interval,
        "Nodelay mode should use smaller interval"
    );
}

#[test]
fn fec_needs_both_kinds_of_shards() {
    let mut c = KcpConfig::default();
    c.datashard = 10;
    assert!(!c.fec_enabled());
    c.parityshard = 3;
    assert!(c.fec_enabled());
    assert!(c.nodelay_enabled());
}

#[test]
fn built_connection_is_as_asked() {
    let made = KcpConn::connect_tcp("10.0.0.1:9").conv(7).fec(2, 1).build(44).unwrap();
    assert_eq!(made.transport, TransportPlan::Dial(DialTransport::TcpRaw));
    let c = made.finish().unwrap();
    assert_eq!(c.conv, ConvState { conv: 7, adopting: false });
    assert_eq!(c.kcp.conv, 7);
    assert!(c.fec && c.connected && !c.closed);
    assert_eq!(c.last_activity_ms, 44);
    let made = KcpConn::with_transport("10.0.0.1:9").adopt_conv(true).build(0).unwrap();
    assert_eq!(made.transport, TransportPlan::Given);
    let d = made.conn;
    assert!(!d.connected && d.conv.adopting);
    assert_eq!(d.conv.conv, DEFAULT_CONV);
}

#[test]
fn builder_without_remote_fails() {
    let mut b = KcpConn::connect("x");
    b.remote = None;
    assert!(matches!(b.build(0), Err(ConnError::InvalidInput)));
}

#[test]
fn waiting_for_the_peer_needs_background_input() {
    let b = KcpConn::connect("x").connect_timeout(30).background_input(false);
    assert_eq!(b.connect_wait(), Err(ConnError::InvalidInput));
    assert!(matches!(b.build(0), Err(ConnError::InvalidInput)));
    let b = KcpConn::connect("x").connect_timeout(30);
    assert_eq!(b.connect_wait(), Ok(Some(30)));
    assert_eq!(KcpConn::connect("x").connect_wait(), Ok(None));
}

#[test]
fn connecting_ends_with_the_first_packet() {
    let mut c = conn();
    assert_eq!(c.connect_step(false), Step::Wait(None));
    c.first_inbound = true;
    assert_eq!(c.connect_step(false), Step::Ready);
    let mut late = conn();
    assert_eq!(late.connect_step(true), Step::Fail(ConnError::TimedOut));
    assert!(late.is_closed());
    let mut closed = conn();
    closed.close();
    assert_eq!(closed.connect_step(false), Step::Fail(ConnError::NotConnected));
}

#[test]
fn peer_is_asked_only_where_it_is_waited_for() {
    let waiting = KcpConn::connect("x").connect_timeout(30).build(0).unwrap();
    assert_eq!(
        waiting.begin(),
        ConnectStart { probe: true, wake_flush: true, wait: Some(30) }
    );
    let mut at_once = KcpConn::connect("x").build(0).unwrap();
    assert_eq!(at_once.begin(), ConnectStart { probe: false, wake_flush: false, wait: None });
    assert_eq!(at_once.step(false), Step::Ready);
    assert!(at_once.finish().is_ok());
}

#[test]
fn waited_for_connection_has_heard_its_peer() {
    let mut late = KcpConn::connect("x").connect_timeout(30).build(0).unwrap();
    assert_eq!(late.step(false), Step::Wait(None));
    assert_eq!(late.step(true), Step::Fail(ConnError::TimedOut));
    assert!(late.conn.is_closed());
    assert_eq!(late.step(false), Step::Fail(ConnError::TimedOut));
    assert!(matches!(late.finish(), Err(ConnError::TimedOut)));
    let mut closed = KcpConn::connect("x").connect_timeout(30).build(0).unwrap();
    closed.conn.close();
    assert_eq!(closed.step(false), Step::Fail(ConnError::NotConnected));
    assert!(matches!(closed.finish(), Err(ConnError::NotConnected)));
    let mut heard = KcpConn::connect("x").connect_timeout(30).build(0).unwrap();
    heard.conn.first_inbound = true;
    assert_eq!(heard.step(false), Step::Ready);
    assert!(!heard.finish().unwrap().is_closed());
}

#[test]
fn adopted_conversation_is_that_of_the_protocol() {
    let mut c =
        KcpConn::with_transport("10.0.0.1:9").adopt_conv(true).build(0).unwrap().conn;
    let mut packet = vec![0u8; 24];
    packet[0] = 9;
    assert_eq!(c.conv_candidate(&packet[..23]), None);
    let candidate = c.conv_candidate(&packet).unwrap();
    assert_eq!(candidate, 9);
    c.conv_settled(candidate, false);
    assert_eq!((c.kcp.conv, c.conv.conv, c.conv.adopting), (DEFAULT_CONV, DEFAULT_CONV, true));
    c.conv_settled(candidate, true);
    assert_eq!((c.kcp.conv, c.conv.conv, c.conv.adopting), (9, 9, false));
    packet[0] = 8;
    assert_eq!(c.conv_candidate(&packet), Some(9));
    c.conv_settled(8, true);
    assert_eq!((c.kcp.conv, c.conv.conv), (9, 9));
}

#[test]
fn activity_is_that_of_the_latest_success() {
    let mut c = conn();
    assert_eq!(c.last_activity_ms(), 5);
    c.wrote(0, 1, 6);
    assert_eq!(c.last_activity_ms(), 5);
    c.wrote(3, 1, 7);
    assert_eq!(c.last_activity_ms(), 7);
    let mut w = WriteAll::start();
    assert!(!w.sent(&mut c, 0, 2, 8));
    assert_eq!((c.last_activity_ms(), c.wait_send()), (7, 2));
    assert!(w.sent(&mut c, 2, 3, 9));
    assert_eq!((c.last_activity_ms(), c.wait_send()), (9, 3));
    assert_eq!(c.input_step(InputEvent::Got(0), 10), InputStep::Again);
    assert_eq!(c.last_activity_ms(), 9);
    assert_eq!(c.input_step(InputEvent::Got(4), 11), InputStep::Collect);
    assert_eq!(c.last_activity_ms(), 11);
    c.read_buf.push_back(Bytes::from_static(b"abc"));
    let mut none: VecDeque<Bytes> = VecDeque::new();
    let mut buf = [0u8; 2];
    assert_eq!(c.read_step(&mut none, &mut buf, None, 12).step, ReadStep::Done(2));
    assert_eq!(c.last_activity_ms(), 12);
    assert_eq!(c.poll_read_into(&mut none, &mut buf, false, 13).step, PollStep::Ready(1));
    assert_eq!(c.last_activity_ms(), 13);
    assert_eq!(c.read_step(&mut none, &mut buf, None, 14).step, ReadStep::Wait(None));
    assert_eq!(c.last_activity_ms(), 13);
}

#[test]
fn reads_follow_each_other() {
    let mut c = conn();
    c.read_buf.push_back(Bytes::from_static(b"hello "));
    let mut kcp: VecDeque<Bytes> = VecDeque::new();
    kcp.push_back(Bytes::from_static(b"wide "));
    kcp.push_back(Bytes::from_static(b"world"));
    let mut buf = [0u8; 8];
    let r = c.read_step(&mut kcp, &mut buf, None, 0);
    assert_eq!(r.step, ReadStep::Done(8));
    assert_eq!(&buf, b"hello wi");
    let r = c.read_step(&mut kcp, &mut buf, None, 0);
    assert_eq!(r.step, ReadStep::Done(8));
    assert_eq!(&buf, b"de world");
    let r = c.read_step(&mut kcp, &mut buf, None, 0);
    assert_eq!(r.step, ReadStep::Wait(None));
    c.close();
    let r = c.read_step(&mut kcp, &mut buf, None, 0);
    assert_eq!(r.step, ReadStep::Done(0));
}

#[test]
fn peek_takes_nothing_out() {
    let mut c = conn();
    let mut buf = [0u8; 3];
    assert_eq!(c.peek(None, &mut buf), Err(ConnError::WouldBlock));
    assert_eq!(c.peek(Some(b"wxyz"), &mut buf), Ok(3));
    assert_eq!(&buf, b"wxy");
    c.read_buf.push_back(Bytes::from_static(b"ab"));
    assert_eq!(c.peek(Some(b"wxyz"), &mut buf), Ok(2));
    assert_eq!(&buf, b"aby");
    assert_eq!(c.read_buf.len(), 1);
}

#[test]
fn polled_read_times_out() {
    let mut c = conn();
    c.set_read_timeout(Some(10));
    let mut kcp: VecDeque<Bytes> = VecDeque::new();
    let mut buf = [0u8; 4];
    let r = c.poll_read_into(&mut kcp, &mut buf, false, 100);
    assert_eq!(r.step, PollStep::Pending { wake_now: false, arm: Some(110) });
    let r = c.poll_read_into(&mut kcp, &mut buf, false, 110);
    assert_eq!(r.step, PollStep::Fail(ConnError::TimedOut));
    kcp.push_back(Bytes::from_static(b"data"));
    let r = c.poll_read_into(&mut kcp, &mut buf, false, 111);
    assert_eq!(r.step, PollStep::Ready(4));
    assert_eq!(&buf, b"data");
}

#[test]
fn read_available_fills_from_both_places() {
    let mut rb = ReadBuffer::new();
    rb.push_back(Bytes::from_static(b"one"));
    let mut kcp: VecDeque<Bytes> = VecDeque::new();
    kcp.push_back(Bytes::from_static(b"twothree"));
    let mut out = [0u8; 6];
    let r = read_available(&mut rb, &mut kcp, &mut out);
    assert_eq!(r.0, 6);
    assert_eq!(&out, b"onetwo");
    assert_eq!(rb.bytes(), 5);
}

#[test]
fn empty_message_ends_a_read() {
    let bytes = |s: &'static [u8]| Bytes::from_static(s);
    let mut rb = ReadBuffer::new();
    rb.push_back(bytes(b"x"));
    let mut kcp: VecDeque<Bytes> = VecDeque::new();
    kcp.push_back(bytes(b"ab"));
    kcp.push_back(bytes(b""));
    kcp.push_back(bytes(b"cd"));
    let mut out = [0u8; 8];
    assert_eq!(read_available(&mut rb, &mut kcp, &mut out), (3, true));
    assert_eq!(&out[..3], b"xab");
    assert_eq!(kcp.len(), 1);
    kcp.push_front(bytes(b""));
    assert_eq!(read_available(&mut rb, &mut kcp, &mut out), (0, false));
    assert_eq!(kcp.len(), 1);
    kcp.push_back(bytes(b""));
    assert_eq!(read_available(&mut rb, &mut kcp, &mut out[..2]), (2, true));
    assert_eq!(&out[..2], b"cd");
    assert_eq!(kcp.len(), 1);
    rb.push_back(bytes(b"whole"));
    assert_eq!(read_available(&mut rb, &mut kcp, &mut out[..4]), (4, false));
    assert_eq!((rb.len(), rb.bytes(), kcp.len()), (1, 1, 1));
    let mut c = conn();
    let mut buf = [0u8; 4];
    let r = c.read_step(&mut kcp, &mut buf, None, 0);
    assert_eq!(r.step, ReadStep::Wait(None));
    assert!(!r.notify_flush);
    assert!(kcp.is_empty());
}

#[test]
fn writes_fit_the_window() {
    let c = conn();
    let p = c.send_plan(1000, 120, 1_000_000, 128);
    assert_eq!(p.total, 8000);
    assert_eq!(p.max_chunk, 127_000);
    assert_eq!(c.send_plan(1000, 0, 1_000_000, 128).total, KCP_SEND_CHUNK);
    assert_eq!(c.send_plan(1000, 128, 10, 128).total, 0);
    let q = c.send_plan(1000, 0, 2500, 2);
    assert_eq!(q.max_chunk, 1000);
    assert_eq!(q.chunk_end(0), 1000);
    assert_eq!(q.chunk_end(2000), 2500);
    assert_eq!(q.accepted(2), 2000);
    assert_eq!(q.accepted(9), 2500);
}

#[test]
fn polled_write_waits_for_room() {
    let mut c = conn();
    c.set_write_timeout(Some(50));
    assert_eq!(c.poll_write_step(3, false, 0, 0), WriteStep::Send);
    c.wait_send = 200;
    assert_eq!(
        c.poll_write_step(3, false, 128, 1000),
        WriteStep::Pending { wake_now: false, arm: Some(1050) }
    );
    assert_eq!(c.poll_write_step(3, false, 128, 1050), WriteStep::Fail(ConnError::TimedOut));
    c.shutdown(Shutdown::Write);
    assert_eq!(c.poll_write_step(3, false, 0, 0), WriteStep::Fail(ConnError::BrokenPipe));
}

#[test]
fn write_all_goes_on_until_done() {
    let mut c = conn();
    let mut w = WriteAll::start();
    assert_eq!(w.next(&c, 10, 0), WriteStep::Send);
    assert!(w.sent(&mut c, 6, 0, 41));
    assert_eq!(c.last_activity_ms(), 41);
    assert_eq!(w.next(&c, 10, 128), WriteStep::Pending { wake_now: false, arm: None });
    assert_eq!(w.blocked(&c, 0), Step::Wait(None));
    c.set_write_timeout(Some(20));
    c.wait_send = 128;
    assert_eq!(w.blocked(&c, 5), Step::Wait(Some(20)));
    assert_eq!(w.blocked(&c, 15), Step::Wait(Some(10)));
    assert_eq!(w.wait_ran_out(&c), Step::Fail(ConnError::TimedOut));
    assert!(w.sent(&mut c, 4, 128, 77));
    assert_eq!(c.last_activity_ms(), 77);
    assert_eq!(w.next(&c, 10, 0), WriteStep::Done(10));
}

#[test]
fn shutting_both_ways_down_closes() {
    let mut c = conn();
    assert!(!c.shutdown(Shutdown::Read));
    assert!(!c.is_closed());
    assert!(c.shutdown(Shutdown::Both));
    assert!(c.is_closed());
    assert!(!c.close());
    let mut h = Halves::both();
    assert!(!h.drop_one());
    assert!(h.drop_one());
}

#[test]
fn only_the_owner_takes_its_connection_along() {
    let mut c = conn();
    let owner = ConnHandle::owner();
    let copy = owner.copy();
    assert!(!copy.copy().dropped(&mut c));
    assert!(!copy.dropped(&mut c));
    assert!(!c.is_closed());
    assert!(owner.dropped(&mut c));
    assert!(c.is_closed());
    let mut d = conn();
    let owner = ConnHandle::owner();
    let copy = owner.copy();
    let mut halves = owner.into_split();
    assert!(!halves.drop_one());
    assert!(!copy.dropped(&mut d));
    assert!(!d.is_closed());
    assert!(halves.drop_one());
}

#[test]
fn only_one_sends_at_a_time() {
    let mut c = conn();
    c.raw_packets.push(Bytes::from_static(b"p"));
    let batch = c.try_start_sending().unwrap();
    assert_eq!(batch.len(), 1);
    c.raw_packets.push(Bytes::from_static(b"q"));
    assert!(c.try_start_sending().is_none());
    assert!(c.finish_sending(batch));
    assert_eq!(c.try_start_sending().unwrap().len(), 1);
}

#[test]
fn shards_bring_their_packets() {
    let mut data = vec![1, 0, 0, 0, 0xf1, 0x00, 9, 0];
    data.extend(b"payload");
    let parity = vec![2, 0, 0, 0, 0xf2, 0x00, 1, 2, 3];
    let plain = vec![7u8; 24];
    let short = vec![7u8; 23];
    let packets = inbound_packets(
        true,
        &vec![data.clone(), parity, plain.clone(), short],
        &vec![vec![], vec![b"lost".to_vec()], vec![], vec![]],
    );
    assert_eq!(packets, vec![b"payload".to_vec(), b"lost".to_vec(), plain]);
    assert_eq!(inbound_packets(false, &vec![data.clone()], &vec![]), vec![data]);
}

#[test]
fn conversation_is_adopted_once() {
    let mut s = ConvState { conv: 1, adopting: true };
    let mut pkt = vec![0u8; 24];
    pkt[0] = 0x78;
    pkt[3] = 0x12;
    assert_eq!(s.candidate(&pkt), Some(0x12000078));
    s.settle(0x12000078, false);
    assert_eq!(s, ConvState { conv: 1, adopting: true });
    s.settle(0x12000078, true);
    assert_eq!(s, ConvState { conv: 0x12000078, adopting: false });
    pkt[0] = 0;
    assert_eq!(s.candidate(&pkt), Some(0x12000078));
    assert_eq!(s.candidate(&pkt[..23]), None);
}

#[test]
fn prefetch_is_bounded() {
    let mut rb = ReadBuffer::new();
    let mut kcp: VecDeque<Bytes> = VecDeque::new();
    for _ in 0..100 {
        kcp.push_back(Bytes::from(vec![1u8; 4096]));
    }
    assert!(prefetch(&mut rb, &mut kcp));
    assert!(rb.bytes() <= READ_PREFETCH_MAX_BYTES);
    assert_eq!(rb.bytes(), 32768);
    assert_eq!(kcp.len(), 92);
}

#[test]
fn bursts_grow_in_steps() {
    assert_eq!(burst_pool_end(0), Some(16));
    assert_eq!(burst_pool_end(60), Some(64));
    assert_eq!(burst_pool_end(64), None);
}

#[test]
fn flush_loop_parks_after_the_grace_time() {
    let mut s = FlushState::start(0);
    assert_eq!(s.wait(0), Some(0));
    assert_eq!(s.due(0, 10), FlushStep::Flush);
    s.flushed(0, 500, 3);
    assert_eq!(s.next_deadline, Some(10 * MS));
    s.flushed(0, 500, 0);
    assert_eq!(s.next_deadline, Some(IDLE_PARK_GRACE_MS * MS));
    let mut busy = s;
    busy.woken(true);
    assert_eq!(busy.next_deadline, None);
    assert_eq!(busy.due(5 * MS, 20), FlushStep::Wait);
    assert_eq!(busy.next_deadline, Some(25 * MS));
    s.woken(false);
    assert_eq!(s.due(IDLE_PARK_GRACE_MS * MS, 10), FlushStep::Flush);
    s.flushed(IDLE_PARK_GRACE_MS * MS, 500, 0);
    assert_eq!(s.next_deadline, None);
    assert_eq!(s.wait(7), None);
}

#[test]
fn input_loop_notes_errors() {
    let mut c = conn();
    assert_eq!(c.input_step(InputEvent::Got(5), 77), InputStep::Collect);
    assert_eq!(c.last_activity_ms(), 77);
    assert_eq!(c.input_step(InputEvent::Got(0), 99), InputStep::Again);
    assert_eq!(c.last_activity_ms(), 77);
    let e = std::io::Error::from(std::io::ErrorKind::ConnectionRefused);
    assert_eq!(c.input_step(InputEvent::Failed(e), 99), InputStep::Rest(INPUT_REST_MS));
    assert_eq!(c.take_error().unwrap().kind(), std::io::ErrorKind::ConnectionRefused);
    assert!(c.take_error().is_none());
    assert_eq!(c.input_step(InputEvent::Cancelled, 99), InputStep::End);
    c.close();
    let e = std::io::Error::from(std::io::ErrorKind::ConnectionRefused);
    assert_eq!(c.input_step(InputEvent::Failed(e), 99), InputStep::End);
    assert!(c.take_error().is_none());
}

#[test]
fn upkeep_wakes_the_writer_when_there_is_room() {
    let mut c = conn();
    assert!(c.maintained(127));
    assert!(!c.maintained(128));
    assert_eq!(c.wait_send(), 128);
}

#[test]
fn bursts_are_bounded() {
    let mut b = Burst::start();
    assert_eq!(b.pool_end(), Some(17));
    assert!(b.grown(16));
    assert!(!b.grown(0));
    assert!(!b.grown(47));
    assert_eq!(b.pool_end(), None);
    assert!(KcpConn::wakes_flush(false, true, false));
    assert!(!KcpConn::wakes_flush(true, true, false));
    assert!(KcpConn::wakes_flush(true, false, false));
    assert!(KcpConn::wakes_flush(true, true, true));
}

#[test]
fn settings_can_be_read_back() {
    let mut c = conn();
    assert_eq!((c.snd_wnd(), c.rcv_wnd(), c.wait_send()), (128, 128, 0));
    assert_eq!((c.read_timeout(), c.write_timeout()), (None, None));
    c.set_read_timeout(Some(5));
    c.set_write_timeout(Some(6));
    assert_eq!((c.read_timeout(), c.write_timeout()), (Some(5), Some(6)));
    c.set_nodelay(false);
    assert!(!c.nodelay());
    assert_eq!(c.kcp.interval(), 40);
    assert!(!c.has_read_data(false) && c.has_read_data(true));
    c.read_buf.push_back(Bytes::from_static(b"x"));
    assert!(c.has_read_data(false));
}

#[test]
fn inbound_wakes_whom_it_concerns() {
    let mut c = conn();
    let mut kcp: VecDeque<Bytes> = VecDeque::new();
    kcp.push_back(Bytes::from_static(b"message"));
    let w = c.inbound_done(true, 3, &mut kcp);
    assert!(w.connecting && w.writer && w.reader);
    assert_eq!(c.wait_send(), 3);
    let w = c.inbound_done(true, 128, &mut kcp);
    assert!(!w.connecting && !w.writer && w.reader);
    c.shutdown(Shutdown::Read);
    assert!(!c.inbound_done(false, 0, &mut kcp).reader);
}
