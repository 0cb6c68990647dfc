//! Raw segments, copying, batches and signals.

use kcptun::kio::copy::{postwait, Attempt, BidiCopy, BidiState, CopyAction, PassEnd};
use kcptun::kio::net::{received_batch, try_send_batch, BatchEvent, BatchSend, BatchStep};
use kcptun::kio::signal::{sigusr1_received, SignalFlag};
use kcptun::kio::tcpraw::{
    build_tcp_segment, extract_ts_val, ones_complement_sum, parse_tcp_segment, tcp_checksum,
    update_flow_from_segment, RawSendError, TcpFlowState, TcpRawFlow, TcpRawServer,
};

const A: [u8; 4] = [10, 0, 0, 1];
const B: [u8; 4] = [10, 0, 0, 2];

fn end(src: [u8; 4], dst: [u8; 4], src_port: u16, dst_port: u16, seq: u32, ack: u32) -> TcpRawFlow {
    TcpRawFlow {
        src_ip: src,
        dst_ip: dst,
        src_port,
        dst_port,
        state: TcpFlowState { seq, ack, ts_ecr: 0 },
    }
}

#[test]
fn sums_of_words() {
    assert_eq!(ones_complement_sum(&[1, 2, 3, 4]), 0x0406);
    assert_eq!(ones_complement_sum(&[1, 2, 3]), 0x0402);
    assert_eq!(ones_complement_sum(&[]), 0);
}

#[test]
fn segment_byte_for_byte() {
    let pkt = build_tcp_segment(&A, &B, 1000, 2000, 7, 9, 0x01020304, 0x05060708, b"payload!");
    assert_eq!(pkt.len(), 40);
    assert_eq!(pkt[..4], [0x03, 0xe8, 0x07, 0xd0]);
    assert_eq!(pkt[4..12], [0, 0, 0, 7, 0, 0, 0, 9]);
    assert_eq!(pkt[12..16], [0x80, 0x18, 0xff, 0xff]);
    assert_eq!(pkt[20..32], [1, 1, 8, 10, 1, 2, 3, 4, 5, 6, 7, 8]);
    assert_eq!(&pkt[32..], b"payload!");
    assert_eq!(tcp_checksum(&A, &B, &pkt), 0);
}

#[test]
fn parsed_segment_is_what_was_built() {
    let pkt = build_tcp_segment(&A, &B, 1000, 2000, 7, 9, 77, 88, b"some payload");
    let seg = parse_tcp_segment(&pkt).unwrap();
    assert_eq!((seg.src_port, seg.dst_port), (1000, 2000));
    assert_eq!((seg.seq, seg.ack), (7, 9));
    assert!(seg.ack_flag && seg.psh && !seg.syn && !seg.fin);
    assert_eq!(seg.ts_val, Some(77));
    assert_eq!(seg.payload, b"some payload");
    let mut with_ip = vec![0x45, 0, 0, 64, 0, 0, 0, 0, 64, 6, 0, 0];
    with_ip.extend(A);
    with_ip.extend(B);
    with_ip.extend(&pkt);
    assert_eq!(parse_tcp_segment(&with_ip).unwrap().payload, b"some payload");
    assert!(parse_tcp_segment(&pkt[..19]).is_none());
}

#[test]
fn timestamps_among_options() {
    assert_eq!(extract_ts_val(&[1, 1, 8, 10, 0, 0, 0, 5, 0, 0, 0, 6]), Some(5));
    assert_eq!(extract_ts_val(&[2, 4, 5, 0xb4, 8, 10, 0, 0, 1, 0, 0, 0, 0, 0]), Some(256));
    assert_eq!(extract_ts_val(&[0, 8, 10, 0, 0, 0, 5, 0, 0, 0, 6]), Some(5));
    assert_eq!(extract_ts_val(&[2, 1, 8, 10, 0, 0, 0, 5, 0, 0, 0, 6]), None);
    assert_eq!(extract_ts_val(&[]), None);
}

#[test]
fn flows_stay_in_step() {
    let mut client = end(A, B, 1000, 2000, 100, 500);
    let mut server = end(B, A, 2000, 1000, 500, 100);
    let pkt = client.raw_segment(b"ping over raw tcp", 42).unwrap();
    client.segment_sent(17);
    assert_eq!(client.state.seq, 117);
    assert_eq!(server.client_capture(&pkt).unwrap(), b"ping over raw tcp");
    assert_eq!(server.state, TcpFlowState { seq: 500, ack: 117, ts_ecr: 42 });
    assert!(client.client_capture(&pkt).is_none());
    let back = server.raw_segment(b"pong over raw tcp", 43).unwrap();
    server.segment_sent(17);
    assert_eq!(client.client_capture(&back).unwrap(), b"pong over raw tcp");
    assert_eq!(client.state, TcpFlowState { seq: 117, ack: 517, ts_ecr: 43 });
    assert_eq!(
        client.raw_segment(&[0; 1401], 0).unwrap_err(),
        RawSendError::PayloadTooLarge { len: 1401, max: 1400 }
    );
}

#[test]
fn server_finds_the_flow_of_a_peer() {
    let mut s = TcpRawServer::new(2000);
    let pkt = end(A, B, 1000, 2000, 1, 9).raw_segment(b"first data", 5).unwrap();
    let key: u64 = 0x0a00_0001 * 0x1_0000 + 1000;
    assert_eq!(s.server_capture(&A, &pkt), Some((key, b"first data".to_vec())));
    s.flows.insert(key, TcpFlowState { seq: 0, ack: 0, ts_ecr: 0 });
    s.server_capture(&A, &pkt);
    assert_eq!(s.flows[&key], TcpFlowState { seq: 9, ack: 11, ts_ecr: 5 });
    let other = end(A, B, 1000, 2001, 1, 9).raw_segment(b"first data", 5).unwrap();
    assert_eq!(s.server_capture(&A, &other), None);
}

#[test]
fn syn_and_fin_count_in_a_flow() {
    let mut pkt = build_tcp_segment(&A, &B, 1, 2, 10, 0, 0, 0, b"8 bytes.");
    pkt[13] = 0x03;
    let mut flow = TcpFlowState { seq: 4, ack: 0, ts_ecr: 0 };
    update_flow_from_segment(&mut flow, &parse_tcp_segment(&pkt).unwrap());
    assert_eq!(flow.ack, 20);
    assert_eq!(flow.seq, 4);
}

#[test]
fn copy_state_counts_both_ways() {
    let mut s = BidiState::new();
    assert!(!s.has_pending_ab() && !s.has_pending_ba() && !s.both_eof());
    s.a_buf_mut()[..5].copy_from_slice(b"hello");
    s.set_ab_read(5);
    assert_eq!(s.pending_ab_size(), 5);
    s.advance_ab(2);
    assert_eq!(s.pending_ab_slice(), b"llo");
    s.advance_ab(3);
    s.reset_ab();
    s.b_buf_mut()[..2].copy_from_slice(b"hi");
    s.set_ba_read(2);
    assert!(s.has_pending_ba());
    assert_eq!(s.pending_ba_slice(), b"hi");
    s.advance_ba(2);
    s.reset_ba();
    assert_eq!(s.pending_ba_size(), 0);
    assert_eq!(s.into_result(), (5, 2));
}

#[test]
fn copy_runs_until_both_sides_end() {
    let mut c = BidiCopy::start(0, 0);
    assert_eq!(c.next(), CopyAction::ReadA);
    c.a_buf_mut()[..4].copy_from_slice(b"data");
    c.read_a(Attempt::Done(4));
    assert_eq!(c.next(), CopyAction::ReadB);
    c.read_b(Attempt::Done(0));
    assert_eq!(c.next(), CopyAction::Close { b: false, a: true });
    assert_eq!(c.end_pass(0), PassEnd::Again);
    assert_eq!(c.next(), CopyAction::WriteB);
    assert_eq!(c.for_b(), b"data");
    c.wrote_b(Attempt::Done(3));
    assert_eq!(c.next(), CopyAction::WriteB);
    c.wrote_b(Attempt::NotReady);
    assert_eq!(c.next(), CopyAction::Close { b: false, a: true });
    assert_eq!(c.end_pass(0), PassEnd::Again);
    assert_eq!(c.next(), CopyAction::WriteB);
    assert_eq!(c.for_b(), b"a");
    c.wrote_b(Attempt::Done(1));
    assert_eq!(c.next(), CopyAction::ReadA);
    c.read_a(Attempt::Done(0));
    assert_eq!(c.next(), CopyAction::Close { b: true, a: true });
    assert_eq!(c.end_pass(0), PassEnd::Finished);
    assert_eq!(c.into_result(), (4, 0));
}

#[test]
fn copy_ends_when_idle_or_failed() {
    let mut c = BidiCopy::start(2, 1_000);
    assert_eq!(c.next(), CopyAction::ReadA);
    c.read_a(Attempt::NotReady);
    c.next();
    c.read_b(Attempt::NotReady);
    c.next();
    assert_eq!(c.end_pass(1_000), PassEnd::Wait(Some(2_000_001_000)));
    c.next();
    c.read_a(Attempt::NotReady);
    c.next();
    c.b_buf_mut()[0] = 7;
    c.read_b(Attempt::Done(1));
    c.next();
    assert_eq!(c.end_pass(1_500_000_000), PassEnd::Again);
    c.next();
    c.read_a(Attempt::NotReady);
    assert_eq!(c.next(), CopyAction::WriteA);
    assert_eq!(c.for_a(), [7]);
    c.wrote_a(Attempt::NotReady);
    c.next();
    assert_eq!(c.end_pass(3_499_999_999), PassEnd::Wait(Some(3_500_000_000)));
    assert_eq!(c.end_pass(3_500_000_000), PassEnd::Idle);
    let mut f = BidiCopy::start(0, 0);
    f.next();
    f.read_a(Attempt::Failed);
    assert_eq!(f.next(), CopyAction::Close { b: true, a: false });
    assert_eq!(f.end_pass(0), PassEnd::Failed);
    assert_eq!(postwait(0), None);
    assert_eq!(postwait(30), Some(30));
}

#[test]
fn batches_go_out_in_order() {
    let (mut b, step) = BatchSend::start(4);
    assert_eq!(step, BatchStep::SendFrom(0));
    assert_eq!(b.tried(BatchEvent::Sent(2)), BatchStep::SendFrom(2));
    assert_eq!(b.tried(BatchEvent::WouldBlock), BatchStep::SendOne(2));
    assert_eq!(b.one_done(true), BatchStep::SendFrom(3));
    assert_eq!(b.tried(BatchEvent::Sent(0)), BatchStep::SendOne(3));
    assert_eq!(b.one_done(true), BatchStep::Done);
    assert_eq!(BatchSend::start(0).1, BatchStep::Done);
    let (mut f, _) = BatchSend::start(1);
    assert_eq!(f.tried(BatchEvent::Failed), BatchStep::Fail);
    assert_eq!(f.one_done(false), BatchStep::Fail);
    assert_eq!(try_send_batch(BatchEvent::Sent(3)), Some(3));
    assert_eq!(try_send_batch(BatchEvent::WouldBlock), Some(0));
    assert_eq!(try_send_batch(BatchEvent::Failed), None);
}

#[test]
fn datagrams_without_a_sender_are_left_out() {
    let bufs = vec![vec![1, 2, 3], vec![4, 5, 6], vec![7, 8, 9]];
    let got = received_batch(&bufs, &vec![(2, Some(11)), (3, None), (1, Some(12))]);
    assert_eq!(got, vec![(vec![1, 2], 11), (vec![7], 12)]);
}

#[test]
fn signal_is_seen_once() {
    let mut f = SignalFlag::new();
    assert!(!sigusr1_received(&mut f));
    f.fire();
    assert!(sigusr1_received(&mut f));
    assert!(!sigusr1_received(&mut f));
}
