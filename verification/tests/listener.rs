//! Listeners and the queues of their peers.

use kcptun::kcp::builder::{peer_conn, KcpListenerBuilder, KcpTcpListener};
use kcptun::kcp::config::{KcpConfig, KcpMode};
use kcptun::kcp::listener::{
    sweep_due, AcceptError, Drain, KcpListener, KcpListenerLimits, PendingAccept,
};
use kcptun::kcp::transport::{PeerQueue, RecvError, RecvStep, MAX_DATAGRAM};

#[test]
fn default_limits_are_unlimited() {
    let l = KcpListenerLimits::default();
    assert_eq!(l.max_sessions, 0);
    assert_eq!(l.max_pending_accepts, 0);
    assert_eq!(l.max_peer_queue_packets, 0);
    assert_eq!(l.max_builds_per_wakeup, 0);
    assert_eq!(l.max_build_time_per_wakeup, 0);
    assert_eq!(l.max_drain_packets, 0);
    assert_eq!(l.building_timeout, 0);
    assert_eq!(l.pending_timeout, 0);
}

#[test]
fn route_inner_admission_drop_recycles_buffer() {
    let limits = KcpListenerLimits {
        max_sessions: 1,
        ..KcpListenerLimits::default()
    };
    let mut ctx = KcpListener::new(limits);
    let spare_a = ctx.route_inner(10001, vec![0u8; MAX_DATAGRAM], 0);
    assert_eq!(ctx.session_count(), 1);
    assert!(spare_a.capacity() >= MAX_DATAGRAM);
    ctx.begin_wakeup();
    let spare_b = ctx.route_inner(10002, vec![0u8; MAX_DATAGRAM], 0);
    assert_eq!(ctx.stats().session_drops, 1);
    assert_eq!(spare_b.len(), MAX_DATAGRAM);
    assert!(spare_b.capacity() >= MAX_DATAGRAM);
    assert!(ctx.affected().is_empty());
}

#[test]
fn route_inner_dedups_affected_per_peer() {
    let mut ctx = KcpListener::new(KcpListenerLimits::default());
    for _ in 0..3 {
        ctx.route_inner(20001, vec![0u8; MAX_DATAGRAM], 0);
    }
    for _ in 0..2 {
        ctx.route_inner(20002, vec![0u8; MAX_DATAGRAM], 0);
    }
    assert_eq!(ctx.affected().len(), 2);
    assert_eq!(ctx.affected()[0].0, 20001);
    assert_eq!(ctx.affected()[1].0, 20002);
    assert_eq!(ctx.stats().affected_comparisons, 5);
}

#[test]
fn burst_opens_one_session() {
    let mut l = KcpListener::new(KcpListenerLimits::default());
    let mut slots = vec![vec![1u8; 5], vec![2u8; 6], vec![3u8; 7]];
    l.route_batch(&vec![7, 7, 8], &mut slots, 2, 0);
    assert_eq!(l.session_count(), 1);
    assert_eq!(slots[0].len(), MAX_DATAGRAM);
    assert_eq!(slots[2], vec![3u8; 7]);
    let todo = l.collect_builds();
    assert_eq!(todo.len(), 1);
    assert_eq!(todo[0].0, 7);
    let mut buf = vec![0u8; 1];
    assert_eq!(l.recv_vec_step(todo[0].1, &mut buf), RecvStep::Ready(5));
    assert_eq!(buf, vec![1u8; 5]);
}

#[test]
fn built_connections_are_accepted_in_order() {
    let mut l = KcpListener::new(KcpListenerLimits::default());
    l.route_inner(1, vec![0u8; 9], 0);
    l.route_inner(2, vec![0u8; 9], 0);
    let todo = l.collect_builds();
    assert!(!l.build_time_is_up(1_000_000_000));
    let results: Vec<(u64, u64, bool)> = todo.iter().map(|t| (t.0, t.1, true)).collect();
    let (closed, wake) = l.commit_builds(&results, 3);
    assert!(closed.is_empty() && wake);
    assert_eq!(l.pending_count(), 2);
    assert_eq!(
        l.try_accept(),
        Ok(Some(PendingAccept { peer: 1, generation: todo[0].1, created_at: 3 }))
    );
    assert_eq!(l.try_accept().unwrap().unwrap().peer, 2);
    assert_eq!(l.try_accept(), Ok(None));
    assert!(l.close());
    assert!(!l.close());
    assert!(l.is_closed());
    assert_eq!(l.try_accept(), Err(AcceptError::ConnectionAborted));
}

#[test]
fn accepting_gives_up_in_time() {
    let mut l = KcpListener::new(KcpListenerLimits::default());
    assert_eq!(l.accept_timeout(false), Ok(None));
    assert_eq!(l.accept_timeout(true), Err(AcceptError::TimedOut));
    l.route_inner(1, vec![0u8; 9], 0);
    let generation = l.collect_builds()[0].1;
    l.commit_builds(&vec![(1, generation, true)], 0);
    assert_eq!(l.accept_timeout(true), Err(AcceptError::TimedOut));
    assert_eq!(l.accept_timeout(false).unwrap().unwrap().generation, generation);
    l.close();
    assert_eq!(l.accept_timeout(false), Err(AcceptError::ConnectionAborted));
    let t = KcpTcpListener::new(KcpConfig::default());
    assert_eq!(t.accept_timeout(true), Err(AcceptError::TimedOut));
    assert_eq!(t.accept_timeout(false), Ok(()));
}

#[test]
fn failed_and_surplus_builds_are_counted() {
    let limits = KcpListenerLimits {
        max_pending_accepts: 1,
        max_builds_per_wakeup: 2,
        ..KcpListenerLimits::default()
    };
    let mut l = KcpListener::new(limits);
    for peer in 0..3 {
        l.route_inner(peer, vec![0u8; 9], 0);
    }
    let todo = l.collect_builds();
    assert_eq!(todo.len(), 2);
    l.defer_builds(&vec![todo[1]]);
    let (closed, _) = l.commit_builds(&vec![(todo[0].0, todo[0].1, true)], 0);
    assert!(closed.is_empty());
    let again = l.collect_builds();
    assert_eq!(again[0], todo[1]);
    let (closed, wake) = l.commit_builds(
        &vec![(again[0].0, again[0].1, false), (again[1].0, again[1].1, true)],
        0,
    );
    assert_eq!(closed.len(), 2);
    assert!(!wake);
    let s = l.stats();
    assert_eq!(s.build_failures, 1);
    assert_eq!(s.pending_drops, 1);
    assert_eq!(s.sessions, 1);
    assert_eq!(s.pending, 1);
}

#[test]
fn sweeping_drops_what_took_too_long() {
    let limits = KcpListenerLimits {
        building_timeout: 10,
        pending_timeout: 20,
        ..KcpListenerLimits::default()
    };
    let mut l = KcpListener::new(limits);
    l.route_inner(1, vec![0u8; 9], 0);
    let todo = l.collect_builds();
    l.commit_builds(&vec![(1, todo[0].1, true)], 5);
    l.route_inner(2, vec![0u8; 9], 5);
    assert!(l.sweep(14).is_empty());
    let gone = l.sweep(40);
    assert_eq!(gone.len(), 1);
    assert_eq!(gone[0].peer, 1);
    assert_eq!(l.stats().build_timeouts, 1);
    assert_eq!(l.stats().pending_timeouts, 1);
    assert_eq!(l.session_count(), 0);
}

#[test]
fn removed_peer_starts_afresh() {
    let mut l = KcpListener::new(KcpListenerLimits::default());
    l.route_inner(1, vec![0u8; 9], 0);
    let first = l.collect_builds()[0].1;
    assert!(l.remove_peer(1));
    assert!(!l.remove_peer(1));
    l.route_inner(1, vec![0u8; 9], 0);
    let second = l.collect_builds()[0].1;
    assert_ne!(first, second);
    let (closed, _) = l.commit_builds(&vec![(1, first, true)], 0);
    assert_eq!(closed, vec![first]);
    assert_eq!(l.session_count(), 1);
    l.transport_dropped(second);
    l.route_inner(1, vec![0u8; 9], 0);
    assert!(l.collect_builds()[0].1 > second);
}

#[test]
fn drains_give_way() {
    let unlimited = KcpListenerLimits::default();
    let mut d = Drain::start(&unlimited);
    assert_eq!(d.recv_cap(&unlimited, 64), 16);
    d.routed(&unlimited, 16, 0);
    assert!(!d.quantum_hit);
    d.routed(&unlimited, 16, 5);
    assert!(d.quantum_hit);
    let limits = KcpListenerLimits { max_drain_packets: 3, ..unlimited };
    let mut d = Drain::start(&limits);
    assert_eq!(d.recv_cap(&limits, 64), 2);
    d.routed(&limits, 2, 0);
    assert!(d.quantum_hit);
    let mut n = 62;
    assert!(!sweep_due(&mut n));
    assert!(sweep_due(&mut n));
}

#[test]
fn pop_batch_preserves_order_and_recycles() {
    let mut q = PeerQueue::new(8);
    for i in 0..5 {
        q.push_and_reuse(vec![0u8; 10 + i]);
    }
    let mut pool: Vec<Vec<u8>> = (0..3).map(|_| vec![0u8; MAX_DATAGRAM]).collect();
    let n = q.pop_batch(&mut pool).unwrap();
    assert_eq!(n, 3);
    assert_eq!(pool[0].len(), 10);
    assert_eq!(pool[1].len(), 11);
    assert_eq!(pool[2].len(), 12);

    let mut pool2: Vec<Vec<u8>> = (0..3).map(|_| vec![0u8; MAX_DATAGRAM]).collect();
    let n2 = q.pop_batch(&mut pool2).unwrap();
    assert_eq!(n2, 2);
    assert_eq!(pool2[0].len(), 13);
    assert_eq!(pool2[1].len(), 14);

    let err = q.pop_batch(&mut pool2).unwrap_err();
    assert_eq!(err, RecvError::WouldBlock);
}

#[test]
fn empty_pool_takes_nothing_out() {
    let mut q = PeerQueue::new(0);
    let mut none: Vec<Vec<u8>> = Vec::new();
    assert_eq!(q.pop_batch(&mut none), Err(RecvError::WouldBlock));
    q.push_and_reuse(b"kept".to_vec());
    assert_eq!(q.pop_batch(&mut none), Ok(0));
    assert_eq!(q.pop(), Some(b"kept".to_vec()));
}

#[test]
fn queue_goes_with_its_last_holder() {
    let mut l = KcpListener::new(KcpListenerLimits::default());
    l.route_inner(1, b"kept".to_vec(), 0);
    let first = l.collect_builds()[0].1;
    l.commit_builds(&vec![(1, first, true)], 0);
    assert!(l.remove_peer(1));
    let mut buf = Vec::new();
    assert_eq!(l.recv_vec_step(first, &mut buf), RecvStep::Ready(4));
    assert_eq!(buf, b"kept".to_vec());
    assert_eq!(l.recv_vec_step(first, &mut buf), RecvStep::Closed);
    l.transport_dropped(first);
    assert_eq!(l.recv_vec_step(first, &mut buf), RecvStep::Closed);
    l.route_inner(1, b"lost".to_vec(), 0);
    let second = l.collect_builds()[0].1;
    assert!(l.remove_peer(1));
    l.transport_dropped(second);
    assert_eq!(l.recv_vec_step(second, &mut buf), RecvStep::Closed);
    assert_eq!(l.session_count(), 0);
}

#[test]
fn reader_rests_after_an_error() {
    let mut l = KcpListener::new(KcpListenerLimits::default());
    assert!(l.take_error().is_none());
    let kind = std::io::ErrorKind::ConnectionReset;
    assert_eq!(l.failed(std::io::Error::from(kind), false), Some(10));
    assert_eq!(l.take_error().unwrap().kind(), kind);
    assert!(l.take_error().is_none());
    assert_eq!(l.failed(std::io::Error::from(kind), true), None);
    assert!(l.take_error().is_some());
}

#[test]
fn push_drop_tail_when_bounded() {
    let mut q = PeerQueue::new(3);
    for i in 0..5 {
        q.push_and_reuse(vec![0u8; i + 1]);
    }
    assert_eq!(q.drops(), 2);
    let mut pool: Vec<Vec<u8>> = (0..3).map(|_| vec![0u8; MAX_DATAGRAM]).collect();
    let n = q.pop_batch(&mut pool).unwrap();
    assert_eq!(n, 3);
    assert_eq!(pool[0].len(), 1);
    assert_eq!(pool[1].len(), 2);
    assert_eq!(pool[2].len(), 3);
}

#[test]
fn push_drop_tail_recycles_buffer() {
    let mut q = PeerQueue::new(1);
    let (_, queued) = q.push_and_reuse(vec![1u8; 5]);
    assert!(queued);
    let mut dropped = vec![2u8; 3];
    dropped.reserve(MAX_DATAGRAM);
    let (recycled, queued) = q.push_and_reuse(dropped);
    assert!(!queued);
    assert_eq!(recycled.len(), MAX_DATAGRAM);
    assert!(recycled.capacity() >= MAX_DATAGRAM);
    assert_eq!(q.drops(), 1);
}

#[test]
fn peer_queue_spares_are_lazy() {
    let q = PeerQueue::new(0);
    assert_eq!(
        q.spare_len(),
        0,
        "idle peers must not preallocate packet buffers"
    );
}

#[test]
fn closed_queue_hands_out_what_it_holds() {
    let mut q = PeerQueue::new(0);
    q.push_and_reuse(b"last".to_vec());
    q.mark_closed();
    assert!(q.is_closed());
    let mut buf = [0u8; 8];
    assert_eq!(q.recv_step(&mut buf), RecvStep::Ready(4));
    assert_eq!(&buf[..4], b"last");
    assert_eq!(q.recv_step(&mut buf), RecvStep::Closed);
    let mut open = PeerQueue::new(0);
    assert_eq!(open.recv_step(&mut buf), RecvStep::Wait);
    assert!(open.pop().is_none());
    open.push_and_reuse(b"xy".to_vec());
    let mut v = Vec::new();
    assert_eq!(open.pop_into(&mut v), Some(2));
    assert_eq!(v, b"xy".to_vec());
}

#[test]
fn routing_leaves_others_alone() {
    let mut l = KcpListener::new(KcpListenerLimits::default());
    l.route_inner(1, b"one".to_vec(), 0);
    let first = l.collect_builds()[0].1;
    for _ in 0..5 {
        l.route_inner(2, b"two".to_vec(), 0);
    }
    assert!(l.remove_peer(2));
    let mut buf = Vec::new();
    assert_eq!(l.recv_vec_step(first, &mut buf), RecvStep::Ready(3));
    assert_eq!(buf, b"one".to_vec());
    assert_eq!(l.recv_vec_step(first, &mut buf), RecvStep::Wait);
    assert_eq!(l.session_count(), 1);
}

#[test]
fn generations_run_out_slowly() {
    let mut l = KcpListener::new(KcpListenerLimits::default());
    let before = l.generations_left();
    l.route_inner(1, vec![0u8; 9], 0);
    l.route_inner(1, vec![0u8; 9], 0);
    assert_eq!(l.generations_left(), before - 1);
}

#[test]
fn listener_builder_sets_limits() {
    let b = KcpListenerBuilder::new().mtu(1200).mode(KcpMode::Fast2).fec(10, 3).limits(
        KcpListenerLimits { max_sessions: 1, ..KcpListenerLimits::default() },
    );
    assert_eq!(b.config.mtu, 1200);
    assert_eq!(b.config.mode, KcpMode::Fast2);
    assert!(b.config.fec_enabled());
    let mut l = b.build();
    l.route_inner(1, vec![0u8; 9], 0);
    l.route_inner(2, vec![0u8; 9], 0);
    assert_eq!(l.stats().session_drops, 1);
    let m = KcpListenerBuilder::new().nodelay(1, 25, 2, 1);
    assert_eq!(m.config.mode, KcpMode::Manual);
    assert_eq!(m.config.interval, 25);
}

#[test]
fn raw_listener_accepts_until_closed() {
    let mut l = KcpTcpListener::new(KcpConfig { mtu: 1111, ..KcpConfig::default() });
    assert_eq!(l.accept(), Ok(()));
    let b = l.accepted("10.0.0.9:7");
    assert_eq!(b.remote.as_deref(), Some("10.0.0.9:7"));
    assert!(b.connected && b.has_transport);
    assert_eq!(b.config.mtu, 1111);
    l.failed(std::io::Error::from(std::io::ErrorKind::NotFound));
    assert_eq!(l.take_error().unwrap().kind(), std::io::ErrorKind::NotFound);
    assert!(l.take_error().is_none());
    l.close();
    assert_eq!(l.accept(), Err(AcceptError::ConnectionAborted));
}

#[test]
fn peers_adopt_their_conversation() {
    let b = peer_conn(KcpConfig::default(), "10.0.0.9:7");
    assert!(b.adopt_conv && b.has_transport && !b.connected);
    let c = b.build(0).unwrap().conn;
    assert!(c.conv.adopting);
}
