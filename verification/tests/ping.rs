use dither_node::ping::PingID;
use dither_node::ping::PingTracker;

#[test]
fn test_ping_tracker() {
    let mut tracker = PingTracker::<5>::new();
    let ping_id = tracker.gen_unique_id(1_000);
    assert_eq!(tracker.record_unique_id(ping_id, 11_000), Some(10_000));

    let first_ping_id = tracker.gen_unique_id(20_000);
    for step in 0..4u64 {
        tracker.gen_unique_id(20_001 + step);
    }
    let ping_id = tracker.gen_unique_id(30_000);
    assert_eq!(ping_id.id, first_ping_id.id);
    assert_ne!(ping_id.gen, first_ping_id.gen);
    assert_eq!(tracker.record_unique_id(first_ping_id, 40_000), None);
    assert_eq!(tracker.record_unique_id(ping_id, 40_000), Some(10_000));
}

#[test]
fn new_tracker_issues_slots_in_order() {
    let mut tracker = PingTracker::<4>::new();
    assert_eq!(tracker.capacity(), 4);
    for expected in 0..4u8 {
        assert_eq!(tracker.gen_unique_id(7), PingID { id: expected, gen: 0 });
    }
    assert_eq!(tracker.capacity(), 4);
}

#[test]
fn record_after_gen_returns_elapsed_time() {
    let mut tracker = PingTracker::<64>::new();
    let id = tracker.gen_unique_id(1_000_000);
    assert_eq!(tracker.record_unique_id(id, 1_250_000), Some(250_000));
}

#[test]
fn record_with_clock_not_advanced_returns_zero() {
    let mut tracker = PingTracker::<64>::new();
    let id = tracker.gen_unique_id(500);
    assert_eq!(tracker.record_unique_id(id, 500), Some(0));
    let id = tracker.gen_unique_id(900);
    assert_eq!(tracker.record_unique_id(id, 100), Some(0));
}

#[test]
fn second_ack_of_same_ping_is_rejected() {
    let mut tracker = PingTracker::<8>::new();
    let id = tracker.gen_unique_id(10);
    assert_eq!(tracker.record_unique_id(id, 20), Some(10));
    assert_eq!(tracker.record_unique_id(id, 30), None);
}

#[test]
fn ack_of_unknown_slot_is_rejected() {
    let mut tracker = PingTracker::<5>::new();
    assert_eq!(tracker.record_unique_id(PingID { id: 9, gen: 0 }, 5), None);
    assert_eq!(tracker.record_unique_id(PingID { id: 0, gen: 0 }, 5), None);
    let id = tracker.gen_unique_id(1);
    assert_eq!(tracker.record_unique_id(PingID { id: id.id, gen: id.gen.wrapping_add(1) }, 5), None);
    assert_eq!(tracker.record_unique_id(id, 5), Some(4));
}

#[test]
fn freed_slot_is_reused_first() {
    let mut tracker = PingTracker::<8>::new();
    let a = tracker.gen_unique_id(1);
    let b = tracker.gen_unique_id(2);
    let c = tracker.gen_unique_id(3);
    assert_eq!((a.id, b.id, c.id), (0, 1, 2));
    assert_eq!(tracker.record_unique_id(b, 4), Some(2));
    let d = tracker.gen_unique_id(5);
    assert_eq!(d, PingID { id: 1, gen: 0 });
    let e = tracker.gen_unique_id(6);
    assert_eq!(e, PingID { id: 3, gen: 0 });
    assert_eq!(tracker.record_unique_id(a, 7), Some(6));
    assert_eq!(tracker.record_unique_id(c, 7), Some(4));
    assert_eq!(tracker.record_unique_id(d, 7), Some(2));
    assert_eq!(tracker.record_unique_id(e, 7), Some(1));
}

#[test]
fn overflow_rejects_first_and_accepts_latest_64() {
    let mut tracker = PingTracker::<64>::new();
    let mut issued: Vec<PingID> = Vec::new();
    for step in 0..65u64 {
        issued.push(tracker.gen_unique_id(1_000 + step));
    }
    assert_eq!(issued[64], PingID { id: 0, gen: 1 });
    assert_eq!(tracker.record_unique_id(issued[0], 2_000), None);
    for step in 1..65usize {
        assert_eq!(
            tracker.record_unique_id(issued[step], 2_000),
            Some(2_000 - (1_000 + step as u64))
        );
    }
    assert_eq!(tracker.capacity(), 64);
}

#[test]
fn generation_wraps_after_256_overwrites() {
    let mut tracker = PingTracker::<1>::new();
    let first = tracker.gen_unique_id(0);
    assert_eq!(first, PingID { id: 0, gen: 0 });
    for round in 1..256u64 {
        let id = tracker.gen_unique_id(round);
        assert_eq!(id, PingID { id: 0, gen: round as u8 });
        let mut probe = tracker.clone();
        assert_eq!(probe.record_unique_id(first, 1_000), None);
    }
    let wrapped = tracker.gen_unique_id(256);
    assert_eq!(wrapped, PingID { id: 0, gen: 0 });
    assert_eq!(tracker.record_unique_id(first, 1_000), Some(744));
}

#[test]
fn no_outstanding_ping_is_overwritten_while_a_slot_is_free() {
    let mut tracker = PingTracker::<4>::new();
    let a = tracker.gen_unique_id(1);
    let b = tracker.gen_unique_id(2);
    let c = tracker.gen_unique_id(3);
    let d = tracker.gen_unique_id(4);
    // Two slots are given back; the next two pings take them and no other.
    assert_eq!(tracker.record_unique_id(b, 5), Some(3));
    assert_eq!(tracker.record_unique_id(d, 5), Some(1));
    let e = tracker.gen_unique_id(6);
    assert_eq!(e, PingID { id: d.id, gen: 0 });
    let f = tracker.gen_unique_id(7);
    assert_eq!(f, PingID { id: b.id, gen: 0 });
    // Every slot is taken now: the next ping overwrites one.
    let g = tracker.gen_unique_id(8);
    assert_eq!(g.gen, 1);
    let mut accepted = 0;
    for id in [a, c, e, f] {
        if tracker.record_unique_id(id, 9).is_some() {
            accepted += 1;
        }
    }
    assert_eq!(accepted, 3);
    assert_eq!(tracker.record_unique_id(g, 9), Some(1));
}
