use agent_groove::{Groove, SwingScheduler, Timing};

#[test]
fn groove_straight() {
    let mut g = Groove::straight(4);
    for _ in 0..4 {
        assert_eq!(g.tick(), Timing::OnTime);
    }
}

#[test]
fn groove_swing() {
    let mut g = Groove::swing(4);
    assert_eq!(g.tick(), Timing::OnTime); // downbeat
    assert_eq!(g.tick(), Timing::Late); // upbeat
    assert_eq!(g.tick(), Timing::OnTime); // downbeat
    assert_eq!(g.tick(), Timing::Late); // upbeat
}

#[test]
fn groove_cycle() {
    let mut g = Groove::new(vec![Timing::Early, Timing::Late]);
    assert_eq!(g.tick(), Timing::Early);
    assert_eq!(g.tick(), Timing::Late);
    assert_eq!(g.tick(), Timing::Early);
}

#[test]
fn groove_reset() {
    let mut g = Groove::swing(4);
    g.tick();
    g.tick();
    g.reset();
    assert_eq!(g.tick(), Timing::OnTime);
}

#[test]
fn swing_scheduler() {
    let g = Groove::swing(4);
    let mut s = SwingScheduler::new(g, 100);
    let i1 = s.next_interval();
    assert_eq!(i1, 100); // on time
    let i2 = s.next_interval();
    assert!(i2 > 100); // late = 115
    assert!(i2 < 120);
}

#[test]
fn swing_scheduler_reset() {
    let g = Groove::swing(4);
    let mut s = SwingScheduler::new(g, 100);
    s.next_interval();
    s.next_interval();
    s.reset();
    assert_eq!(s.next_interval(), 100);
}

#[test]
fn timing_offsets_round_trip() {
    assert_eq!(Timing::Early.to_i8(), -1);
    assert_eq!(Timing::OnTime.to_i8(), 0);
    assert_eq!(Timing::Late.to_i8(), 1);
    for t in [Timing::Early, Timing::OnTime, Timing::Late] {
        assert_eq!(Timing::from_i8(t.to_i8()), Some(t));
    }
    assert_eq!(Timing::from_i8(2), None);
    assert_eq!(Timing::from_i8(-2), None);
}

#[test]
fn groove_shuffle_pattern() {
    let g = Groove::shuffle(6);
    assert_eq!(
        g.pattern,
        vec![
            Timing::Early,
            Timing::OnTime,
            Timing::Late,
            Timing::OnTime,
            Timing::Early,
            Timing::OnTime
        ]
    );
    assert_eq!(g.position, 0);
    assert_eq!(g.len(), 6);
    assert!(!g.is_empty());
}

#[test]
fn groove_empty_is_on_time() {
    let mut g = Groove::new(Vec::new());
    assert!(g.is_empty());
    assert_eq!(g.len(), 0);
    assert_eq!(g.tick(), Timing::OnTime);
    assert_eq!(g.position, 0);
}

#[test]
fn groove_cycles_back_after_len_ticks() {
    let mut g = Groove::shuffle(4);
    g.tick();
    let start = g.position;
    let first = g.pattern[start];
    for _ in 0..4 {
        g.tick();
    }
    assert_eq!(g.position, start);
    assert_eq!(g.tick(), first);
}

#[test]
fn swing_scheduler_early_and_counts() {
    let g = Groove::shuffle(4);
    let mut s = SwingScheduler::new(g, 100);
    assert_eq!(s.next_interval(), 85);
    assert_eq!(s.next_interval(), 100);
    assert_eq!(s.next_interval(), 115);
    assert_eq!(s.next_interval(), 100);
    assert_eq!(s.tick_count, 4);
    s.reset();
    assert_eq!(s.tick_count, 0);
    assert_eq!(s.groove.position, 0);
}

#[test]
fn swing_scheduler_rounds_down_and_saturates() {
    let mut s = SwingScheduler::new(Groove::new(vec![Timing::Early, Timing::Late]), 7);
    assert_eq!(s.next_interval(), 5);
    assert_eq!(s.next_interval(), 8);
    let mut big = SwingScheduler::new(Groove::new(vec![Timing::Late]), u64::MAX);
    assert_eq!(big.next_interval(), u64::MAX);
}
