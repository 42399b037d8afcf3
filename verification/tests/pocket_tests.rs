use agent_groove::{Pocket, PocketState};

fn autonomy(p: &Pocket) -> f64 {
    p.autonomy_percent() as f64 / 100.0
}

#[test]
fn pocket_entering() {
    let mut p = Pocket::new(0);
    for _ in 0..3 {
        p.record(1);
    }
    assert_eq!(p.state, PocketState::Entering);
}

#[test]
fn pocket_deep() {
    let mut p = Pocket::new(0);
    for _ in 0..10 {
        p.record(1);
    }
    assert_eq!(p.state, PocketState::Deep);
    assert!(autonomy(&p) > 0.9);
}

#[test]
fn pocket_fall_out() {
    let mut p = Pocket::new(0);
    for _ in 0..5 {
        p.record(1);
    }
    assert_ne!(p.state, PocketState::Out);
    p.record(-1);
    p.record(-1);
    assert_eq!(p.state, PocketState::Out);
    assert!(autonomy(&p) < 0.5);
}

#[test]
fn pocket_autonomy_gradient() {
    let p = Pocket::new(0);
    assert_eq!(p.state, PocketState::Out);
    assert!(autonomy(&p) < 0.5);
}

#[test]
fn pocket_good_streak_levels() {
    let mut p = Pocket::new(7);
    let expected = [
        PocketState::Out,
        PocketState::Out,
        PocketState::Entering,
        PocketState::Entering,
        PocketState::InPocket,
        PocketState::InPocket,
        PocketState::InPocket,
        PocketState::Deep,
        PocketState::Deep,
    ];
    for (i, s) in expected.iter().enumerate() {
        p.record(1);
        assert_eq!(p.state, *s, "after {} good outputs", i + 1);
    }
    assert_eq!(p.consecutive_good, 9);
    assert_eq!(p.ticks_in_pocket, 5);
    assert_eq!(p.total_pocket_time, 5);
    assert_eq!(p.agent_id, 7);
}

#[test]
fn pocket_autonomy_percents() {
    let mut p = Pocket::new(0);
    assert_eq!(p.autonomy_percent(), 20);
    for _ in 0..3 {
        p.record(1);
    }
    assert_eq!(p.autonomy_percent(), 50);
    for _ in 0..2 {
        p.record(1);
    }
    assert_eq!(p.autonomy_percent(), 80);
    for _ in 0..3 {
        p.record(1);
    }
    assert_eq!(p.autonomy_percent(), 95);
}

#[test]
fn pocket_neutral_and_single_bad() {
    let mut p = Pocket::new(0);
    for _ in 0..5 {
        p.record(1);
    }
    assert_eq!(p.state, PocketState::InPocket);
    p.record(-1);
    assert_eq!(p.state, PocketState::InPocket);
    assert_eq!(p.consecutive_good, 0);
    assert_eq!(p.consecutive_bad, 1);
    p.record(0);
    assert_eq!(p.consecutive_bad, 0);
    assert_eq!(p.state, PocketState::InPocket);
    p.record(5);
    assert_eq!(p.state, PocketState::InPocket);
    assert_eq!(p.ticks_in_pocket, 4);
}

#[test]
fn pocket_reset_keeps_total_time() {
    let mut p = Pocket::new(3);
    for _ in 0..6 {
        p.record(1);
    }
    assert_eq!(p.total_pocket_time, 2);
    p.reset();
    assert_eq!(p.state, PocketState::Out);
    assert_eq!(p.consecutive_good, 0);
    assert_eq!(p.consecutive_bad, 0);
    assert_eq!(p.ticks_in_pocket, 0);
    assert_eq!(p.total_pocket_time, 2);
    assert_eq!(p.threshold_good, 3);
    assert_eq!(p.threshold_deep, 8);
    assert_eq!(p.threshold_bad, 2);
}

#[test]
fn readme_pocket_example() {
    let mut pocket = Pocket::new(42);
    pocket.record(1);
    pocket.record(1);
    pocket.record(1);
    assert_eq!(pocket.state, PocketState::Entering);
    pocket.record(-1);
    pocket.record(-1);
    assert_eq!(pocket.state, PocketState::Out);
    assert_eq!(pocket.autonomy_percent(), 20);
}
