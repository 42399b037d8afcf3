use agent_groove::cadence::{num_gcd, num_lcm};
use agent_groove::{Feel, FeelScore, PolyrhythmWork, Ratio, Syncopator, Timing};

fn to_f64(r: Ratio) -> f64 {
    r.num as f64 / r.den as f64
}

fn score_of(f: &Feel) -> f64 {
    let s = f.feel_score();
    to_f64(s.consistency) * 0.4 + to_f64(s.quality) * 0.4 + to_f64(s.variation) * 0.2
}

#[test]
fn syncopator_basic() {
    let mut s = Syncopator::new(8, 500);
    s.add_point(1);
    s.add_point(5);
    assert!(s.is_syncopated(1));
    assert!(!s.is_syncopated(0));
    assert!(s.is_syncopated(5));
}

#[test]
fn syncopator_auto() {
    let mut s = Syncopator::new(12, 800);
    // low novelty = more syncopation: novelty 0.2 asks for ceil((1 - 0.2) * 12 / 3) = 4 points
    s.auto_syncopate(4);
    assert!(!s.disruption_points.is_empty());
}

#[test]
fn polyrhythm_work() {
    let mut pw = PolyrhythmWork::new();
    pw.add_agent(1, 2); // every 2 ticks
    pw.add_agent(2, 3); // every 3 ticks
    assert_eq!(pw.sync_point(), 6); // LCM(2,3)=6
    let a0 = pw.active_agents(); // tick 0: both active
    assert_eq!(a0.len(), 2);
    pw.tick = 1;
    let a1 = pw.active_agents(); // tick 1: neither
    assert_eq!(a1.len(), 0);
    pw.tick = 2;
    let a2 = pw.active_agents(); // tick 2: agent 1
    assert_eq!(a2.len(), 1);
}

#[test]
fn feel_score() {
    let mut f = Feel::new();
    f.record(Timing::OnTime, 1);
    f.record(Timing::OnTime, 1);
    f.record(Timing::Late, 0);
    assert!(score_of(&f) > 0.5);
    assert!(to_f64(f.consistency()) > 0.5);
}

#[test]
fn syncopator_strength_is_clamped() {
    assert_eq!(Syncopator::new(4, -3).strength_permille, 0);
    assert_eq!(Syncopator::new(4, 700).strength_permille, 700);
    assert_eq!(Syncopator::new(4, 5000).strength_permille, 1000);
}

#[test]
fn syncopator_points_and_apply() {
    let mut s = Syncopator::new(8, 500);
    s.add_point(9);
    assert!(s.disruption_points.is_empty());
    s.add_point(3);
    s.add_point(6);
    assert!(s.is_syncopated(11));
    assert_eq!(s.apply(3), Timing::Early);
    assert_eq!(s.apply(6), Timing::Late);
    assert_eq!(s.apply(14), Timing::Late);
    assert_eq!(s.apply(4), Timing::OnTime);
}

#[test]
fn syncopator_auto_counts() {
    let mut s = Syncopator::new(12, 800);
    s.auto_syncopate(4);
    assert_eq!(s.disruption_points, vec![1, 4, 7, 10]);
    s.auto_syncopate(2);
    assert_eq!(s.disruption_points, vec![1, 4]);
    s.auto_syncopate(0);
    assert!(s.disruption_points.is_empty());
    s.auto_syncopate(20);
    assert_eq!(s.disruption_points, vec![1, 4, 7, 10]);
    let mut short = Syncopator::new(4, 0);
    // novelty 0.0 on 4 beats asks for ceil(4 / 3) = 2 points; only beat 1 is an off-beat inside
    short.auto_syncopate(2);
    assert_eq!(short.disruption_points, vec![1]);
    let mut two = Syncopator::new(2, 0);
    two.auto_syncopate(1);
    assert_eq!(two.disruption_points, vec![1]);
    let mut one = Syncopator::new(1, 0);
    one.auto_syncopate(1);
    assert!(one.disruption_points.is_empty());
    assert_eq!(s.strength_permille, 800);
}

#[test]
fn gcd_and_lcm_values() {
    assert_eq!(num_gcd(12, 18), 6);
    assert_eq!(num_gcd(7, 0), 7);
    assert_eq!(num_gcd(0, 5), 5);
    assert_eq!(num_lcm(4, 6), 12);
    assert_eq!(num_lcm(0, 6), 0);
    assert_eq!(num_lcm(5, 7), 35);
}

#[test]
fn polyrhythm_sync_point_cases() {
    let mut pw = PolyrhythmWork::new();
    assert_eq!(pw.sync_point(), 1);
    pw.add_agent(1, 4);
    pw.add_agent(2, 6);
    pw.add_agent(3, 0);
    assert_eq!(pw.cadences[&3], 1);
    assert_eq!(pw.sync_point(), 12);
    pw.add_agent(2, 10);
    assert_eq!(pw.sync_point(), 20);
    pw.cadences.insert(9, 0);
    assert_eq!(pw.sync_point(), 0);
}

#[test]
fn polyrhythm_advance_and_align() {
    let mut pw = PolyrhythmWork::new();
    pw.add_agent(1, 2);
    pw.add_agent(2, 3);
    let mut seen = Vec::new();
    for _ in 0..7 {
        let mut a = pw.advance();
        a.sort();
        seen.push(a);
    }
    assert_eq!(pw.tick, 7);
    assert_eq!(seen[0], vec![1, 2]);
    assert_eq!(seen[1], Vec::<u32>::new());
    assert_eq!(seen[2], vec![1]);
    assert_eq!(seen[3], vec![2]);
    assert_eq!(seen[4], vec![1]);
    assert_eq!(seen[5], Vec::<u32>::new());
    assert_eq!(seen[6], vec![1, 2]);
    pw.reset();
    assert_eq!(pw.tick, 0);
    assert_eq!(pw.cadences.len(), 2);
}

#[test]
fn feel_ratios() {
    let mut f = Feel::default();
    assert_eq!(f.consistency(), Ratio { num: 1, den: 1 });
    assert_eq!(f.dynamic_range(), Ratio { num: 0, den: 1 });
    assert_eq!(f.quality_ratio(), Ratio { num: 1, den: 2 });
    f.record(Timing::Early, -1);
    f.record(Timing::OnTime, 1);
    f.record(Timing::Late, 3);
    f.record(Timing::OnTime, 0);
    assert_eq!(f.total_ticks, 4);
    assert_eq!(f.consistency(), Ratio { num: 2, den: 4 });
    assert_eq!(f.dynamic_range(), Ratio { num: 2, den: 4 });
    assert_eq!(f.quality_ratio(), Ratio { num: 2, den: 3 });
    assert_eq!(
        f.feel_score(),
        FeelScore {
            consistency: Ratio { num: 2, den: 4 },
            quality: Ratio { num: 2, den: 3 },
            variation: Ratio { num: 3, den: 10 },
        }
    );
    let score = score_of(&f);
    assert!((score - (0.5 * 0.4 + (2.0 / 3.0) * 0.4 + 0.3 * 0.2)).abs() < 1e-12);
}

#[test]
fn readme_syncopation_example() {
    let mut sync = Syncopator::new(12, 700);
    sync.auto_syncopate(4); // novelty 0.2 on 12 beats

    assert!(sync.is_syncopated(4));
    assert!(!sync.is_syncopated(5));
    assert!(sync.is_syncopated(16));
}

#[test]
fn feel_score_variation_below_cap() {
    let mut f = Feel::new();
    for _ in 0..9 {
        f.record(Timing::OnTime, 1);
    }
    f.record(Timing::Early, 1);
    let s = f.feel_score();
    assert_eq!(s.variation, Ratio { num: 1, den: 10 });
    assert_eq!(s.consistency, Ratio { num: 9, den: 10 });
    assert_eq!(s.quality, Ratio { num: 10, den: 10 });
    assert_eq!(Feel::new().feel_score().variation, Ratio { num: 0, den: 1 });
}
