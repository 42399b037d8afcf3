//! Feel: the overall quality of an agent's work timing.
use vstd::prelude::*;
use crate::timing::Timing;

verus! {

/// An exact ratio `num / den` of two counts.
#[derive(Debug, Clone, Copy, PartialEq, Eq, Structural)]
pub struct Ratio {
    pub num: u64,
    pub den: u64,
}

/// Counts of an agent's ticks by timing and of its outputs by quality.
#[derive(Debug, Clone)]
pub struct Feel {
    pub total_ticks: u64,
    pub on_time_ticks: u64,
    pub early_ticks: u64,
    pub late_ticks: u64,
    pub good_quality: u64,
    pub bad_quality: u64,
}

/// Feel with nothing recorded.
pub open spec fn empty_feel() -> Feel {
    Feel {
        total_ticks: 0,
        on_time_ticks: 0,
        early_ticks: 0,
        late_ticks: 0,
        good_quality: 0,
        bad_quality: 0,
    }
}

/// Consistency: on-time ticks over all ticks, 1 before any tick.
pub open spec fn consistency_of(f: Feel) -> Ratio {
    if f.total_ticks == 0 {
        Ratio { num: 1, den: 1 }
    } else {
        Ratio { num: f.on_time_ticks, den: f.total_ticks }
    }
}

/// Dynamic range: early and late ticks over all ticks, 0 before any tick.
pub open spec fn dynamic_range_of(f: Feel) -> Ratio {
    if f.total_ticks == 0 {
        Ratio { num: 0, den: 1 }
    } else {
        Ratio { num: (f.early_ticks + f.late_ticks) as u64, den: f.total_ticks }
    }
}

/// Quality ratio: good outputs over good and bad ones, one half before any.
pub open spec fn quality_ratio_of(f: Feel) -> Ratio {
    if f.good_quality + f.bad_quality == 0 {
        Ratio { num: 1, den: 2 }
    } else {
        Ratio { num: f.good_quality, den: (f.good_quality + f.bad_quality) as u64 }
    }
}

/// Timing variation as it counts in the feel score: the dynamic range,
/// capped at 3/10.
pub open spec fn capped_range_of(f: Feel) -> Ratio {
    let d = dynamic_range_of(f);
    if 10 * d.num <= 3 * d.den {
        d
    } else {
        Ratio { num: 3, den: 10 }
    }
}

/// The three parts of the feel score, each an exact ratio; the score is
/// `0.4 * consistency + 0.4 * quality + 0.2 * variation`.
#[derive(Debug, Clone, Copy, PartialEq, Eq, Structural)]
pub struct FeelScore {
    pub consistency: Ratio,
    pub quality: Ratio,
    /// The dynamic range, capped at 3/10.
    pub variation: Ratio,
}

/// The parts of the feel score of `f`.
pub open spec fn feel_score_of(f: Feel) -> FeelScore {
    FeelScore {
        consistency: consistency_of(f),
        quality: quality_ratio_of(f),
        variation: capped_range_of(f),
    }
}

/// The numerator of the feel score `(4 c + 4 q + 2 v) / 10` over the common
/// denominator `weighted_denominator`.
pub open spec fn weighted_numerator(s: FeelScore) -> int {
    let c = s.consistency;
    let q = s.quality;
    let v = s.variation;
    4 * c.num * q.den * v.den + 4 * q.num * c.den * v.den + 2 * v.num * c.den * q.den
}

/// The common denominator of the feel score.
pub open spec fn weighted_denominator(s: FeelScore) -> int {
    10 * s.consistency.den * s.quality.den * s.variation.den
}

impl Default for Feel {
    fn default() -> (f: Self)
        ensures
            f == empty_feel(),
    {
        Feel {
            total_ticks: 0,
            on_time_ticks: 0,
            early_ticks: 0,
            late_ticks: 0,
            good_quality: 0,
            bad_quality: 0,
        }
    }
}

impl Feel {
    /// Every tick is counted under exactly one timing, and at most one
    /// quality.
    pub open spec fn wf(&self) -> bool {
        &&& self.on_time_ticks + self.early_ticks + self.late_ticks == self.total_ticks
        &&& self.good_quality + self.bad_quality <= self.total_ticks
    }

    /// The counts after one more tick of timing `timing` and output quality
    /// `quality` (positive good, negative bad, zero neither).
    pub open spec fn recorded(self, timing: Timing, quality: i8) -> Feel {
        Feel {
            total_ticks: (self.total_ticks + 1) as u64,
            on_time_ticks: if timing == Timing::OnTime {
                (self.on_time_ticks + 1) as u64
            } else {
                self.on_time_ticks
            },
            early_ticks: if timing == Timing::Early {
                (self.early_ticks + 1) as u64
            } else {
                self.early_ticks
            },
            late_ticks: if timing == Timing::Late {
                (self.late_ticks + 1) as u64
            } else {
                self.late_ticks
            },
            good_quality: if quality > 0 {
                (self.good_quality + 1) as u64
            } else {
                self.good_quality
            },
            bad_quality: if quality < 0 {
                (self.bad_quality + 1) as u64
            } else {
                self.bad_quality
            },
        }
    }

    /// Recording a tick of `timing` and `quality` overflows no count.
    pub open spec fn can_record(self, timing: Timing, quality: i8) -> bool {
        &&& self.total_ticks < u64::MAX
        &&& timing == Timing::OnTime ==> self.on_time_ticks < u64::MAX
        &&& timing == Timing::Early ==> self.early_ticks < u64::MAX
        &&& timing == Timing::Late ==> self.late_ticks < u64::MAX
        &&& quality > 0 ==> self.good_quality < u64::MAX
        &&& quality < 0 ==> self.bad_quality < u64::MAX
    }

    /// Nothing recorded yet.
    pub fn new() -> (f: Self)
        ensures
            f == empty_feel(),
            f.wf(),
    {
        Self::default()
    }

    /// Count one more tick of timing `timing` whose output had quality
    /// `quality` (positive good, negative bad, zero neither).
    pub fn record(&mut self, timing: Timing, quality: i8)
        requires
            old(self).can_record(timing, quality),
        ensures
            *final(self) == old(self).recorded(timing, quality),
    {
        self.total_ticks = self.total_ticks + 1;
        match timing {
            Timing::OnTime => self.on_time_ticks = self.on_time_ticks + 1,
            Timing::Early => self.early_ticks = self.early_ticks + 1,
            Timing::Late => self.late_ticks = self.late_ticks + 1,
        }
        if quality > 0 {
            self.good_quality = self.good_quality + 1;
        } else if quality < 0 {
            self.bad_quality = self.bad_quality + 1;
        }
    }

    /// Consistency, how often the agent is on time: on-time ticks over all
    /// ticks, and 1 before any tick.
    pub fn consistency(&self) -> (r: Ratio)
        ensures
            r == consistency_of(*self),
    {
        if self.total_ticks == 0 {
            Ratio { num: 1, den: 1 }
        } else {
            Ratio { num: self.on_time_ticks, den: self.total_ticks }
        }
    }

    /// Dynamic range, how much the timing varies: early and late ticks over
    /// all ticks, and 0 before any tick.
    pub fn dynamic_range(&self) -> (r: Ratio)
        requires
            self.total_ticks != 0 ==> self.early_ticks + self.late_ticks <= u64::MAX,
        ensures
            r == dynamic_range_of(*self),
    {
        if self.total_ticks == 0 {
            Ratio { num: 0, den: 1 }
        } else {
            Ratio { num: self.early_ticks + self.late_ticks, den: self.total_ticks }
        }
    }

    /// Quality ratio: good outputs over good and bad ones, and one half before
    /// any good or bad output.
    pub fn quality_ratio(&self) -> (r: Ratio)
        requires
            self.good_quality + self.bad_quality <= u64::MAX,
        ensures
            r == quality_ratio_of(*self),
    {
        if self.good_quality + self.bad_quality == 0 {
            Ratio { num: 1, den: 2 }
        } else {
            Ratio { num: self.good_quality, den: self.good_quality + self.bad_quality }
        }
    }

    /// The feel score, balanced between consistency and quality: consistency
    /// and quality ratio weigh 0.4 each and the dynamic range 0.2, its
    /// contribution capped at a range of 0.3.
    pub fn feel_score(&self) -> (r: FeelScore)
        requires
            self.total_ticks != 0 ==> self.early_ticks + self.late_ticks <= u64::MAX,
            self.good_quality + self.bad_quality <= u64::MAX,
        ensures
            r == feel_score_of(*self),
    {
        let d = self.dynamic_range();
        let variation = if 10 * (d.num as u128) <= 3 * (d.den as u128) {
            d
        } else {
            Ratio { num: 3, den: 10 }
        };
        FeelScore {
            consistency: self.consistency(),
            quality: self.quality_ratio(),
            variation,
        }
    }
}

/// Recording keeps the counts consistent: each tick lands under exactly one
/// timing and at most one quality, so the total is always the sum of the
/// timing counts.
pub proof fn lemma_record_keeps_counts(f: Feel, timing: Timing, quality: i8)
    requires
        f.wf(),
        f.can_record(timing, quality),
    ensures
        f.recorded(timing, quality).wf(),
        f.recorded(timing, quality).total_ticks == f.total_ticks + 1,
{
}

/// On consistent counts every ratio is a fraction between 0 and 1 with a
/// positive denominator, and consistency and dynamic range share out the
/// whole: every tick is either on time or varied.
pub proof fn lemma_ratios_are_fractions(f: Feel)
    requires
        f.wf(),
    ensures
        0 < consistency_of(f).den,
        consistency_of(f).num <= consistency_of(f).den,
        0 < dynamic_range_of(f).den,
        dynamic_range_of(f).num <= dynamic_range_of(f).den,
        0 < quality_ratio_of(f).den,
        quality_ratio_of(f).num <= quality_ratio_of(f).den,
        f.total_ticks > 0 ==> consistency_of(f).den == dynamic_range_of(f).den
            && consistency_of(f).num + dynamic_range_of(f).num == consistency_of(f).den,
{
}


/// The feel score lies between 0 and 0.86 on consistent counts: each part is
/// a fraction of at most 1, and timing variation, capped at 0.3, adds at most
/// 0.06 to the score.
pub proof fn lemma_feel_score_bounds(f: Feel)
    requires
        f.wf(),
    ensures
        weighted_denominator(feel_score_of(f)) > 0,
        0 <= weighted_numerator(feel_score_of(f)),
        100 * weighted_numerator(feel_score_of(f)) <= 86 * weighted_denominator(feel_score_of(f)),
        10 * feel_score_of(f).variation.num <= 3 * feel_score_of(f).variation.den,
{
    lemma_ratios_are_fractions(f);
    let s = feel_score_of(f);
    let a: int = s.consistency.num as int;
    let cd: int = s.consistency.den as int;
    let e: int = s.quality.num as int;
    let qd: int = s.quality.den as int;
    let g: int = s.variation.num as int;
    let vd: int = s.variation.den as int;
    assert(0 < vd && 10 * g <= 3 * vd);
    assert(a * qd * vd <= cd * qd * vd) by (nonlinear_arith)
        requires
            0 <= a <= cd,
            0 < qd,
            0 < vd,
    ;
    assert(e * cd * vd <= cd * qd * vd) by (nonlinear_arith)
        requires
            0 <= e <= qd,
            0 < cd,
            0 < vd,
    ;
    assert(10 * (g * cd * qd) <= 3 * (cd * qd * vd)) by (nonlinear_arith)
        requires
            0 <= g,
            10 * g <= 3 * vd,
            0 < cd,
            0 < qd,
    ;
    assert(0 <= a * qd * vd && 0 <= e * cd * vd && 0 <= g * cd * qd && 0 < cd * qd * vd) by (nonlinear_arith)
        requires
            0 <= a,
            0 <= e,
            0 <= g,
            0 < cd,
            0 < qd,
            0 < vd,
    ;
    assert(weighted_numerator(s) == 4 * (a * qd * vd) + 4 * (e * cd * vd) + 2 * (g * cd * qd)) by (nonlinear_arith)
        requires
            weighted_numerator(s) == 4 * a * qd * vd + 4 * e * cd * vd + 2 * g * cd * qd,
    ;
    assert(weighted_denominator(s) == 10 * (cd * qd * vd)) by (nonlinear_arith)
        requires
            weighted_denominator(s) == 10 * cd * qd * vd,
    ;
}


/// Each recorded tick is counted once, under its own timing: an early tick
/// adds one to the early count only, a late tick to the late count only, an
/// on-time tick to the on-time count only; a positive quality adds one good
/// output, a negative one one bad output, and zero neither.
pub proof fn lemma_record_counts_its_timing(f: Feel, timing: Timing, quality: i8)
    requires
        f.can_record(timing, quality),
    ensures
        f.recorded(timing, quality).total_ticks == f.total_ticks + 1,
        timing == Timing::Early ==> f.recorded(timing, quality).early_ticks == f.early_ticks + 1
            && f.recorded(timing, quality).late_ticks == f.late_ticks
            && f.recorded(timing, quality).on_time_ticks == f.on_time_ticks,
        timing == Timing::Late ==> f.recorded(timing, quality).late_ticks == f.late_ticks + 1
            && f.recorded(timing, quality).early_ticks == f.early_ticks
            && f.recorded(timing, quality).on_time_ticks == f.on_time_ticks,
        timing == Timing::OnTime ==> f.recorded(timing, quality).on_time_ticks == f.on_time_ticks
            + 1 && f.recorded(timing, quality).early_ticks == f.early_ticks
            && f.recorded(timing, quality).late_ticks == f.late_ticks,
        quality > 0 ==> f.recorded(timing, quality).good_quality == f.good_quality + 1
            && f.recorded(timing, quality).bad_quality == f.bad_quality,
        quality < 0 ==> f.recorded(timing, quality).bad_quality == f.bad_quality + 1
            && f.recorded(timing, quality).good_quality == f.good_quality,
        quality == 0 ==> f.recorded(timing, quality).good_quality == f.good_quality
            && f.recorded(timing, quality).bad_quality == f.bad_quality,
{
}

} // verus!
