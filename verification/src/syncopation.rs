//! Syncopation: productive disruption of an established pattern.
use vstd::prelude::*;
use crate::timing::Timing;

verus! {

/// How many off-beat disruption points are placed when `requested` are asked
/// for in a pattern of `len` beats: no more than the off-beats `3 i + 1` that
/// lie inside the pattern, of which there are `(len + 1) / 3`.
pub open spec fn point_count(requested: usize, len: usize) -> nat {
    let inside: int = (len + 1) / 3;
    if requested < inside {
        requested as nat
    } else {
        inside as nat
    }
}

/// The `i`-th automatic disruption point: the off-beat `3 i + 1`.
pub open spec fn off_beat(i: int) -> usize {
    (i * 3 + 1) as usize
}

/// Disrupts chosen beats of a pattern of `pattern_length` beats.
#[derive(Debug, Clone)]
pub struct Syncopator {
    pub pattern_length: usize,
    /// The beats to syncopate.
    pub disruption_points: Vec<usize>,
    /// How strongly to disrupt, in thousandths: 0 none, 1000 maximum.
    pub strength_permille: u16,
}

impl Syncopator {
    /// A syncopator for patterns of `pattern_length` beats with no disruption
    /// points yet, its strength clamped to 0..=1000 thousandths.
    pub fn new(pattern_length: usize, strength_permille: i32) -> (s: Self)
        ensures
            s.pattern_length == pattern_length,
            s.disruption_points@ == Seq::<usize>::empty(),
            s.strength_permille == (if strength_permille < 0 {
                0
            } else if strength_permille > 1000 {
                1000
            } else {
                strength_permille
            }),
    {
        let strength: u16 = if strength_permille < 0 {
            0
        } else if strength_permille > 1000 {
            1000
        } else {
            strength_permille as u16
        };
        Syncopator { pattern_length, disruption_points: Vec::new(), strength_permille: strength }
    }

    /// Add `beat` as a disruption point if it lies inside the pattern.
    pub fn add_point(&mut self, beat: usize)
        ensures
            final(self).pattern_length == old(self).pattern_length,
            final(self).strength_permille == old(self).strength_permille,
            final(self).disruption_points@ == if beat < old(self).pattern_length {
                old(self).disruption_points@.push(beat)
            } else {
                old(self).disruption_points@
            },
    {
        if beat < self.pattern_length {
            self.disruption_points.push(beat);
        }
    }

    /// Replace the disruption points by the first `num_points` off-beats
    /// 1, 4, 7, ... of the pattern, keeping only off-beats inside it. The
    /// number of points asked for is what a novelty score calls for:
    /// `ceil((1 - novelty) * len / 3)`, more for a staler pattern.
    pub fn auto_syncopate(&mut self, num_points: usize)
        ensures
            final(self).pattern_length == old(self).pattern_length,
            final(self).strength_permille == old(self).strength_permille,
            final(self).disruption_points@ == Seq::new(
                point_count(num_points, old(self).pattern_length),
                |i: int| off_beat(i),
            ),
            forall|i: int|
                0 <= i < final(self).disruption_points@.len()
                    ==> #[trigger] final(self).disruption_points@[i] < final(self).pattern_length,
    {
        let ghost strength = self.strength_permille;
        self.disruption_points.clear();
        let len = self.pattern_length;
        let inside: usize = (len / 3) + (if len % 3 == 2 { 1usize } else { 0usize });
        assert(inside == (len + 1) / 3);
        let count: usize = if num_points < inside {
            num_points
        } else {
            inside
        };
        for i in 0..count
            invariant
                count == point_count(num_points, len),
                count <= (len + 1) / 3,
                self.pattern_length == len,
                self.strength_permille == strength,
                self.disruption_points@ == Seq::new(i as nat, |j: int| off_beat(j)),
        {
            assert(3 * i + 1 < len);
            self.disruption_points.push(i * 3 + 1);
        }
    }

    /// Whether `beat` (taken round the pattern) is a disruption point.
    pub fn is_syncopated(&self, beat: usize) -> (r: bool)
        requires
            self.pattern_length > 0,
        ensures
            r == self.disruption_points@.contains((beat % self.pattern_length) as usize),
    {
        let b = beat % self.pattern_length;
        let n = self.disruption_points.len();
        for i in 0..n
            invariant
                n == self.disruption_points@.len(),
                b == beat % self.pattern_length,
                forall|j: int| 0 <= j < i ==> self.disruption_points@[j] != b,
        {
            if self.disruption_points[i] == b {
                return true;
            }
        }
        false
    }

    /// The timing of `beat`: a syncopated beat is pushed late on even beats
    /// and pulled early on odd ones; any other beat is on time.
    pub fn apply(&self, beat: usize) -> (t: Timing)
        requires
            self.pattern_length > 0,
        ensures
            t == if self.disruption_points@.contains((beat % self.pattern_length) as usize) {
                if beat % 2 == 0 {
                    Timing::Late
                } else {
                    Timing::Early
                }
            } else {
                Timing::OnTime
            },
    {
        if self.is_syncopated(beat) {
            if beat % 2 == 0 {
                Timing::Late
            } else {
                Timing::Early
            }
        } else {
            Timing::OnTime
        }
    }
}

/// Asking for more disruption points never takes one away: the points placed
/// for fewer are the first of those placed for more, all on the off-beats
/// `3 i + 1` in increasing order and inside the pattern.
pub proof fn lemma_more_points_extend(n1: usize, n2: usize, len: usize)
    requires
        n1 <= n2,
    ensures
        point_count(n1, len) <= point_count(n2, len) <= (len + 1) / 3,
        Seq::new(point_count(n1, len), |i: int| off_beat(i)) == Seq::new(
            point_count(n2, len),
            |i: int| off_beat(i),
        ).take(point_count(n1, len) as int),
        forall|i: int, j: int|
            0 <= i < j < point_count(n2, len) ==> #[trigger] off_beat(i) < #[trigger] off_beat(j),
        forall|i: int|
            0 <= i < point_count(n2, len) ==> #[trigger] off_beat(i) < len && off_beat(i) % 3 == 1,
{
    assert(Seq::new(point_count(n1, len), |i: int| off_beat(i)) =~= Seq::new(
        point_count(n2, len),
        |i: int| off_beat(i),
    ).take(point_count(n1, len) as int));
}


/// Exactly the requested number of points is placed while they fit: the count
/// never exceeds the request, every placed off-beat lies inside the pattern,
/// and fewer are placed only when the next off-beat would fall outside it.
pub proof fn lemma_places_requested_points(requested: usize, len: usize)
    ensures
        point_count(requested, len) <= requested,
        point_count(requested, len) > 0 ==> 3 * (point_count(requested, len) - 1) + 1 < len,
        point_count(requested, len) < requested ==> 3 * point_count(requested, len) + 1 >= len,
        3 * requested <= len + 1 ==> point_count(requested, len) == requested,
{
}

} // verus!
