//! Groove patterns: the micro-timing offsets of the beats in a cycle.
use vstd::prelude::*;
use crate::timing::Timing;

verus! {

/// The beat of a swing pattern at index `i`: downbeats on time, upbeats late.
pub open spec fn swing_beat(i: int) -> Timing {
    if i % 2 == 0 {
        Timing::OnTime
    } else {
        Timing::Late
    }
}

/// The beat of a shuffle pattern at index `i`, repeating early, on time, late,
/// on time.
pub open spec fn shuffle_beat(i: int) -> Timing {
    if i % 4 == 0 {
        Timing::Early
    } else if i % 4 == 2 {
        Timing::Late
    } else {
        Timing::OnTime
    }
}

/// A groove: the micro-timing offset of each beat in a cycle, and the beat
/// that plays next.
#[derive(Debug, Clone)]
pub struct Groove {
    pub pattern: Vec<Timing>,
    pub position: usize,
}

impl Groove {
    /// The next beat lies inside the pattern (or the pattern is empty).
    pub open spec fn wf(&self) -> bool {
        self.pattern@.len() == 0 || self.position < self.pattern@.len()
    }

    /// The timing that the next tick plays: on time for an empty pattern.
    pub open spec fn current(&self) -> Timing {
        if self.pattern@.len() == 0 {
            Timing::OnTime
        } else {
            self.pattern@[self.position as int]
        }
    }

    /// The position after one tick: the next beat, wrapping round the cycle.
    pub open spec fn next_position(&self) -> usize {
        if self.pattern@.len() == 0 {
            self.position
        } else {
            ((self.position + 1) % (self.pattern@.len() as int)) as usize
        }
    }

    /// The groove after `n` ticks.
    pub open spec fn ticked(self, n: nat) -> Groove
        decreases n,
    {
        if n == 0 {
            self
        } else {
            let g = self.ticked((n - 1) as nat);
            Groove { pattern: g.pattern, position: g.next_position() }
        }
    }

    /// A groove that plays `pattern` from its first beat.
    pub fn new(pattern: Vec<Timing>) -> (g: Self)
        ensures
            g.pattern@ == pattern@,
            g.position == 0,
            g.wf(),
    {
        Groove { pattern, position: 0 }
    }

    /// `len` beats, all on time.
    pub fn straight(len: usize) -> (g: Self)
        ensures
            g.pattern@ == Seq::new(len as nat, |i: int| Timing::OnTime),
            g.position == 0,
            g.wf(),
    {
        let mut p: Vec<Timing> = Vec::new();
        for i in 0..len
            invariant
                p@ == Seq::new(i as nat, |j: int| Timing::OnTime),
        {
            p.push(Timing::OnTime);
        }
        Self::new(p)
    }

    /// `len` beats of classic swing: downbeats on time, upbeats late.
    pub fn swing(len: usize) -> (g: Self)
        ensures
            g.pattern@ == Seq::new(len as nat, |i: int| swing_beat(i)),
            g.position == 0,
            g.wf(),
    {
        let mut p: Vec<Timing> = Vec::new();
        for i in 0..len
            invariant
                p@ == Seq::new(i as nat, |j: int| swing_beat(j)),
        {
            let t = if i % 2 == 0 {
                Timing::OnTime
            } else {
                Timing::Late
            };
            p.push(t);
        }
        Self::new(p)
    }

    /// `len` beats of shuffle: early, on time, late, on time, repeated.
    pub fn shuffle(len: usize) -> (g: Self)
        ensures
            g.pattern@ == Seq::new(len as nat, |i: int| shuffle_beat(i)),
            g.position == 0,
            g.wf(),
    {
        let mut p: Vec<Timing> = Vec::new();
        for i in 0..len
            invariant
                p@ == Seq::new(i as nat, |j: int| shuffle_beat(j)),
        {
            let t = match i % 4 {
                0 => Timing::Early,
                1 => Timing::OnTime,
                2 => Timing::Late,
                _ => Timing::OnTime,
            };
            p.push(t);
        }
        Self::new(p)
    }

    /// Play the next beat: its timing (on time for an empty pattern), moving
    /// on to the following beat round the cycle.
    pub fn tick(&mut self) -> (t: Timing)
        requires
            old(self).wf(),
        ensures
            t == old(self).current(),
            final(self).pattern == old(self).pattern,
            final(self).position == old(self).next_position(),
            *final(self) == old(self).ticked(1),
            final(self).wf(),
    {
        if self.pattern.len() == 0 {
            proof {
                reveal_with_fuel(Groove::ticked, 2);
            }
            return Timing::OnTime;
        }
        let t = self.pattern[self.position];
        self.position = (self.position + 1) % self.pattern.len();
        proof {
            reveal_with_fuel(Groove::ticked, 2);
        }
        t
    }

    /// Start again from the first beat.
    pub fn reset(&mut self)
        ensures
            final(self).pattern@ == old(self).pattern@,
            final(self).position == 0,
            final(self).wf(),
    {
        self.position = 0;
    }

    /// The number of beats in the cycle.
    pub fn len(&self) -> (r: usize)
        ensures
            r == self.pattern@.len(),
    {
        self.pattern.len()
    }

    /// Whether the cycle has no beats.
    pub fn is_empty(&self) -> (r: bool)
        ensures
            r == (self.pattern@.len() == 0),
    {
        self.pattern.len() == 0
    }
}

/// One step round a cycle of `len` beats from `p % len` lands on `(p + 1) % len`.
proof fn lemma_step_mod(p: int, len: int)
    requires
        len > 0,
    ensures
        ((p % len) + 1) % len == (p + 1) % len,
{
    vstd::arithmetic::div_mod::lemma_fundamental_div_mod(p, len);
    vstd::arithmetic::div_mod::lemma_mod_multiples_vanish(p / len, (p % len) + 1, len);
}

/// After `n` ticks the groove is at beat `(position + n) % len` with the same
/// pattern.
proof fn lemma_ticked_position(g: Groove, n: nat)
    requires
        g.wf(),
        0 < g.pattern@.len() <= usize::MAX,
    ensures
        g.ticked(n).pattern == g.pattern,
        g.ticked(n).position == (g.position + n) % (g.pattern@.len() as int),
    decreases n,
{
    let len = g.pattern@.len() as int;
    if n > 0 {
        lemma_ticked_position(g, (n - 1) as nat);
        lemma_step_mod(g.position + n - 1, len);
        let h = g.ticked((n - 1) as nat);
        assert(h.pattern@.len() == len);
        vstd::arithmetic::div_mod::lemma_mod_pos_bound(h.position + 1, len);
        assert(g.ticked(n).position == h.next_position());
    } else {
        vstd::arithmetic::div_mod::lemma_small_mod(g.position as nat, len as nat);
    }
}

/// Ticking moves round the cycle: the `n`-th tick from now plays
/// `pattern[(position + n) % len]`, every position reached stays inside the
/// pattern, and `len` ticks bring the groove back to where it was.
pub proof fn lemma_groove_cycles(g: Groove, n: nat)
    requires
        g.wf(),
        0 < g.pattern@.len() <= usize::MAX,
    ensures
        g.ticked(n).pattern == g.pattern,
        g.ticked(n).position == (g.position + n) % (g.pattern@.len() as int),
        g.ticked(n).wf(),
        g.ticked(n).current() == g.pattern@[(g.position + n) % (g.pattern@.len() as int)],
        g.ticked(g.pattern@.len()) == g,
{
    let len = g.pattern@.len() as int;
    lemma_ticked_position(g, n);
    lemma_ticked_position(g, len as nat);
    vstd::arithmetic::div_mod::lemma_mod_multiples_vanish(1, g.position as int, len);
    vstd::arithmetic::div_mod::lemma_small_mod(g.position as nat, len as nat);
    vstd::arithmetic::div_mod::lemma_mod_pos_bound(g.position + n, len);
}


/// Classic swing alternates: every even beat is on time and every odd beat is
/// late, so the pattern repeats every two beats.
pub proof fn lemma_swing_alternates(i: int)
    requires
        i >= 0,
    ensures
        i % 2 == 0 ==> swing_beat(i) == Timing::OnTime,
        i % 2 == 1 ==> swing_beat(i) == Timing::Late,
        swing_beat(i + 2) == swing_beat(i),
{
}

/// Shuffle repeats every four beats: early, on time, late, on time.
pub proof fn lemma_shuffle_repeats(i: int)
    requires
        i >= 0,
    ensures
        i % 4 == 0 ==> shuffle_beat(i) == Timing::Early,
        i % 4 == 1 ==> shuffle_beat(i) == Timing::OnTime,
        i % 4 == 2 ==> shuffle_beat(i) == Timing::Late,
        i % 4 == 3 ==> shuffle_beat(i) == Timing::OnTime,
        shuffle_beat(i + 4) == shuffle_beat(i),
{
}

} // verus!
