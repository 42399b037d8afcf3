//! Pocket: an agent's flow state, earned by consistent good output.
use vstd::prelude::*;

verus! {

/// Whether an agent is in the flow zone, from out of it to deep in it.
#[derive(Debug, Clone, Copy, PartialEq, Eq, Structural)]
pub enum PocketState {
    /// Not in the pocket: inconsistent output.
    Out,
    /// Getting into the groove.
    Entering,
    /// Flowing: high quality, consistent timing.
    InPocket,
    /// Deep pocket: peak performance, maximum autonomy.
    Deep,
}

/// The depth of a pocket state: Out 0, Entering 1, InPocket 2, Deep 3.
pub open spec fn depth(s: PocketState) -> nat {
    match s {
        PocketState::Out => 0,
        PocketState::Entering => 1,
        PocketState::InPocket => 2,
        PocketState::Deep => 3,
    }
}

/// The autonomy granted in a state, in percent of full autonomy.
pub open spec fn autonomy_of(s: PocketState) -> u8 {
    match s {
        PocketState::Out => 20u8,
        PocketState::Entering => 50u8,
        PocketState::InPocket => 80u8,
        PocketState::Deep => 95u8,
    }
}

/// Whether a state counts as time spent in the pocket.
pub open spec fn in_pocket(s: PocketState) -> bool {
    s == PocketState::InPocket || s == PocketState::Deep
}

/// Tracks an agent's pocket state over time.
#[derive(Debug, Clone)]
pub struct Pocket {
    pub agent_id: u32,
    pub state: PocketState,
    pub consecutive_good: u32,
    pub consecutive_bad: u32,
    pub ticks_in_pocket: u64,
    pub total_pocket_time: u64,
    /// Consecutive good outputs to enter the pocket.
    pub threshold_good: u32,
    /// Consecutive good outputs to go deep.
    pub threshold_deep: u32,
    /// Consecutive bad outputs to fall out.
    pub threshold_bad: u32,
}

impl Pocket {
    /// The state after one more good output, with `good` consecutive good
    /// outputs counted so far: each good output moves up at most one level.
    pub open spec fn state_after_good(self, good: int) -> PocketState {
        match self.state {
            PocketState::Out => if good >= self.threshold_good {
                PocketState::Entering
            } else {
                PocketState::Out
            },
            PocketState::Entering => if good >= self.threshold_good + 2 {
                PocketState::InPocket
            } else {
                PocketState::Entering
            },
            PocketState::InPocket => if good >= self.threshold_deep {
                PocketState::Deep
            } else {
                PocketState::InPocket
            },
            PocketState::Deep => PocketState::Deep,
        }
    }

    /// The state after recording an output of quality `quality`
    /// (+1 good, -1 bad, anything else neutral).
    pub open spec fn state_after(self, quality: i8) -> PocketState {
        if quality == 1 {
            self.state_after_good(self.consecutive_good + 1)
        } else if quality == -1 {
            if self.consecutive_bad + 1 >= self.threshold_bad {
                PocketState::Out
            } else {
                self.state
            }
        } else {
            self.state
        }
    }

    /// The whole pocket after recording an output of quality `quality`.
    pub open spec fn recorded(self, quality: i8) -> Pocket {
        let s = self.state_after(quality);
        let (good, bad) = if quality == 1 {
            ((self.consecutive_good + 1) as u32, 0u32)
        } else if quality == -1 {
            (0u32, (self.consecutive_bad + 1) as u32)
        } else {
            (self.consecutive_good, 0u32)
        };
        Pocket {
            state: s,
            consecutive_good: good,
            consecutive_bad: bad,
            ticks_in_pocket: if in_pocket(s) {
                (self.ticks_in_pocket + 1) as u64
            } else {
                self.ticks_in_pocket
            },
            total_pocket_time: if in_pocket(s) {
                (self.total_pocket_time + 1) as u64
            } else {
                self.total_pocket_time
            },
            ..self
        }
    }

    /// Recording `quality` overflows none of the counters.
    pub open spec fn can_record(self, quality: i8) -> bool {
        &&& quality == 1 ==> self.consecutive_good < u32::MAX
        &&& (quality == 1 && self.state == PocketState::Entering) ==> self.threshold_good + 2
            <= u32::MAX
        &&& quality == -1 ==> self.consecutive_bad < u32::MAX
        &&& in_pocket(self.state_after(quality)) ==> self.ticks_in_pocket < u64::MAX
            && self.total_pocket_time < u64::MAX
    }

    /// A fresh pocket for `agent_id`: out of the pocket, no history, with
    /// thresholds 3 (enter), 8 (deep) and 2 (fall out).
    pub open spec fn fresh(agent_id: u32) -> Pocket {
        Pocket {
            agent_id,
            state: PocketState::Out,
            consecutive_good: 0,
            consecutive_bad: 0,
            ticks_in_pocket: 0,
            total_pocket_time: 0,
            threshold_good: 3,
            threshold_deep: 8,
            threshold_bad: 2,
        }
    }

    /// The pocket after recording `n` outputs of the same quality.
    pub open spec fn recorded_times(self, quality: i8, n: nat) -> Pocket
        decreases n,
    {
        if n == 0 {
            self
        } else {
            self.recorded_times(quality, (n - 1) as nat).recorded(quality)
        }
    }

    /// A fresh pocket for `agent_id`: out of the pocket, no history, with
    /// thresholds 3 (enter), 8 (deep) and 2 (fall out).
    pub fn new(agent_id: u32) -> (p: Self)
        ensures
            p == Pocket::fresh(agent_id),
    {
        Pocket {
            agent_id,
            state: PocketState::Out,
            consecutive_good: 0,
            consecutive_bad: 0,
            ticks_in_pocket: 0,
            total_pocket_time: 0,
            threshold_good: 3,
            threshold_deep: 8,
            threshold_bad: 2,
        }
    }

    /// Record an output quality: +1 good, -1 bad, anything else neutral.
    pub fn record(&mut self, quality: i8)
        requires
            old(self).can_record(quality),
        ensures
            *final(self) == old(self).recorded(quality),
    {
        if quality == 1 {
            self.consecutive_good = self.consecutive_good + 1;
            self.consecutive_bad = 0;
            match self.state {
                PocketState::Out => {
                    if self.consecutive_good >= self.threshold_good {
                        self.state = PocketState::Entering;
                    }
                },
                PocketState::Entering => {
                    if self.consecutive_good >= self.threshold_good + 2 {
                        self.state = PocketState::InPocket;
                    }
                },
                PocketState::InPocket => {
                    if self.consecutive_good >= self.threshold_deep {
                        self.state = PocketState::Deep;
                    }
                },
                PocketState::Deep => {},
            }
        } else if quality == -1 {
            self.consecutive_bad = self.consecutive_bad + 1;
            self.consecutive_good = 0;
            if self.consecutive_bad >= self.threshold_bad {
                self.state = PocketState::Out;
            }
        } else {
            self.consecutive_bad = 0;
        }
        if self.state == PocketState::InPocket || self.state == PocketState::Deep {
            self.ticks_in_pocket = self.ticks_in_pocket + 1;
            self.total_pocket_time = self.total_pocket_time + 1;
        }
    }

    /// How much autonomy the agent has earned, in percent: 20 out of the
    /// pocket, 50 entering, 80 in the pocket, 95 deep.
    pub fn autonomy_percent(&self) -> (r: u8)
        ensures
            r == autonomy_of(self.state),
    {
        match self.state {
            PocketState::Out => 20,
            PocketState::Entering => 50,
            PocketState::InPocket => 80,
            PocketState::Deep => 95,
        }
    }

    /// Fall back out of the pocket and forget the current streaks and the
    /// current stay; the total pocket time, the thresholds and the agent stay.
    pub fn reset(&mut self)
        ensures
            *final(self) == (Pocket {
                state: PocketState::Out,
                consecutive_good: 0,
                consecutive_bad: 0,
                ticks_in_pocket: 0,
                ..*old(self)
            }),
    {
        self.state = PocketState::Out;
        self.consecutive_good = 0;
        self.consecutive_bad = 0;
        self.ticks_in_pocket = 0;
    }
}


/// The state reached from a fresh pocket after `n` good outputs in a row:
/// out below 3, entering from 3, in the pocket from 5, deep from 8.
pub open spec fn good_streak_state(n: nat) -> PocketState {
    if n < 3 {
        PocketState::Out
    } else if n < 5 {
        PocketState::Entering
    } else if n < 8 {
        PocketState::InPocket
    } else {
        PocketState::Deep
    }
}

/// The pocket is found, not granted: one output moves the state up by at most
/// one level; a good output never lowers it, a bad one never raises it, and a
/// neutral one leaves it.
pub proof fn lemma_one_level_at_a_time(p: Pocket, quality: i8)
    ensures
        depth(p.recorded(quality).state) <= depth(p.state) + 1,
        quality == 1 ==> depth(p.recorded(quality).state) >= depth(p.state),
        quality == -1 ==> depth(p.recorded(quality).state) <= depth(p.state),
        quality != 1 && quality != -1 ==> p.recorded(quality).state == p.state,
{
}

/// A run of bad outputs as long as the fall-out threshold (and at least one)
/// puts the agent out of the pocket, whatever its state before.
pub proof fn lemma_bad_streak_falls_out(p: Pocket, n: nat)
    requires
        n >= 1,
        n >= p.threshold_bad,
        p.consecutive_bad + n <= u32::MAX,
    ensures
        p.recorded_times(-1i8, n).state == PocketState::Out,
        p.recorded_times(-1i8, n).consecutive_bad == p.consecutive_bad + n,
        p.recorded_times(-1i8, n).consecutive_good == 0,
    decreases n,
{
    lemma_bad_count(p, (n - 1) as nat);
}

proof fn lemma_bad_count(p: Pocket, n: nat)
    requires
        p.consecutive_bad + n <= u32::MAX,
    ensures
        p.recorded_times(-1i8, n).consecutive_bad == p.consecutive_bad + n,
        p.recorded_times(-1i8, n).threshold_bad == p.threshold_bad,
        n >= 1 ==> p.recorded_times(-1i8, n).consecutive_good == 0,
    decreases n,
{
    if n > 0 {
        lemma_bad_count(p, (n - 1) as nat);
    }
}

/// From a fresh pocket, `n` good outputs in a row reach `good_streak_state(n)`,
/// with `n` consecutive good outputs and `n - 4` ticks spent in the pocket
/// (none before the fifth).
pub proof fn lemma_good_streak_from_fresh(agent_id: u32, n: nat)
    requires
        n <= u32::MAX,
    ensures
        Pocket::fresh(agent_id).recorded_times(1i8, n).state == good_streak_state(n),
        Pocket::fresh(agent_id).recorded_times(1i8, n).consecutive_good == n,
        Pocket::fresh(agent_id).recorded_times(1i8, n).consecutive_bad == 0,
        Pocket::fresh(agent_id).recorded_times(1i8, n).ticks_in_pocket == (if n >= 5 {
            n - 4
        } else {
            0
        }),
        Pocket::fresh(agent_id).recorded_times(1i8, n).total_pocket_time == (if n >= 5 {
            n - 4
        } else {
            0
        }),
    decreases n,
{
    if n > 0 {
        lemma_good_streak_from_fresh(agent_id, (n - 1) as nat);
        let q = Pocket::fresh(agent_id).recorded_times(1i8, (n - 1) as nat);
        assert(q.threshold_good == 3 && q.threshold_deep == 8) by {
            lemma_thresholds_kept(Pocket::fresh(agent_id), 1i8, (n - 1) as nat);
        }
    }
}

/// Recording outputs never changes the agent or the thresholds.
pub proof fn lemma_thresholds_kept(p: Pocket, quality: i8, n: nat)
    ensures
        p.recorded_times(quality, n).agent_id == p.agent_id,
        p.recorded_times(quality, n).threshold_good == p.threshold_good,
        p.recorded_times(quality, n).threshold_deep == p.threshold_deep,
        p.recorded_times(quality, n).threshold_bad == p.threshold_bad,
    decreases n,
{
    if n > 0 {
        lemma_thresholds_kept(p, quality, (n - 1) as nat);
    }
}

/// Autonomy grows strictly with pocket depth.
pub proof fn lemma_autonomy_grows_with_depth(a: PocketState, b: PocketState)
    ensures
        depth(a) < depth(b) ==> autonomy_of(a) < autonomy_of(b),
        depth(a) == depth(b) ==> a == b,
{
}


/// Streaks are consecutive: a good output ends any bad streak and extends the
/// good one by one; a bad output ends any good streak and extends the bad one
/// by one; a neutral output ends the bad streak and keeps the good one.
pub proof fn lemma_streaks_are_consecutive(p: Pocket, quality: i8)
    requires
        p.can_record(quality),
    ensures
        quality == 1 ==> p.recorded(quality).consecutive_bad == 0
            && p.recorded(quality).consecutive_good == p.consecutive_good + 1,
        quality == -1 ==> p.recorded(quality).consecutive_good == 0
            && p.recorded(quality).consecutive_bad == p.consecutive_bad + 1,
        quality != 1 && quality != -1 ==> p.recorded(quality).consecutive_bad == 0
            && p.recorded(quality).consecutive_good == p.consecutive_good,
{
}

/// An agent in the pocket falls out only on a bad output that completes a run
/// of `threshold_bad` bad outputs in a row, and such an output always puts it
/// out; a good output in between starts the count again.
pub proof fn lemma_falls_out_only_on_bad_run(p: Pocket, quality: i8)
    requires
        p.can_record(quality),
    ensures
        p.state != PocketState::Out && p.recorded(quality).state == PocketState::Out
            ==> quality == -1 && p.consecutive_bad + 1 >= p.threshold_bad,
        quality == -1 && p.consecutive_bad + 1 >= p.threshold_bad
            ==> p.recorded(quality).state == PocketState::Out,
        quality == 1 ==> p.recorded(quality).recorded(-1i8).consecutive_bad == 1,
{
}

/// Time in the pocket is counted exactly for the outputs after which the agent
/// is in the pocket or deep in it.
pub proof fn lemma_pocket_time_counts_pocket_outputs(p: Pocket, quality: i8)
    requires
        p.can_record(quality),
    ensures
        in_pocket(p.recorded(quality).state) ==> p.recorded(quality).ticks_in_pocket
            == p.ticks_in_pocket + 1 && p.recorded(quality).total_pocket_time
            == p.total_pocket_time + 1,
        !in_pocket(p.recorded(quality).state) ==> p.recorded(quality).ticks_in_pocket
            == p.ticks_in_pocket && p.recorded(quality).total_pocket_time == p.total_pocket_time,
{
}

} // verus!
