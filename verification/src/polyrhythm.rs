//! Polyrhythmic work: agents acting at different but related cadences.
use std::collections::HashMap;
use vstd::prelude::*;
use vstd::std_specs::iter::IteratorSpec;
use crate::cadence::{divides, lcm_fold, lemma_lcm_fold, lemma_divisor_bounded, num_lcm};

verus! {

broadcast use vstd::std_specs::hash::group_hash_axioms;

/// Agents at different cadences: an agent with cadence `c` acts on every tick
/// that is a multiple of `c`.
#[derive(Debug, Clone)]
pub struct PolyrhythmWork {
    /// Agent id to cadence (the agent acts once every `cadence` ticks).
    pub cadences: HashMap<u32, usize>,
    pub tick: u64,
}

/// Every cadence is `m`'s divisor, ignoring cadences of 0.
pub open spec fn is_multiple_of_nonzero(cad: Map<u32, usize>, m: int) -> bool {
    forall|id: u32| #[trigger] cad.contains_key(id) && cad[id] != 0 ==> divides(cad[id] as int, m)
}

/// `m` is a common multiple of every cadence.
pub open spec fn is_common_multiple(cad: Map<u32, usize>, m: int) -> bool {
    forall|id: u32| #[trigger] cad.contains_key(id) ==> divides(cad[id] as int, m)
}

/// `r` is the least common multiple of the cadences: a positive common
/// multiple that divides every common multiple.
pub open spec fn is_lcm_of(cad: Map<u32, usize>, r: int) -> bool {
    &&& r > 0
    &&& is_common_multiple(cad, r)
    &&& forall|m: int| #[trigger] is_common_multiple(cad, m) ==> divides(r, m)
}

/// Some agent has cadence 0.
pub open spec fn has_zero_cadence(cad: Map<u32, usize>) -> bool {
    exists|id: u32| #[trigger] cad.contains_key(id) && cad[id] == 0
}

/// Whether an agent with cadence `c` acts on tick `tick`.
pub open spec fn acts_on(tick: u64, c: usize) -> bool {
    c > 0 && ((tick as usize) as int) % (c as int) == 0
}

impl PolyrhythmWork {
    /// Every registered agent has a positive cadence.
    pub open spec fn wf(&self) -> bool {
        forall|id: u32| #[trigger] self.cadences@.contains_key(id) ==> self.cadences@[id] >= 1
    }

    /// An empty ensemble at tick 0.
    pub fn new() -> (r: Self)
        ensures
            r.cadences@ == Map::<u32, usize>::empty(),
            r.tick == 0,
            r.wf(),
    {
        PolyrhythmWork { cadences: HashMap::new(), tick: 0 }
    }

    /// Register (or re-register) agent `id` with `cadence`, raised to at
    /// least 1.
    pub fn add_agent(&mut self, id: u32, cadence: usize)
        ensures
            final(self).cadences@ == old(self).cadences@.insert(
                id,
                if cadence >= 1 { cadence } else { 1usize },
            ),
            final(self).tick == old(self).tick,
            old(self).wf() ==> final(self).wf(),
    {
        let c = if cadence >= 1 { cadence } else { 1usize };
        self.cadences.insert(id, c);
    }

    /// The agents that act on the current tick: exactly those whose cadence
    /// divides the tick, each once.
    pub fn active_agents(&self) -> (r: Vec<u32>)
        requires
            self.wf(),
        ensures
            r@.no_duplicates(),
            forall|id: u32|
                r@.contains(id) <==> (self.cadences@.contains_key(id) && acts_on(
                    self.tick,
                    self.cadences@[id],
                )),
    {
        let mut r: Vec<u32> = Vec::new();
        let t: usize = self.tick as usize;
        let ghost m = self.cadences@;
        let pairs = self.cadences.iter();
        let ghost v = pairs.remaining();
        assert(v == vstd::std_specs::hash::spec_hash_map_iter(&self.cadences).remaining());
        for pair in it: pairs
            invariant
                self.wf(),
                m == self.cadences@,
                t == self.tick as usize,
                it.seq() == v,
                v.no_duplicates(),
                forall|i: int|
                    0 <= i < v.len() ==> #[trigger] m.contains_key(*v[i].0) && m[*v[i].0] == *v[i].1,
                r@.no_duplicates(),
                forall|id: u32|
                    r@.contains(id) <==> exists|j: int|
                        0 <= j < it.index() && #[trigger] v[j].0 == id && acts_on(self.tick, *v[j].1),
        {
            let (id, c) = pair;
            let ghost k = it.index();
            assert(m.contains_key(*v[k].0));
            if t % *c == 0 {
                assert forall|j: int| 0 <= j < k implies *v[j].0 != *id by {
                    if *v[j].0 == *id {
                        assert(m.contains_key(*v[j].0));
                        assert(v[j] == v[k]);
                    }
                }
                let ghost r0 = r@;
                assert(!r0.contains(*id));
                r.push(*id);
                assert(r@ == r0.push(*id));
                assert(r@.no_duplicates()) by {
                    assert forall|a: int, b: int| 0 <= a < b < r@.len() implies r@[a] != r@[b] by {
                        if b == r@.len() - 1 {
                            assert(r0[a] == r@[a]);
                        } else {
                            assert(r0[a] == r@[a] && r0[b] == r@[b]);
                        }
                    }
                }
                assert forall|x: u32|
                    r@.contains(x) <==> exists|j: int|
                        0 <= j < k + 1 && #[trigger] v[j].0 == x && acts_on(self.tick, *v[j].1) by {
                    assert(acts_on(self.tick, *v[k].1));
                    if x == *id {
                        assert(r@[r@.len() - 1] == x);
                        assert(v[k].0 == x);
                    } else {
                        if r@.contains(x) {
                            let n = choose|n: int| 0 <= n < r@.len() && r@[n] == x;
                            assert(r0[n] == x);
                            assert(r0.contains(x));
                        }
                        if exists|j: int|
                            0 <= j < k + 1 && #[trigger] v[j].0 == x && acts_on(self.tick, *v[j].1) {
                            let j = choose|j: int|
                                0 <= j < k + 1 && #[trigger] v[j].0 == x && acts_on(self.tick, *v[j].1);
                            assert(j < k);
                            assert(r0.contains(x));
                            let n = choose|n: int| 0 <= n < r0.len() && r0[n] == x;
                            assert(r@[n] == x);
                        }
                    }
                }
            }
        }
        assert forall|id: u32|
            self.cadences@.contains_key(id) && acts_on(self.tick, self.cadences@[id])
            implies r@.contains(id) by {
            assert(v.contains((&id, &m[id])));
            let j = choose|j: int| 0 <= j < v.len() && v[j] == (&id, &m[id]);
            assert(v[j].0 == id);
        }
        r
    }

    /// The sync point: the least common multiple of all cadences, the first
    /// positive tick on which every agent acts together (1 with no agents).
    /// A cadence of 0 makes it 0. The multiple must fit in a `usize`.
    pub fn sync_point(&self) -> (r: usize)
        requires
            exists|m: int| 0 < m <= usize::MAX && is_multiple_of_nonzero(self.cadences@, m),
        ensures
            has_zero_cadence(self.cadences@) ==> r == 0,
            !has_zero_cadence(self.cadences@) ==> is_lcm_of(self.cadences@, r as int),
    {
        let ghost cad = self.cadences@;
        let ghost bound = choose|m: int| 0 < m <= usize::MAX && is_multiple_of_nonzero(cad, m);
        let values = self.cadences.values();
        let ghost v = vstd::std_specs::hash::into_iter_values(values);
        assert(v.to_set() == cad.values());
        assert forall|i: int| 0 <= i < v.len() && v[i] != 0 implies divides(#[trigger] v[i] as int, bound) by {
            assert(cad.values().contains(v[i]));
            let id = choose|id: u32| cad.contains_key(id) && cad[id] == v[i];
        }
        let mut acc: usize = 1;
        for c in it: values
            invariant
                cad == self.cadences@,
                0 < bound <= usize::MAX,
                it.seq().unref() == v,
                forall|i: int| 0 <= i < v.len() && v[i] != 0 ==> divides(#[trigger] v[i] as int, bound),
                acc == lcm_fold(v.take(it.index())),
        {
            let ghost k = it.index();
            assert(*c == v[k]);
            let ghost p = v.take(k + 1);
            assert(p.drop_last() == v.take(k));
            proof {
                lemma_lcm_fold(p, bound);
                if !p.contains(0usize) {
                    assert forall|i: int| 0 <= i < p.len() implies divides(#[trigger] p[i] as int, bound) by {
                        assert(p[i] == v[i]);
                    }
                    lemma_divisor_bounded(lcm_fold(p) as int, bound);
                }
            }
            acc = num_lcm(acc, *c);
        }
        proof {
            assert(v.take(v.len() as int) == v);
            lemma_lcm_fold(v, 0);
            if has_zero_cadence(cad) {
                let id = choose|id: u32| cad.contains_key(id) && cad[id] == 0;
                assert(cad.values().contains(0usize));
                assert(v.to_set().contains(0usize));
            } else {
                assert(!v.contains(0usize)) by {
                    if v.contains(0usize) {
                        let i = choose|i: int| 0 <= i < v.len() && v[i] == 0usize;
                        assert(v.to_set().contains(v[i]));
                        let id = choose|id: u32| cad.contains_key(id) && cad[id] == v[i];
                    }
                }
                assert forall|id: u32| #[trigger] cad.contains_key(id) implies divides(cad[id] as int, acc as int) by {
                    assert(cad.values().contains(cad[id]));
                    assert(v.to_set().contains(cad[id]));
                    let i = choose|i: int| 0 <= i < v.len() && v[i] == cad[id];
                    assert(divides(v[i] as int, acc as int));
                }
                assert forall|m: int| is_common_multiple(cad, m) implies divides(acc as int, m) by {
                    assert forall|i: int| 0 <= i < v.len() implies divides(#[trigger] v[i] as int, m) by {
                        assert(v.to_set().contains(v[i]));
                        let id = choose|id: u32| cad.contains_key(id) && cad[id] == v[i];
                    }
                    lemma_lcm_fold(v, m);
                }
            }
        }
        acc
    }

    /// The agents that act on the current tick; then the tick moves on by one.
    pub fn advance(&mut self) -> (r: Vec<u32>)
        requires
            old(self).wf(),
            old(self).tick < u64::MAX,
        ensures
            final(self).cadences@ == old(self).cadences@,
            final(self).tick == old(self).tick + 1,
            final(self).wf(),
            r@.no_duplicates(),
            forall|id: u32|
                r@.contains(id) <==> (old(self).cadences@.contains_key(id) && acts_on(
                    old(self).tick,
                    old(self).cadences@[id],
                )),
    {
        let active = self.active_agents();
        self.tick = self.tick + 1;
        active
    }

    /// Back to tick 0; the agents and their cadences stay.
    pub fn reset(&mut self)
        ensures
            final(self).cadences@ == old(self).cadences@,
            final(self).tick == 0,
    {
        self.tick = 0;
    }
}


/// Every agent acts on tick 0.
pub proof fn lemma_all_act_at_start(w: PolyrhythmWork)
    requires
        w.wf(),
    ensures
        forall|id: u32| #[trigger] w.cadences@.contains_key(id) ==> acts_on(0, w.cadences@[id]),
{
    assert forall|id: u32| #[trigger] w.cadences@.contains_key(id) implies acts_on(0, w.cadences@[id]) by {
        assert((0u64 as usize) == 0usize);
        vstd::arithmetic::div_mod::lemma_small_mod(0, w.cadences@[id] as nat);
    }
}

/// The agents all align at the sync point: on every tick that is a multiple of
/// the least common multiple of the cadences, every agent acts.
pub proof fn lemma_all_align_at_sync_point(cad: Map<u32, usize>, r: int, tick: u64)
    requires
        is_lcm_of(cad, r),
        divides(r, (tick as usize) as int),
    ensures
        forall|id: u32| #[trigger] cad.contains_key(id) ==> acts_on(tick, cad[id]),
{
    assert forall|id: u32| #[trigger] cad.contains_key(id) implies acts_on(tick, cad[id]) by {
        crate::cadence::lemma_divides_trans(cad[id] as int, r, (tick as usize) as int);
    }
}

/// The sync point is the first positive tick on which all agents act
/// together: no earlier positive tick has them all acting.
pub proof fn lemma_sync_point_is_first(cad: Map<u32, usize>, r: int, tick: u64)
    requires
        is_lcm_of(cad, r),
        (tick as usize) > 0,
        forall|id: u32| #[trigger] cad.contains_key(id) ==> acts_on(tick, cad[id]),
    ensures
        r <= (tick as usize),
{
    assert(is_common_multiple(cad, (tick as usize) as int));
    lemma_divisor_bounded(r, (tick as usize) as int);
}


/// The pattern repeats every sync point: on two ticks that differ by a
/// multiple of the sync point (taken as the `usize` ticks that the agents
/// see), exactly the same agents act.
pub proof fn lemma_pattern_repeats_at_sync_point(
    cad: Map<u32, usize>,
    r: int,
    t1: u64,
    t2: u64,
    k: nat,
)
    requires
        is_lcm_of(cad, r),
        (t2 as usize) as int == (t1 as usize) as int + k * r,
    ensures
        forall|id: u32| #[trigger] cad.contains_key(id) ==> (acts_on(t1, cad[id]) <==> acts_on(t2, cad[id])),
{
    assert forall|id: u32| #[trigger] cad.contains_key(id) implies (acts_on(t1, cad[id]) <==> acts_on(
        t2,
        cad[id],
    )) by {
        let c: int = cad[id] as int;
        let x: int = (t1 as usize) as int;
        assert(divides(r, k * r)) by {
            vstd::arithmetic::div_mod::lemma_mod_multiples_basic(k as int, r);
        }
        crate::cadence::lemma_divides_trans(c, r, k * r);
        vstd::arithmetic::div_mod::lemma_fundamental_div_mod(k * r, c);
        let j: int = (k * r) / c;
        assert(k * r == c * j);
        vstd::arithmetic::div_mod::lemma_mod_multiples_vanish(j, x, c);
    }
}

} // verus!
