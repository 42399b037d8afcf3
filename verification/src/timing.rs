use vstd::prelude::*;

verus! {

/// Ternary timing offset of a beat: early, on time or late.
#[derive(Debug, Clone, Copy, PartialEq, Eq, Structural, Hash)]
pub enum Timing {
    Early,
    OnTime,
    Late,
}

/// The signed offset that a timing stands for: -1, 0 or +1.
pub open spec fn timing_offset(t: Timing) -> i8 {
    match t {
        Timing::Early => -1i8,
        Timing::OnTime => 0i8,
        Timing::Late => 1i8,
    }
}

impl Timing {
    /// The signed offset of this timing: Early is -1, OnTime 0, Late +1.
    pub fn to_i8(self) -> (r: i8)
        ensures
            r == timing_offset(self),
    {
        match self {
            Timing::Early => -1i8,
            Timing::OnTime => 0i8,
            Timing::Late => 1i8,
        }
    }

    /// The timing whose offset is `v`, if `v` is -1, 0 or +1.
    pub fn from_i8(v: i8) -> (r: Option<Timing>)
        ensures
            match r {
                Some(t) => timing_offset(t) == v,
                None => v != -1 && v != 0 && v != 1,
            },
    {
        match v {
            -1 => Some(Timing::Early),
            0 => Some(Timing::OnTime),
            1 => Some(Timing::Late),
            _ => None,
        }
    }
}

/// Every timing has offset -1, 0 or +1 and no two timings share an offset,
/// so `from_i8(t.to_i8())` gives back `t`.
pub proof fn lemma_timing_offset_round_trip(t: Timing)
    ensures
        timing_offset(t) == -1 || timing_offset(t) == 0 || timing_offset(t) == 1,
        forall|u: Timing| timing_offset(u) == timing_offset(t) ==> u == t,
{
}

} // verus!
