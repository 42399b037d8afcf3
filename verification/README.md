# agent_groove

Groove scheduling for agent fleets, written in Verus.

- `timing`: the three beat offsets (early, on time, late).
- `groove`: cyclic timing patterns (straight, swing, shuffle) and the law that
  ticking walks round the cycle.
- `swing`: the swing scheduler; an early beat waits 85% of the base interval,
  a late one 115% (rounded down, at most `u64::MAX`).
- `pocket`: the pocket state machine (out, entering, in the pocket, deep) and
  its laws: one level per output, a bad streak falls out, a good streak from a
  fresh pocket reaches each level at a fixed count, autonomy grows with depth.
- `syncopation`: disruption points and automatic syncopation on the off-beats
  1, 4, 7, ...; `app/` turns a novelty score into the number of points.
- `polyrhythm` and `cadence`: agents at different cadences, who acts on a tick,
  and the sync point, proved to be the least common multiple of the cadences.
- `feel`: timing and quality counts, their exact ratios, and the parts of the
  feel score with its bound.

Quantities that users read as floating point (autonomy, strength, the feel
metrics) are exact integers or ratios in `src/`; `app/` turns them
into `f64`, and computes the point count from a float novelty score.
