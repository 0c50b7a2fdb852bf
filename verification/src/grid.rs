//! Snap resolution shared by the pitched and drum pattern editors.
//!
//! Snapping floors to the grid: a click between two grid lines lands on
//! the earlier one.

use vstd::prelude::*;

use crate::time::{MusicalTime, PPQ};

verus! {

/// Editor-local snap resolution.
#[derive(Clone, Copy, Debug, PartialEq, Eq, Hash, Structural)]
pub struct GridSpec {
    /// `4` = quarter, `8` = eighth, `16` = sixteenth, `32` = thirty-second.
    /// Zero is treated as one.
    pub subdivision: u32,
    /// Each subdivision is a triplet: two thirds of the straight step.
    pub triplet: bool,
}

/// Tick length of one snap step: `(PPQ * 4) / subdivision` (zero read as
/// one), times 2/3 (floored) for triplets, and never below one tick.
pub open spec fn spec_step_ticks(g: GridSpec) -> int {
    let denom: int = if g.subdivision >= 1 { g.subdivision as int } else { 1 };
    let straight: int = (PPQ as int * 4) / denom;
    let scaled: int = if g.triplet { (straight * 2) / 3 } else { straight };
    if scaled >= 1 { scaled } else { 1 }
}

/// `t` floored to a multiple of `step`; non-positive times snap to 0.
pub open spec fn spec_snap(t: int, step: int) -> int {
    if t <= 0 { 0 } else { (t / step) * step }
}

impl GridSpec {
    /// Straight sixteenth notes, the editors' default.
    pub fn straight_sixteenth() -> (r: GridSpec)
        ensures
            r.subdivision == 16,
            !r.triplet,
    {
        GridSpec { subdivision: 16, triplet: false }
    }

    /// Tick length of one snap step; at least one tick, so callers can
    /// divide by it.
    pub fn step_ticks(self) -> (r: i64)
        ensures
            r == spec_step_ticks(self),
            1 <= r <= PPQ * 4,
    {
        let denom: i64 = if self.subdivision >= 1 { self.subdivision as i64 } else { 1 };
        let straight: i64 = (PPQ * 4) / denom;
        assert(0 <= straight <= PPQ * 4) by (nonlinear_arith)
            requires denom >= 1, straight as int == (3840int) / (denom as int);
        let scaled: i64 = if self.triplet { (straight * 2) / 3 } else { straight };
        if scaled >= 1 { scaled } else { 1 }
    }
}

impl Default for GridSpec {
    fn default() -> (r: GridSpec)
        ensures
            r.subdivision == 16,
            !r.triplet,
    {
        GridSpec::straight_sixteenth()
    }
}

/// Snaps `time` down to the grid; times at or before zero snap to zero.
pub fn snap_time_to_grid(time: MusicalTime, grid: GridSpec) -> (r: MusicalTime)
    ensures
        r.0 == spec_snap(time.0 as int, spec_step_ticks(grid)),
{
    let step = grid.step_ticks();
    let ticks = time.as_ticks();
    if ticks <= 0 {
        return MusicalTime::zero();
    }
    let q = ticks / step;
    assert(0 <= q * step <= ticks) by (nonlinear_arith)
        requires step >= 1, ticks > 0, q as int == (ticks as int) / (step as int);
    MusicalTime::ticks(q * step)
}

/// A snapped time is a non-negative multiple of the step, never later
/// than the time itself (when that is positive), and less than one step
/// earlier.
pub proof fn lemma_snap_bounds(t: int, step: int)
    requires
        step >= 1,
    ensures
        0 <= spec_snap(t, step),
        spec_snap(t, step) % step == 0,
        t > 0 ==> spec_snap(t, step) <= t < spec_snap(t, step) + step,
        t <= 0 ==> spec_snap(t, step) == 0,
{
    if t > 0 {
        let q = t / step;
        assert(0 <= q * step <= t < q * step + step) by (nonlinear_arith)
            requires step >= 1, t > 0, q == t / step;
        assert((q * step) % step == 0) by (nonlinear_arith)
            requires step >= 1, q >= 0;
    }
}

/// Snapping twice is snapping once.
pub proof fn lemma_snap_idempotent(t: int, step: int)
    requires
        step >= 1,
    ensures
        spec_snap(spec_snap(t, step), step) == spec_snap(t, step),
{
    if t > 0 {
        let q = t / step;
        assert(q >= 0) by (nonlinear_arith)
            requires step >= 1, t > 0, q == t / step;
        if q > 0 {
            assert((q * step) / step == q) by (nonlinear_arith)
                requires step >= 1, q > 0;
            assert(q * step > 0) by (nonlinear_arith)
                requires step >= 1, q > 0;
            assert(spec_snap(t, step) == q * step);
            assert(spec_snap(q * step, step) == ((q * step) / step) * step);
        } else {
            assert(spec_snap(t, step) == 0 * step);
        }
    }
}

} // verus!
