use vstd::prelude::*;
use crate::fixed::{clamp, ONE};

verus! {

/// Raw motion `d` as a fraction of the screen extent, in fixed point,
/// rounded toward zero.
pub open spec fn scaled_delta(d: int, extent: int) -> int {
    if d >= 0 {
        d * ONE / extent
    } else {
        -((-d) * ONE / extent)
    }
}

/// The position after one tick: zero on a disabled tick, else the old
/// position moved by the scaled motion and held to `[-ONE, ONE]`.
pub open spec fn advance_spec(position: int, d: int, extent: int, disabled: bool) -> int {
    if disabled {
        0
    } else {
        clamp(position + scaled_delta(d, extent), -ONE, ONE as int)
    }
}

/// The position after a run of ticks, each a raw motion and whether the axis
/// was disabled on that tick.
pub open spec fn run(position: int, ticks: Seq<(i32, bool)>, extent: int) -> int
    decreases ticks.len(),
{
    if ticks.len() == 0 {
        position
    } else {
        let t = ticks.last();
        advance_spec(run(position, ticks.drop_last(), extent), t.0 as int, extent, t.1)
    }
}

proof fn lemma_div_le(a: int, b: int)
    requires
        a >= 0,
        b >= 1,
    ensures
        0 <= a / b <= a,
{
    assert(0 <= a / b <= a) by (nonlinear_arith)
        requires
            a >= 0,
            b >= 1,
    ;
}

/// Integrates raw motion of one axis into a position in `[-ONE, ONE]`.
#[derive(Clone, Copy, Debug, PartialEq, Eq, Structural)]
pub struct AxisAccumulator {
    pub position: i32,
}

impl AxisAccumulator {
    pub open spec fn wf(&self) -> bool {
        -ONE <= self.position <= ONE
    }

    pub fn new() -> (r: Self)
        ensures
            r.position == 0,
            r.wf(),
    {
        AxisAccumulator { position: 0 }
    }

    /// Moves the position by `raw_delta / screen_extent`, saturating at
    /// `-ONE` and `ONE`; on a disabled tick the position resets to zero
    /// whatever the motion. Returns the new position.
    pub fn advance(&mut self, raw_delta: i32, screen_extent: i32, disabled: bool) -> (r: i32)
        requires
            screen_extent > 0,
        ensures
            r == advance_spec(old(self).position as int, raw_delta as int, screen_extent as int, disabled),
            final(self).position == r,
            final(self).wf(),
    {
        if disabled {
            self.position = 0;
            return 0;
        }
        let one = ONE as u64;
        let ext = screen_extent as u64;
        let scaled: i64 = if raw_delta >= 0 {
            let m = raw_delta as u64;
            proof {
                lemma_div_le((m * one) as int, ext as int);
            }
            ((m * one) / ext) as i64
        } else {
            let m = (-(raw_delta as i64)) as u64;
            proof {
                lemma_div_le((m * one) as int, ext as int);
            }
            -(((m * one) / ext) as i64)
        };
        let sum = self.position as i64 + scaled;
        let next: i32 = if sum < -(ONE as i64) {
            -ONE
        } else if sum > ONE as i64 {
            ONE
        } else {
            sum as i32
        };
        self.position = next;
        next
    }
}

/// However large the motion, and from any starting point, a run of ticks
/// keeps the position within `[-ONE, ONE]`.
pub proof fn lemma_run_in_range(position: int, ticks: Seq<(i32, bool)>, extent: int)
    requires
        extent > 0,
        -ONE <= position <= ONE,
    ensures
        -ONE <= run(position, ticks, extent) <= ONE,
    decreases ticks.len(),
{
    if ticks.len() > 0 {
        lemma_run_in_range(position, ticks.drop_last(), extent);
    }
}

/// On every tick on which the axis is disabled the position is zero,
/// whatever it had accumulated before.
pub proof fn lemma_disabled_resets(position: int, ticks: Seq<(i32, bool)>, extent: int, k: int)
    requires
        0 < k <= ticks.len(),
        ticks[k - 1].1,
    ensures
        run(position, ticks.take(k), extent) == 0,
{
    assert(ticks.take(k).last() == ticks[k - 1]);
}

} // verus!
