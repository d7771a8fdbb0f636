use vstd::prelude::*;
use crate::fixed::clamp;

verus! {

/// `a + b`, saturated to the range of `i32`.
pub open spec fn saturating_sum(a: int, b: int) -> int {
    clamp(a + b, i32::MIN as int, i32::MAX as int)
}

/// Raw relative motion gathered between two ticks.
#[derive(Clone, Copy, Debug, PartialEq, Eq, Structural)]
pub struct MotionBuffer {
    pub dx: i32,
    pub dy: i32,
}

fn add_saturating(a: i32, b: i32) -> (r: i32)
    ensures
        r == saturating_sum(a as int, b as int),
{
    let s = a as i64 + b as i64;
    if s < i32::MIN as i64 {
        i32::MIN
    } else if s > i32::MAX as i64 {
        i32::MAX
    } else {
        s as i32
    }
}

impl MotionBuffer {
    pub fn new() -> (r: Self)
        ensures
            r.dx == 0 && r.dy == 0,
    {
        MotionBuffer { dx: 0, dy: 0 }
    }

    /// Adds one motion sample, saturating rather than wrapping.
    pub fn record(&mut self, dx: i32, dy: i32)
        ensures
            final(self).dx == saturating_sum(old(self).dx as int, dx as int),
            final(self).dy == saturating_sum(old(self).dy as int, dy as int),
    {
        self.dx = add_saturating(self.dx, dx);
        self.dy = add_saturating(self.dy, dy);
    }

    /// Returns the motion gathered so far and clears it, so that no sample is
    /// handed out twice.
    pub fn drain(&mut self) -> (r: (i32, i32))
        ensures
            r == (old(self).dx, old(self).dy),
            final(self).dx == 0 && final(self).dy == 0,
    {
        let r = (self.dx, self.dy);
        self.dx = 0;
        self.dy = 0;
        r
    }
}

} // verus!
