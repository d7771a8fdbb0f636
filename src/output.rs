use vstd::prelude::*;
use vstd::arithmetic::div_mod::lemma_div_is_ordered;
use crate::fixed::{clamp, ONE};

verus! {

/// The thumb-stick value of a processed value: `[0, ONE]` scales onto
/// `[0, 32767]` and `[-ONE, 0]` onto `[-32768, 0]`, each rounded toward
/// zero; a value outside `[-ONE, ONE]` saturates.
pub open spec fn thumb_spec(v: int) -> int {
    let c = clamp(v, -ONE, ONE as int);
    if c >= 0 {
        c * 32767 / (ONE as int)
    } else {
        -((-c) * 32768 / (ONE as int))
    }
}

/// The trigger value of a magnitude: `[0, ONE]` scales onto `[0, 255]`,
/// rounded down; a value outside `[0, ONE]` saturates.
pub open spec fn trigger_spec(v: int) -> int {
    clamp(v, 0, ONE as int) * 255 / (ONE as int)
}

/// The two magnitudes of a signed value: the first is that of a negative
/// value, the second that of a positive one; at most one is nonzero.
pub open spec fn split_spec(v: int) -> (int, int) {
    if v <= 0 {
        (-v, 0)
    } else {
        (0, v)
    }
}

/// The signed 16-bit stick value of a processed value.
pub fn to_thumb_val(v: i32) -> (r: i16)
    ensures
        r == thumb_spec(v as int),
{
    let one = ONE as i64;
    let c: i64 = if (v as i64) < -one {
        -one
    } else if (v as i64) > one {
        one
    } else {
        v as i64
    };
    if c >= 0 {
        let m = c as u64;
        assert(m * 32767 / (ONE as int) <= 32767) by (nonlinear_arith)
            requires
                m <= ONE,
                ONE == 1_000_000,
        ;
        ((m * 32767) / (one as u64)) as i16
    } else {
        let m = (-c) as u64;
        assert(m * 32768 / (ONE as int) <= 32768) by (nonlinear_arith)
            requires
                m <= ONE,
                ONE == 1_000_000,
        ;
        (-(((m * 32768) / (one as u64)) as i64)) as i16
    }
}

/// The unsigned 8-bit trigger value of a non-negative magnitude.
pub fn to_trigger_val(v: i32) -> (r: u8)
    ensures
        r == trigger_spec(v as int),
{
    let c: i32 = if v < 0 {
        0
    } else if v > ONE {
        ONE
    } else {
        v
    };
    let m = c as u64;
    assert(m * 255 / (ONE as int) <= 255) by (nonlinear_arith)
        requires
            m <= ONE,
            ONE == 1_000_000,
    ;
    ((m * 255) / (ONE as u64)) as u8
}

/// Splits a processed value into the magnitude of its negative side and that
/// of its positive side: left and right for steering, brake and throttle for
/// the triggers.
pub fn split_magnitudes(v: i32) -> (r: (i32, i32))
    requires
        -ONE <= v <= ONE,
    ensures
        (r.0 as int, r.1 as int) == split_spec(v as int),
        r.0 >= 0 && r.1 >= 0,
        r.0 == 0 || r.1 == 0,
{
    if v <= 0 {
        (-v, 0)
    } else {
        (0, v)
    }
}

/// Both output mappings are monotonic, and they meet their endpoints exactly:
/// `-ONE`, `0` and `ONE` give `-32768`, `0` and `32767` on the stick, and `0`
/// and `ONE` give `0` and `255` on a trigger.
pub proof fn lemma_output_monotonic(a: int, b: int)
    requires
        a <= b,
    ensures
        thumb_spec(a) <= thumb_spec(b),
        trigger_spec(a) <= trigger_spec(b),
        thumb_spec(-ONE) == -32768,
        thumb_spec(0) == 0,
        thumb_spec(ONE as int) == 32767,
        trigger_spec(0) == 0,
        trigger_spec(ONE as int) == 255,
{
    let one = ONE as int;
    let ca = clamp(a, -one, one);
    let cb = clamp(b, -one, one);
    if ca >= 0 {
        lemma_div_is_ordered(ca * 32767, cb * 32767, one);
    } else if cb < 0 {
        lemma_div_is_ordered((-cb) * 32768, (-ca) * 32768, one);
    } else {
        lemma_div_is_ordered(0, cb * 32767, one);
        lemma_div_is_ordered(0, (-ca) * 32768, one);
    }
    let ta = clamp(a, 0, one);
    let tb = clamp(b, 0, one);
    lemma_div_is_ordered(ta * 255, tb * 255, one);
    assert(one * 32768 / one == 32768);
    assert(one * 32767 / one == 32767);
    assert(one * 255 / one == 255);
}

} // verus!
