use vstd::prelude::*;
use vstd::arithmetic::div_mod::lemma_div_is_ordered;
use crate::config::{AxisConfig, Curve};
use crate::fixed::{ceil_div, clamp, lemma_ceil_div_le, lemma_ceil_div_sign, ONE};

verus! {

/// A magnitude above the deadzone `dz`, stretched so that `ONE` still maps to
/// `ONE`: `(m - dz) / (1 - dz)`, rounded up.
pub open spec fn rescale(m: int, dz: int) -> int {
    ceil_div((m - dz) * ONE, ONE - dz)
}

/// `m ^ n` in fixed point, each product rounded up.
pub open spec fn power(m: int, n: nat) -> int
    decreases n,
{
    if n == 0 {
        ONE as int
    } else {
        ceil_div(power(m, (n - 1) as nat) * m, ONE as int)
    }
}

/// The response curve applied to a magnitude.
pub open spec fn shape(m: int, curve: Curve) -> int {
    match curve {
        Curve::Linear => m,
        Curve::Power { exponent } => power(m, exponent as nat),
    }
}

/// The processed magnitude of a non-negative position magnitude `m`: zero
/// within the deadzone, else rescaled, shaped, scaled by the sensitivity
/// (rounded up) and capped at `ONE`.
pub open spec fn magnitude(m: int, c: AxisConfig) -> int {
    if m <= c.deadzone {
        0
    } else {
        let scaled = ceil_div(shape(rescale(m, c.deadzone as int), c.curve) * c.sensitivity, ONE as int);
        if scaled > ONE { ONE as int } else { scaled }
    }
}

/// The processed value of a position: the position is held to `[-ONE, ONE]`,
/// its magnitude processed, and its sign put back.
pub open spec fn process_spec(p: int, c: AxisConfig) -> int {
    let q = clamp(p, -ONE, ONE as int);
    if q >= 0 {
        magnitude(q, c)
    } else {
        -magnitude(-q, c)
    }
}

proof fn lemma_power_bounds(m: int, n: nat)
    requires
        1 <= m <= ONE,
    ensures
        1 <= power(m, n) <= ONE,
    decreases n,
{
    if n > 0 {
        let prev = power(m, (n - 1) as nat);
        lemma_power_bounds(m, (n - 1) as nat);
        assert(1 <= prev * m <= ONE * ONE) by (nonlinear_arith)
            requires
                1 <= prev <= ONE,
                1 <= m <= ONE,
        ;
        lemma_ceil_div_le(prev * m, ONE as int, ONE as int);
        lemma_ceil_div_sign(prev * m, ONE as int);
    }
}

proof fn lemma_rescale_bounds(m: int, dz: int)
    requires
        0 <= dz < m <= ONE,
    ensures
        1 <= rescale(m, dz) <= ONE,
{
    let num = (m - dz) * ONE;
    let one = ONE as int;
    assert(1 <= (m - dz) * one <= (one - dz) * one) by (nonlinear_arith)
        requires
            dz < m <= one,
            one > 0,
    ;
    lemma_ceil_div_le(num, ONE - dz, ONE as int);
    lemma_ceil_div_sign(num, ONE - dz);
}

proof fn lemma_shape_bounds(r: int, c: AxisConfig)
    requires
        c.wf(),
        1 <= r <= ONE,
    ensures
        1 <= shape(r, c.curve) <= ONE,
{
    match c.curve {
        Curve::Linear => {},
        Curve::Power { exponent } => {
            lemma_power_bounds(r, exponent as nat);
        },
    }
}

/// Bounds of the processed magnitude, and when it is zero.
proof fn lemma_magnitude_bounds(m: int, c: AxisConfig)
    requires
        c.wf(),
        0 <= m <= ONE,
    ensures
        0 <= magnitude(m, c) <= ONE,
        magnitude(m, c) == 0 <==> m <= c.deadzone,
{
    let dz = c.deadzone as int;
    if m > dz {
        lemma_rescale_bounds(m, dz);
        let s = shape(rescale(m, dz), c.curve);
        lemma_shape_bounds(rescale(m, dz), c);
        assert(s * c.sensitivity >= 1) by (nonlinear_arith)
            requires
                s >= 1,
                c.sensitivity >= 1,
        ;
        lemma_ceil_div_sign(s * c.sensitivity, ONE as int);
    }
}

/// `m * factor` in fixed point, rounded up.
fn mul_ceil(m: u64, factor: u64) -> (r: u64)
    requires
        m <= ONE,
        factor <= i32::MAX,
    ensures
        r == ceil_div(m * factor, ONE as int),
{
    assert(m * factor <= ONE * i32::MAX) by (nonlinear_arith)
        requires
            m <= ONE,
            factor <= i32::MAX,
    ;
    (m * factor + (ONE as u64 - 1)) / (ONE as u64)
}

fn curve_power(m: u64, exponent: u32) -> (r: u64)
    requires
        1 <= m <= ONE,
    ensures
        r == power(m as int, exponent as nat),
{
    let mut acc: u64 = ONE as u64;
    let mut i: u32 = 0;
    while i < exponent
        invariant
            1 <= m <= ONE,
            i <= exponent,
            acc == power(m as int, i as nat),
        decreases exponent - i,
    {
        proof {
            lemma_power_bounds(m as int, i as nat);
        }
        acc = mul_ceil(acc, m);
        i = i + 1;
    }
    acc
}

fn process_magnitude(m: u64, config: &AxisConfig) -> (r: u64)
    requires
        config.wf(),
        m <= ONE,
    ensures
        r == magnitude(m as int, *config),
{
    let dz = config.deadzone as u64;
    if m <= dz {
        return 0;
    }
    proof {
        lemma_rescale_bounds(m as int, dz as int);
    }
    let span = ONE as u64 - dz;
    assert((m - dz) * ONE <= ONE * ONE) by (nonlinear_arith)
        requires
            dz < m <= ONE,
    ;
    let rescaled = ((m - dz) * (ONE as u64) + (span - 1)) / span;
    let shaped = match config.curve {
        Curve::Linear => rescaled,
        Curve::Power { exponent } => curve_power(rescaled, exponent),
    };
    proof {
        lemma_shape_bounds(rescaled as int, *config);
    }
    let scaled = mul_ceil(shaped, config.sensitivity as u64);
    if scaled > ONE as u64 {
        ONE as u64
    } else {
        scaled
    }
}

/// The response curve: the deadzone, then the configured curve on the
/// magnitude, then the sensitivity, with the sign of `position` kept and the
/// result held to `[-ONE, ONE]`. A position outside `[-ONE, ONE]` is first
/// clamped into it.
pub fn process(position: i32, config: &AxisConfig) -> (r: i32)
    requires
        config.wf(),
    ensures
        r == process_spec(position as int, *config),
        -ONE <= r <= ONE,
        position == 0 ==> r == 0,
{
    let q: i32 = if position < -ONE {
        -ONE
    } else if position > ONE {
        ONE
    } else {
        position
    };
    proof {
        lemma_magnitude_bounds(if q >= 0 { q as int } else { -q }, *config);
    }
    if q >= 0 {
        process_magnitude(q as u64, config) as i32
    } else {
        -(process_magnitude((-q) as u64, config) as i32)
    }
}


/// At rest the output is at rest: a centred position gives exactly zero,
/// whatever the deadzone, curve and sensitivity.
pub proof fn lemma_center_is_rest(c: AxisConfig)
    requires
        c.wf(),
    ensures
        process_spec(0, c) == 0,
{
}

/// The processed value never leaves the controller's range `[-ONE, ONE]`.
pub proof fn lemma_process_in_range(position: int, c: AxisConfig)
    requires
        c.wf(),
    ensures
        -ONE <= process_spec(position, c) <= ONE,
{
    let q = clamp(position, -ONE, ONE as int);
    lemma_magnitude_bounds(if q >= 0 { q } else { -q }, c);
}

/// Within the deadzone a position reads as rest; just outside it the output
/// is already nonzero and points the same way as the position.
pub proof fn lemma_deadzone(position: int, c: AxisConfig)
    requires
        c.wf(),
        -ONE <= position <= ONE,
    ensures
        -c.deadzone <= position <= c.deadzone ==> process_spec(position, c) == 0,
        position > c.deadzone ==> process_spec(position, c) > 0,
        position < -c.deadzone ==> process_spec(position, c) < 0,
{
    lemma_magnitude_bounds(if position >= 0 { position } else { -position }, c);
}

proof fn lemma_ceil_div_monotonic(a1: int, a2: int, b: int)
    requires
        a1 <= a2,
        b > 0,
    ensures
        ceil_div(a1, b) <= ceil_div(a2, b),
{
    lemma_div_is_ordered(a1 + b - 1, a2 + b - 1, b);
}

proof fn lemma_power_monotonic(m1: int, m2: int, n: nat)
    requires
        1 <= m1 <= m2 <= ONE,
    ensures
        power(m1, n) <= power(m2, n),
    decreases n,
{
    if n > 0 {
        let k = (n - 1) as nat;
        lemma_power_monotonic(m1, m2, k);
        lemma_power_bounds(m1, k);
        let p1 = power(m1, k);
        let p2 = power(m2, k);
        assert(p1 * m1 <= p2 * m2) by (nonlinear_arith)
            requires
                1 <= p1 <= p2,
                1 <= m1 <= m2,
        ;
        lemma_ceil_div_monotonic(p1 * m1, p2 * m2, ONE as int);
    }
}

proof fn lemma_magnitude_monotonic(m1: int, m2: int, c: AxisConfig)
    requires
        c.wf(),
        0 <= m1 <= m2 <= ONE,
    ensures
        magnitude(m1, c) <= magnitude(m2, c),
{
    lemma_magnitude_bounds(m1, c);
    lemma_magnitude_bounds(m2, c);
    let dz = c.deadzone as int;
    if m1 > dz {
        let one = ONE as int;
        assert((m1 - dz) * one <= (m2 - dz) * one) by (nonlinear_arith)
            requires
                m1 <= m2,
                one > 0,
        ;
        lemma_ceil_div_monotonic((m1 - dz) * one, (m2 - dz) * one, one - dz);
        let r1 = rescale(m1, dz);
        let r2 = rescale(m2, dz);
        lemma_rescale_bounds(m1, dz);
        lemma_rescale_bounds(m2, dz);
        match c.curve {
            Curve::Linear => {},
            Curve::Power { exponent } => {
                lemma_power_monotonic(r1, r2, exponent as nat);
            },
        }
        let s1 = shape(r1, c.curve);
        let s2 = shape(r2, c.curve);
        let k = c.sensitivity as int;
        assert(s1 * k <= s2 * k) by (nonlinear_arith)
            requires
                s1 <= s2,
                k > 0,
        ;
        lemma_ceil_div_monotonic(s1 * k, s2 * k, one);
    }
}

/// The response is monotonic: a larger position never gives a smaller output,
/// so the outputs just past the deadzone are the smallest nonzero ones.
pub proof fn lemma_process_monotonic(p1: int, p2: int, c: AxisConfig)
    requires
        c.wf(),
        p1 <= p2,
    ensures
        process_spec(p1, c) <= process_spec(p2, c),
{
    let q1 = clamp(p1, -ONE, ONE as int);
    let q2 = clamp(p2, -ONE, ONE as int);
    if q1 >= 0 {
        lemma_magnitude_monotonic(q1, q2, c);
    } else if q2 < 0 {
        lemma_magnitude_monotonic(-q2, -q1, c);
    } else {
        lemma_magnitude_bounds(-q1, c);
        lemma_magnitude_bounds(q2, c);
    }
}

} // verus!
