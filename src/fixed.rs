use vstd::prelude::*;

verus! {

/// The fixed-point representation of `1.0`: a value `v` stands for `v / ONE`.
pub const ONE: i32 = 1_000_000;

/// `x` limited to the closed range `[lo, hi]`.
pub open spec fn clamp(x: int, lo: int, hi: int) -> int {
    if x < lo {
        lo
    } else if x > hi {
        hi
    } else {
        x
    }
}

/// The quotient `a / b` rounded up, for `a >= 0` and `b > 0`.
pub open spec fn ceil_div(a: int, b: int) -> int {
    (a + b - 1) / b
}

/// Rounding up never lifts a quotient past a bound that the dividend respects.
pub proof fn lemma_ceil_div_le(a: int, b: int, c: int)
    requires
        0 <= a <= b * c,
        b > 0,
    ensures
        ceil_div(a, b) <= c,
{
    assert((a + b - 1) / b <= c) by (nonlinear_arith)
        requires
            0 <= a <= b * c,
            b > 0,
    {
        assert(a + b - 1 < b * (c + 1));
    }
}

/// The rounded-up quotient of a positive dividend is positive; of zero, zero.
pub proof fn lemma_ceil_div_sign(a: int, b: int)
    requires
        a >= 0,
        b > 0,
    ensures
        a == 0 ==> ceil_div(a, b) == 0,
        a > 0 ==> ceil_div(a, b) >= 1,
        ceil_div(a, b) >= 0,
{
    assert((a + b - 1) / b >= 0) by (nonlinear_arith)
        requires
            a >= 0,
            b > 0,
    ;
    if a == 0 {
        assert((b - 1) / b == 0) by (nonlinear_arith)
            requires
                b > 0,
        ;
    } else {
        assert((a + b - 1) / b >= 1) by (nonlinear_arith)
            requires
                a > 0,
                b > 0,
        ;
    }
}

} // verus!
