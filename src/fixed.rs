use vstd::prelude::*;

verus! {

/// The fixed-point value of 1.0.
pub const UNIT: u64 = 1_000_000;

/// The largest level (strength, bound) that the smoothing steps accept, so
/// that their products fit in 64 bits.
pub const MAX_LEVEL: u64 = 1_000_000_000_000;

/// `v` moved toward `top` by the fraction `rate / UNIT` of the gap between them;
/// the step is rounded up, so the result never lags behind the exact value.
pub open spec fn rise(v: int, top: int, rate: int) -> int {
    top - ((UNIT - rate) * (top - v)) / (UNIT as int)
}

/// `v` moved toward zero by the fraction `rate / UNIT` of itself; the step is
/// rounded up.
pub open spec fn fall(v: int, rate: int) -> int {
    ((UNIT - rate) * v) / (UNIT as int)
}

pub(crate) proof fn lemma_scaled_step(g: int, rate: int)
    requires
        0 <= g,
        0 < rate <= UNIT,
    ensures
        0 <= ((UNIT - rate) * g) / (UNIT as int) <= g,
        0 < g ==> ((UNIT - rate) * g) / (UNIT as int) < g,
{
    let p = (UNIT - rate) * g;
    assert(0 <= p <= UNIT * g) by (nonlinear_arith)
        requires 0 <= g, 0 < rate <= UNIT, p == (UNIT - rate) * g;
    assert(0 < g ==> p < UNIT * g) by (nonlinear_arith)
        requires 0 <= g, 0 < rate <= UNIT, p == (UNIT - rate) * g;
    assert(0 <= p / (UNIT as int) <= g) by (nonlinear_arith)
        requires 0 <= p <= UNIT * g, 0 <= g;
    assert(0 < g ==> p / (UNIT as int) < g) by (nonlinear_arith)
        requires 0 <= g, 0 < g ==> p < UNIT * g;
}

/// Moves `v` toward `top` by the fraction `rate / UNIT` of the gap.
pub fn rise_toward(v: u64, top: u64, rate: u64) -> (r: u64)
    requires
        v <= top <= MAX_LEVEL,
        0 < rate <= UNIT,
    ensures
        r == rise(v as int, top as int, rate as int),
        v <= r <= top,
        v < top ==> v < r,
{
    proof {
        lemma_scaled_step(top - v, rate as int);
        assert((UNIT - rate) * (top - v) <= UNIT * MAX_LEVEL) by (nonlinear_arith)
            requires v <= top <= MAX_LEVEL, 0 < rate <= UNIT;
    }
    top - ((UNIT - rate) * (top - v)) / UNIT
}

/// Moves `v` toward zero by the fraction `rate / UNIT` of itself.
pub fn fall_toward_zero(v: u64, rate: u64) -> (r: u64)
    requires
        v <= MAX_LEVEL,
        0 < rate <= UNIT,
    ensures
        r == fall(v as int, rate as int),
        r <= v,
        0 < v ==> r < v,
{
    proof {
        lemma_scaled_step(v as int, rate as int);
        assert((UNIT - rate) * v <= UNIT * MAX_LEVEL) by (nonlinear_arith)
            requires v <= MAX_LEVEL, 0 < rate <= UNIT;
    }
    ((UNIT - rate) * v) / UNIT
}

} // verus!
