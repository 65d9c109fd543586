//! Exact integer interpolation and clock arithmetic for timed transitions.
use vstd::prelude::*;

verus! {

/// Integer division that rounds toward zero, as a quotient of magnitudes.
pub open spec fn div_toward_zero(x: int, d: int) -> int {
    if x >= 0 {
        x / d
    } else {
        -((-x) / d)
    }
}

/// `a + (b - a) * t` for the fraction `t = t_num / t_den`, rounded toward `a`.
pub open spec fn lerp_spec(a: int, b: int, t_num: int, t_den: int) -> int {
    a + div_toward_zero((b - a) * t_num, t_den)
}

/// Computes `lerp_spec` in 128 bits, where every value of it fits.
fn lerp_wide(a: i64, b: i64, t_num: i64, t_den: i64) -> (r: i128)
    requires
        t_den > 0,
    ensures
        r == lerp_spec(a as int, b as int, t_num as int, t_den as int),
{
    let diff: i128 = b as i128 - a as i128;
    let t: i128 = t_num as i128;
    assert(-0xffff_ffff_ffff_ffff * 0x8000_0000_0000_0000 <= diff * t
        <= 0xffff_ffff_ffff_ffff * 0x8000_0000_0000_0000) by (nonlinear_arith)
        requires
            -0xffff_ffff_ffff_ffff <= diff <= 0xffff_ffff_ffff_ffff,
            -0x8000_0000_0000_0000 <= t <= 0x8000_0000_0000_0000,
    ;
    let prod: i128 = diff * t;
    let den: u128 = t_den as u128;
    let mag: u128 = if prod >= 0 {
        prod as u128
    } else {
        (-prod) as u128
    };
    proof {
        vstd::arithmetic::div_mod::lemma_div_is_ordered_by_denominator(mag as int, 1, den as int);
    }
    let q: i128 = if prod >= 0 {
        (mag / den) as i128
    } else {
        -((mag / den) as i128)
    };
    a as i128 + q
}

/// Linear interpolation from `a` to `b` at the fraction `t_num / t_den`,
/// rounded toward `a`; a fraction outside `[0, 1]` extrapolates.
pub fn lerp(a: i64, b: i64, t_num: i64, t_den: i64) -> (r: i64)
    requires
        t_den > 0,
        i64::MIN <= lerp_spec(a as int, b as int, t_num as int, t_den as int) <= i64::MAX,
    ensures
        r == lerp_spec(a as int, b as int, t_num as int, t_den as int),
{
    lerp_wide(a, b, t_num, t_den) as i64
}

/// A value clamped to the range of `i64`.
pub open spec fn saturated(v: int) -> i64 {
    if v > i64::MAX {
        i64::MAX
    } else if v < i64::MIN {
        i64::MIN
    } else {
        v as i64
    }
}

/// Coordinate of a timed transition from `start` to `target` at `elapsed`
/// microseconds of `duration`: `start + (target - start) * min(elapsed /
/// duration, 1)`, rounded toward `start` and saturating at the ends of `i64`.
/// Progress is clamped at 1 only, so once `elapsed >= duration` the coordinate
/// is exactly `target`, and a negative `elapsed` extrapolates back past
/// `start`. A duration that is not positive counts as complete.
pub open spec fn interpolated(start: i64, target: i64, elapsed: i64, duration: i64) -> i64 {
    if elapsed >= duration || duration <= 0 {
        target
    } else {
        saturated(lerp_spec(start as int, target as int, elapsed as int, duration as int))
    }
}

/// Coordinate of a timed transition at `elapsed` microseconds.
pub fn interpolate(start: i64, target: i64, elapsed: i64, duration: i64) -> (r: i64)
    ensures
        r == interpolated(start, target, elapsed, duration),
{
    if elapsed >= duration || duration <= 0 {
        return target;
    }
    let v = lerp_wide(start, target, elapsed, duration);
    if v > i64::MAX as i128 {
        i64::MAX
    } else if v < i64::MIN as i128 {
        i64::MIN
    } else {
        v as i64
    }
}

/// The transition clock advanced by `delta`, saturating at the ends of `i64`.
pub open spec fn advanced(elapsed: i64, delta: i64) -> i64 {
    if elapsed + delta > i64::MAX {
        i64::MAX
    } else if elapsed + delta < i64::MIN {
        i64::MIN
    } else {
        (elapsed + delta) as i64
    }
}

/// Advances a transition clock by `delta` microseconds.
pub fn advance(elapsed: i64, delta: i64) -> (r: i64)
    ensures
        r == advanced(elapsed, delta),
{
    let s: i128 = elapsed as i128 + delta as i128;
    if s > i64::MAX as i128 {
        i64::MAX
    } else if s < i64::MIN as i128 {
        i64::MIN
    } else {
        s as i64
    }
}

} // verus!
