//! Device-native integer ranges and the normalised level scale.
//!
//! A level is a position within a device's native range on a scale of
//! `FULL_SCALE` steps: `0` stands for the bottom (0 %), `FULL_SCALE` for the
//! top (100 %). A native value is read as the nearest level and a level is
//! written as the native value at or below it; the scale is wide enough that
//! a value read and written back is off by at most one unit, on any `i64`
//! range.
use vstd::prelude::*;

verus! {

/// The level of the top of a range: 100 %.
pub const FULL_SCALE: i64 = 0x7FFF_FFFF_FFFF_FFFF;

/// `value` held to `[min, max]`: `max` above it, `min` below it.
pub open spec fn clamp_spec(value: int, min: int, max: int) -> int {
    if value > max {
        max
    } else if value < min {
        min
    } else {
        value
    }
}

/// `value` held to `[min, max]`.
pub fn clamp(value: i64, min: i64, max: i64) -> (r: i64)
    ensures
        r == clamp_spec(value as int, min as int, max as int),
{
    if value > max {
        max
    } else if value < min {
        min
    } else {
        value
    }
}

/// The value a clamped relative change writes: `current + delta` held to
/// `[min, max]`. The sum is taken exactly, so no overflow can occur.
pub fn change_n_clip(min: i64, max: i64, current: i64, delta: i64) -> (r: i64)
    ensures
        r == clamp_spec(current + delta, min as int, max as int),
{
    let sum: i128 = current as i128 + delta as i128;
    if sum > max as i128 {
        max
    } else if sum < min as i128 {
        min
    } else {
        sum as i64
    }
}

/// A clamped relative change never leaves `[min, max]`, and is exactly
/// `current + delta` whenever that sum is in range; a zero delta keeps the
/// current value.
pub proof fn lemma_clamp_in_range(min: int, max: int, current: int, delta: int)
    requires
        min <= current <= max,
    ensures
        min <= clamp_spec(current + delta, min, max) <= max,
        min <= current + delta <= max ==> clamp_spec(current + delta, min, max) == current
            + delta,
        clamp_spec(current + 0, min, max) == current,
{
}

/// The level of a change or position of `percent` percent: the exact level
/// rounded away from zero, a percent beyond 100 counting as 100.
pub open spec fn percent_level(percent: int) -> int {
    if percent >= 0 {
        (clamp_spec(percent, 0, 100) * FULL_SCALE + 99) / 100
    } else {
        -((clamp_spec(-percent, 0, 100) * FULL_SCALE + 99) / 100)
    }
}

/// The level of `percent` percent.
pub fn level_from_percent(percent: i64) -> (r: i64)
    ensures
        r == percent_level(percent as int),
        -FULL_SCALE <= r <= FULL_SCALE,
{
    let mag: i128 = if percent >= 0 {
        clamp(percent, 0, 100) as i128
    } else if percent < -100 {
        100
    } else {
        -(percent as i128)
    };
    proof {
        assert(0 <= (mag * FULL_SCALE + 99) / 100 <= FULL_SCALE) by (nonlinear_arith)
            requires
                0 <= mag <= 100,
        ;
    }
    let v: i64 = ((mag * FULL_SCALE as i128 + 99) / 100) as i64;
    if percent >= 0 {
        v
    } else {
        -v
    }
}

/// `a / b` rounded to the nearest integer, halves upwards.
pub open spec fn div_round(a: int, b: int) -> int {
    (2 * a + b) / (2 * b)
}

/// The level at which `native` lies within `[min, max]`, rounded to the
/// nearest level; a native value outside the range counts as the nearer
/// bound, and an empty range (`max <= min`) reads as level `0`.
pub open spec fn level_of(native: int, min: int, max: int) -> int {
    if max <= min {
        0
    } else {
        div_round(FULL_SCALE * (clamp_spec(native, min, max) - min), max - min)
    }
}

/// The native value of `level` within `[min, max]`, rounded down towards
/// `min`; a level outside `[0, FULL_SCALE]` counts as the nearer bound, and an
/// empty range gives `min`.
pub open spec fn native_of(level: int, min: int, max: int) -> int {
    if max <= min {
        min
    } else {
        min + (clamp_spec(level, 0, FULL_SCALE as int) * (max - min)) / (FULL_SCALE as int)
    }
}

/// The native size of a change of `delta` levels within `[min, max]`,
/// rounded towards zero; `0` on an empty range.
pub open spec fn native_step(delta: int, min: int, max: int) -> int {
    if max <= min {
        0
    } else if delta >= 0 {
        (delta * (max - min)) / (FULL_SCALE as int)
    } else {
        -(((-delta) * (max - min)) / (FULL_SCALE as int))
    }
}

/// The level of `native` within `[min, max]`.
pub fn level_from_native(native: i64, min: i64, max: i64) -> (r: i64)
    ensures
        r == level_of(native as int, min as int, max as int),
        0 <= r <= FULL_SCALE,
{
    if max <= min {
        return 0;
    }
    let v = clamp(native, min, max);
    let x: u128 = (v as i128 - min as i128) as u128;
    let span: u128 = (max as i128 - min as i128) as u128;
    let f: u128 = FULL_SCALE as u128;
    proof {
        let xi = x as int;
        let si = span as int;
        let fi = f as int;
        assert(0 <= fi * xi <= fi * si) by (nonlinear_arith)
            requires
                0 <= xi <= si,
                fi > 0,
        ;
        assert(fi * si <= 0x7FFF_FFFF_FFFF_FFFF * 0xFFFF_FFFF_FFFF_FFFF) by (nonlinear_arith)
            requires
                0 < si <= 0xFFFF_FFFF_FFFF_FFFF,
                fi == 0x7FFF_FFFF_FFFF_FFFF,
        ;
        let a = fi * xi;
        assert(0 <= (2 * a + si) / (2 * si) <= fi) by (nonlinear_arith)
            requires
                0 <= a <= fi * si,
                0 < si,
                fi > 0,
        ;
    }
    let a: u128 = f * x;
    let q: u128 = (a + a + span) / (span + span);
    q as i64
}

/// The native value of `level` within `[min, max]`.
pub fn native_from_level(level: i64, min: i64, max: i64) -> (r: i64)
    ensures
        r == native_of(level as int, min as int, max as int),
        min <= max ==> min <= r <= max,
{
    if max <= min {
        return min;
    }
    let l: u128 = clamp(level, 0, FULL_SCALE) as u128;
    let span: u128 = (max as i128 - min as i128) as u128;
    let f: u128 = FULL_SCALE as u128;
    proof {
        let li = l as int;
        let si = span as int;
        let fi = f as int;
        assert(0 <= li * si <= fi * si) by (nonlinear_arith)
            requires
                0 <= li <= fi,
                0 < si,
        ;
        assert(fi * si <= 0x7FFF_FFFF_FFFF_FFFF * 0xFFFF_FFFF_FFFF_FFFF) by (nonlinear_arith)
            requires
                0 < si <= 0xFFFF_FFFF_FFFF_FFFF,
                fi == 0x7FFF_FFFF_FFFF_FFFF,
        ;
        let a = li * si;
        assert(0 <= a / fi <= si) by (nonlinear_arith)
            requires
                0 <= a <= fi * si,
                0 < si,
                fi > 0,
        ;
    }
    let a: u128 = l * span;
    let off: u128 = a / f;
    (min as i128 + off as i128) as i64
}

/// The native size of a change of `delta` levels within `[min, max]`.
pub fn native_step_of(delta: i64, min: i64, max: i64) -> (r: i128)
    ensures
        r == native_step(delta as int, min as int, max as int),
        -0x4_0000_0000_0000_0000_0000_0000 <= r <= 0x4_0000_0000_0000_0000_0000_0000,
{
    if max <= min {
        return 0;
    }
    let span: i128 = max as i128 - min as i128;
    let mag: i128 = if delta >= 0 {
        delta as i128
    } else {
        -(delta as i128)
    };
    proof {
        let mi = mag as int;
        let si = span as int;
        let f = FULL_SCALE as int;
        assert(0 <= mi * si <= 0x8000_0000_0000_0000 * 0xFFFF_FFFF_FFFF_FFFF)
            by (nonlinear_arith)
            requires
                0 <= mi <= 0x8000_0000_0000_0000,
                0 < si <= 0xFFFF_FFFF_FFFF_FFFF,
        ;
        let q = (mi * si) / f;
        assert(0 <= q && q * f <= mi * si) by (nonlinear_arith)
            requires
                0 <= mi * si,
                f > 0,
                q == (mi * si) / f,
        ;
        assert(q <= 0x4_0000_0000_0000_0000_0000_0000) by (nonlinear_arith)
            requires
                0 <= q,
                q * f <= 0x8000_0000_0000_0000 * 0xFFFF_FFFF_FFFF_FFFF,
                f >= 0x2000_0000,
        ;
    }
    let step: i128 = (mag * span) / FULL_SCALE as i128;
    if delta >= 0 {
        step
    } else {
        -step
    }
}

/// Reading a native value as a level and writing that level back gives the
/// value again within one unit, on every range.
pub proof fn lemma_level_round_trip(v: int, min: int, max: int)
    requires
        min <= v <= max,
        i64::MIN <= min,
        max <= i64::MAX,
    ensures
        v - 1 <= native_of(level_of(v, min, max), min, max) <= v + 1,
{
    if max > min {
        let r = max - min;
        let x = v - min;
        let f = FULL_SCALE as int;
        let a = f * x;
        let p = (2 * a + r) / (2 * r);
        assert(level_of(v, min, max) == p);
        assert(2 * r * p <= 2 * a + r && 2 * a + r < 2 * r * p + 2 * r) by (nonlinear_arith)
            requires
                0 < r,
                p == (2 * a + r) / (2 * r),
        ;
        assert(0 <= a <= f * r) by (nonlinear_arith)
            requires
                0 <= x <= r,
                f > 0,
                a == f * x,
        ;
        assert(0 <= p <= f) by (nonlinear_arith)
            requires
                0 <= a <= f * r,
                0 < r,
                f > 0,
                2 * r * p <= 2 * a + r,
                2 * a + r < 2 * r * p + 2 * r,
        ;
        assert(clamp_spec(p, 0, f) == p);
        let b = p * r;
        let q = b / f;
        assert(native_of(p, min, max) == min + q);
        assert(f * q <= b < f * q + f) by (nonlinear_arith)
            requires
                0 < f,
                0 <= b,
                q == b / f,
        ;
        assert(r <= 2 * f + 1);
        assert(f * (x - 1) <= b <= f * (x + 1)) by (nonlinear_arith)
            requires
                0 < r <= 2 * f + 1,
                a == f * x,
                b == p * r,
                2 * r * p <= 2 * a + r,
                2 * a + r < 2 * r * p + 2 * r,
        ;
        assert(x - 1 <= q <= x + 1) by (nonlinear_arith)
            requires
                0 < f,
                f * q <= b < f * q + f,
                f * (x - 1) <= b <= f * (x + 1),
        ;
    }
}

} // verus!
