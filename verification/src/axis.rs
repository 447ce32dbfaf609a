//! Axis normalization: turning a raw hardware axis reading into a value
//! nominally in [-1, 1] through recentering, dead-zone clamping and range
//! scaling, with the vertical stick sign inverted so that "up" is positive.
//!
//! The normalized value is kept as the exact rational `num / den`
//! ([`AxisValue`]); nothing here rounds.

use crate::ev::{Axis, AxisValue};
use vstd::prelude::*;

verus! {

/// Hardware-reported calibration for one raw axis: minimum, maximum and
/// dead-zone width, captured once when the device is opened.
#[derive(Clone, Copy, Debug, PartialEq, Eq, Structural)]
pub struct AbsInfo {
    pub minimum: i32,
    pub maximum: i32,
    pub flat: i32,
}

impl AbsInfo {
    /// The all-zero calibration used before a device's axes are probed.
    pub fn zero() -> (r: AbsInfo)
        ensures
            r == (AbsInfo { minimum: 0, maximum: 0, flat: 0 }),
    {
        AbsInfo { minimum: 0, maximum: 0, flat: 0 }
    }
}

pub open spec fn abs_i(v: int) -> int {
    if v >= 0 {
        v
    } else {
        -v
    }
}

/// Halving that truncates toward zero, as the hardware's integer division
/// does.
pub open spec fn spec_half_down(m: int) -> int {
    if m >= 0 {
        m / 2
    } else {
        -((-m) / 2)
    }
}

/// The recentered raw value: a stick axis reported with an unsigned range
/// (minimum 0) is shifted by half its maximum to make the range symmetric.
pub open spec fn spec_recentered(info: AbsInfo, val: int, kind: Axis) -> int {
    if kind.spec_is_stick() && info.minimum == 0 {
        val - spec_half_down(info.maximum as int)
    } else {
        val
    }
}

/// The maximum after recentering.
pub open spec fn spec_adjusted_max(info: AbsInfo, kind: Axis) -> int {
    if kind.spec_is_stick() && info.minimum == 0 {
        info.maximum - spec_half_down(info.maximum as int)
    } else {
        info.maximum as int
    }
}

/// Dead-zone clamping: values within the dead zone collapse to zero, values
/// outside it move toward zero by the dead-zone width.
pub open spec fn spec_dead_zoned(v: int, flat: int) -> int {
    if abs_i(v) < flat {
        0
    } else if v > 0 {
        v - flat
    } else {
        v + flat
    }
}

/// The numerator of the normalized value.
pub open spec fn spec_axis_num(info: AbsInfo, val: int, kind: Axis) -> int {
    let d = spec_dead_zoned(spec_recentered(info, val, kind), info.flat as int);
    if kind.spec_is_vertical() {
        -d
    } else {
        d
    }
}

/// The denominator of the normalized value.
pub open spec fn spec_axis_den(info: AbsInfo, kind: Axis) -> int {
    spec_adjusted_max(info, kind) - info.flat
}

/// Normalizes one raw axis reading against its calibration.
///
/// The result is the exact rational `num / den`: recenter an unsigned stick
/// range, clamp the dead zone, and leave the division to the consumer. For
/// a vertical stick axis the numerator's sign is inverted.
pub fn axis_value(info: AbsInfo, val: i32, kind: Axis) -> (r: AxisValue)
    ensures
        r.num == spec_axis_num(info, val as int, kind),
        r.den == spec_axis_den(info, kind),
{
    let flat = info.flat as i64;
    let (v, maxv): (i64, i64) = if kind.is_stick() && info.minimum == 0 {
        let m = info.maximum as i64;
        let maxh: i64 = if m >= 0 {
            ((m as u64) / 2) as i64
        } else {
            -((((-m) as u64) / 2) as i64)
        };
        ((val as i64) - maxh, m - maxh)
    } else {
        (val as i64, info.maximum as i64)
    };
    let av: i64 = if v >= 0 {
        v
    } else {
        -v
    };
    let v2: i64 = if av < flat {
        0
    } else if v > 0 {
        v - flat
    } else {
        v + flat
    };
    let den: i64 = maxv - flat;
    let num: i64 = if kind.is_vertical() {
        -v2
    } else {
        v2
    };
    AxisValue { num, den }
}

impl AxisValue {
    /// Whether two readings denote the same rational value, compared
    /// exactly by cross-multiplication.
    pub fn same_value(&self, other: &AxisValue) -> (r: bool)
        ensures
            r == (self.num as int * other.den as int == other.num as int * self.den as int),
    {
        proof {
            lemma_i64_mul_fits(self.num as int, other.den as int);
            lemma_i64_mul_fits(other.num as int, self.den as int);
        }
        (self.num as i128) * (other.den as i128) == (other.num as i128) * (self.den as i128)
    }
}

proof fn lemma_i64_mul_fits(a: int, b: int)
    requires
        -0x8000000000000000 <= a <= 0x7fffffffffffffff,
        -0x8000000000000000 <= b <= 0x7fffffffffffffff,
    ensures
        -0x80000000000000000000000000000000 <= a * b <= 0x7fffffffffffffffffffffffffffffff,
{
    assert(-0x80000000000000000000000000000000 <= a * b <= 0x7fffffffffffffffffffffffffffffff)
        by (nonlinear_arith)
        requires
            -0x8000000000000000 <= a <= 0x7fffffffffffffff,
            -0x8000000000000000 <= b <= 0x7fffffffffffffff,
    ;
}

/// A raw value within the dead zone (after recentering) normalizes to
/// exactly zero, and nothing else does: the numerator vanishes exactly when
/// the recentered magnitude does not exceed the dead-zone width.
pub proof fn lemma_dead_zone_exact_zero(info: AbsInfo, val: int, kind: Axis)
    ensures
        spec_axis_num(info, val, kind) == 0 <==> abs_i(spec_recentered(info, val, kind))
            <= info.flat,
{
}

/// For any raw value within the declared hardware range, and a sane
/// calibration (non-negative dead zone smaller than the adjusted maximum,
/// minimum not below the negated maximum), the normalized value lies in
/// [-1, 1]: the numerator's magnitude never exceeds the (positive)
/// denominator.
pub proof fn lemma_normalized_in_range(info: AbsInfo, val: int, kind: Axis)
    requires
        info.minimum <= val <= info.maximum,
        0 <= info.flat,
        info.flat < spec_adjusted_max(info, kind),
        -(info.maximum as int) <= info.minimum,
    ensures
        0 < spec_axis_den(info, kind),
        abs_i(spec_axis_num(info, val, kind)) <= spec_axis_den(info, kind),
{
    let m = info.maximum as int;
    if kind.spec_is_stick() && info.minimum == 0 {
        let h = spec_half_down(m);
        assert(m >= 0);
        assert(m == 2 * (m / 2) + m % 2) by {
            vstd::arithmetic::div_mod::lemma_fundamental_div_mod(m, 2);
        }
        assert(h <= m - h);
        let v = val - h;
        assert(-h <= v <= m - h);
        assert(abs_i(v) <= m - h);
    } else {
        let v = val;
        assert(abs_i(v) <= m);
    }
}

/// Vertical-axis normalization is the horizontal one with the sign
/// inverted: with the same calibration and raw value, the left and right
/// vertical stick axes produce the negated numerator of their horizontal
/// partner, and the same denominator.
pub proof fn lemma_vertical_sign_inverted(info: AbsInfo, val: int)
    ensures
        spec_axis_num(info, val, Axis::LeftStickY) == -spec_axis_num(info, val, Axis::LeftStickX),
        spec_axis_num(info, val, Axis::RightStickY) == -spec_axis_num(info, val, Axis::RightStickX),
        spec_axis_den(info, Axis::LeftStickY) == spec_axis_den(info, Axis::LeftStickX),
        spec_axis_den(info, Axis::RightStickY) == spec_axis_den(info, Axis::RightStickX),
{
}

} // verus!
