//! Range remapping of raw axis readings and switch polarity.
//!
//! The remapping is the classic linear `map` formula evaluated in integers,
//! with the quotient rounded toward zero. The rounding bias this produces is
//! part of the wire-to-device contract and is specified exactly.

use vstd::prelude::*;

verus! {

/// Smallest raw axis reading the microcontroller's converter produces.
pub const RAW_MIN: u16 = 0;

/// Largest raw axis reading the microcontroller's converter produces.
pub const RAW_MAX: u16 = 1023;

/// Lower end of the range the virtual device declares for each axis.
pub const AXIS_MIN: i32 = -32768;

/// Upper end of the range the virtual device declares for each axis.
pub const AXIS_MAX: i32 = 32767;

/// Absolute value of a mathematical integer.
spec fn magnitude(a: int) -> int {
    if a < 0 {
        -a
    } else {
        a
    }
}

/// Quotient of `a` by `b` rounded toward zero, as machine integer division
/// rounds it: the quotient of the magnitudes, negative when the signs differ.
pub open spec fn div_toward_zero(a: int, b: int) -> int
    recommends
        b != 0,
{
    if b > 0 {
        if a >= 0 {
            a / b
        } else {
            -((-a) / b)
        }
    } else {
        if a >= 0 {
            -(a / (-b))
        } else {
            (-a) / (-b)
        }
    }
}

/// The linear remapping of `value` from the interval `in_min..in_max` onto
/// `out_min..out_max`:
/// `(value - in_min) * (out_max - out_min) / (in_max - in_min) + out_min`,
/// with the division rounded toward zero.
pub open spec fn rescaled(value: int, in_min: int, in_max: int, out_min: int, out_max: int) -> int
    recommends
        in_min != in_max,
{
    div_toward_zero((value - in_min) * (out_max - out_min), in_max - in_min) + out_min
}

/// Device value of the X axis for a raw reading: the raw range is mapped onto
/// the declared axis range in the same direction.
pub open spec fn axis_x_position(raw: u16) -> int {
    rescaled(raw as int, RAW_MIN as int, RAW_MAX as int, AXIS_MIN as int, AXIS_MAX as int)
}

/// Device value of the Y axis for a raw reading: the raw range is mapped onto
/// the declared axis range with its ends swapped.
pub open spec fn axis_y_position(raw: u16) -> int {
    rescaled(raw as int, RAW_MIN as int, RAW_MAX as int, AXIS_MAX as int, AXIS_MIN as int)
}

/// Logical button state for a raw switch reading. The switch is active-low:
/// a raw `0` means pressed (`1`), every other raw value means released (`0`).
pub open spec fn button_state(sw: u8) -> int {
    if sw == 0 {
        1
    } else {
        0
    }
}

/// The magnitude of a product is the product of the magnitudes, and a product
/// of two non-zero integers is negative exactly when their signs differ.
proof fn lemma_product_sign(a: int, b: int)
    ensures
        magnitude(a * b) == magnitude(a) * magnitude(b),
        a != 0 && b != 0 ==> ((a * b < 0) <==> ((a < 0) != (b < 0))),
        a == 0 || b == 0 ==> a * b == 0,
{
    assert(magnitude(a * b) == magnitude(a) * magnitude(b)) by (nonlinear_arith);
    assert(a != 0 && b != 0 ==> ((a * b < 0) <==> ((a < 0) != (b < 0)))) by (nonlinear_arith);
    assert(a == 0 || b == 0 ==> a * b == 0) by (nonlinear_arith);
}

/// Maps `value` linearly from `in_min..in_max` onto `out_min..out_max`.
///
/// The input interval must not be empty and the mapped value must be
/// representable; every intermediate quantity is computed without overflow.
pub fn map_to_abs_range(value: u16, in_min: u16, in_max: u16, out_min: i32, out_max: i32) -> (out:
    i32)
    requires
        in_min != in_max,
        i32::MIN <= rescaled(
            value as int,
            in_min as int,
            in_max as int,
            out_min as int,
            out_max as int,
        ) <= i32::MAX,
    ensures
        out == rescaled(value as int, in_min as int, in_max as int, out_min as int, out_max as int),
{
    let offset: i64 = value as i64 - in_min as i64;
    let span: i64 = out_max as i64 - out_min as i64;
    let width: i64 = in_max as i64 - in_min as i64;
    let offset_abs: u64 = if offset < 0 {
        (-offset) as u64
    } else {
        offset as u64
    };
    let span_abs: u64 = if span < 0 {
        (-span) as u64
    } else {
        span as u64
    };
    let width_abs: u64 = if width < 0 {
        (-width) as u64
    } else {
        width as u64
    };
    proof {
        lemma_product_sign(offset as int, span as int);
        assert(offset_abs * span_abs <= 0xffff * 0xffff_ffff) by (nonlinear_arith)
            requires
                offset_abs <= 0xffff,
                span_abs <= 0xffff_ffff,
        ;
    }
    let product_abs: u64 = offset_abs * span_abs;
    let quotient_abs: u64 = product_abs / width_abs;
    let product_negative: bool = (offset < 0) != (span < 0) && product_abs != 0;
    let negative: bool = product_negative != (width < 0);
    proof {
        assert(quotient_abs <= product_abs) by (nonlinear_arith)
            requires
                quotient_abs == product_abs / width_abs,
                width_abs >= 1,
        ;
    }
    let quotient: i64 = if negative {
        -(quotient_abs as i64)
    } else {
        quotient_abs as i64
    };
    (quotient + out_min as i64) as i32
}

/// Computes the device value of the X axis for a raw reading.
pub fn axis_x_value(raw: u16) -> (out: i32)
    ensures
        out == axis_x_position(raw),
{
    proof {
        lemma_axis_positions_representable(raw);
    }
    map_to_abs_range(raw, RAW_MIN, RAW_MAX, AXIS_MIN, AXIS_MAX)
}

/// Computes the device value of the Y axis for a raw reading.
pub fn axis_y_value(raw: u16) -> (out: i32)
    ensures
        out == axis_y_position(raw),
{
    proof {
        lemma_axis_positions_representable(raw);
    }
    map_to_abs_range(raw, RAW_MIN, RAW_MAX, AXIS_MAX, AXIS_MIN)
}

/// Computes the logical button value for an active-low raw switch reading.
pub fn button_value(sw: u8) -> (value: i32)
    ensures
        value == button_state(sw),
{
    if sw == 0 {
        1
    } else {
        0
    }
}

/// Both axis formulas reduce to one division of a non-negative number.
pub proof fn lemma_axis_positions_closed_form(raw: u16)
    ensures
        axis_x_position(raw) == (raw * 65535) / 1023 - 32768,
        axis_y_position(raw) == 32767 - (raw * 65535) / 1023,
{
}

/// Whatever sixteen-bit raw reading arrives, both axis values fit the
/// device's value type.
pub proof fn lemma_axis_positions_representable(raw: u16)
    ensures
        i32::MIN <= axis_x_position(raw) <= i32::MAX,
        i32::MIN <= axis_y_position(raw) <= i32::MAX,
{
    lemma_axis_positions_closed_form(raw);
}

/// Raw readings inside the converter's range map into the declared axis
/// range, on both axes.
pub proof fn lemma_axis_positions_in_declared_range(raw: u16)
    requires
        RAW_MIN <= raw <= RAW_MAX,
    ensures
        AXIS_MIN <= axis_x_position(raw) <= AXIS_MAX,
        AXIS_MIN <= axis_y_position(raw) <= AXIS_MAX,
{
    lemma_axis_positions_closed_form(raw);
}

/// The ends of the raw range map onto the ends of the declared range: in the
/// same direction on X, swapped on Y.
pub proof fn lemma_axis_endpoints()
    ensures
        axis_x_position(RAW_MIN) == AXIS_MIN,
        axis_x_position(RAW_MAX) == AXIS_MAX,
        axis_y_position(RAW_MIN) == AXIS_MAX,
        axis_y_position(RAW_MAX) == AXIS_MIN,
{
}

/// The X axis preserves direction and the Y axis reverses it.
pub proof fn lemma_axis_direction(low: u16, high: u16)
    requires
        low <= high,
    ensures
        axis_x_position(low) <= axis_x_position(high),
        axis_y_position(low) >= axis_y_position(high),
{
    lemma_axis_positions_closed_form(low);
    lemma_axis_positions_closed_form(high);
}

/// The two axes mirror each other: their values always sum to minus one.
pub proof fn lemma_axes_mirror(raw: u16)
    ensures
        axis_x_position(raw) + axis_y_position(raw) == -1,
{
    lemma_axis_positions_closed_form(raw);
}

/// Only a raw reading of zero presses the button.
pub proof fn lemma_button_polarity(sw: u8)
    ensures
        button_state(0) == 1,
        sw != 0 ==> button_state(sw) == 0,
{
}

} // verus!
