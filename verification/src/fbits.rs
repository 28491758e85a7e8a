//! Scalar floating-point arithmetic on IEEE 754 double-precision bit
//! patterns.
//!
//! Verified code in this crate never holds a floating-point value; it holds
//! the value's bit pattern as a `u64`. Each operation below is a trusted
//! wrapper around one floating-point operation; its result is named by an
//! uninterpreted spec function, which is sound because every one of these
//! operations is a pure function of the operand bit patterns. The raw bits
//! are turned into doubles and back with `bytemuck::cast`; a
//! `num_complex::Complex64` value appears in some bodies only to fix the
//! type that `bytemuck::cast` converts to.

use vstd::prelude::*;

verus! {

/// The bit pattern of `0.0`.
pub const F_ZERO_BITS: u64 = 0x0;

/// The bit pattern of `0.0625`, one sixteenth.
pub const F_SIXTEENTH_BITS: u64 = 0x3fb0_0000_0000_0000;

/// The bit pattern of `0.25`.
pub const F_QUARTER_BITS: u64 = 0x3fd0_0000_0000_0000;

/// The bit pattern of `1.0`.
pub const F_ONE_BITS: u64 = 0x3ff0_0000_0000_0000;

/// The bit pattern of `2.0`.
pub const F_TWO_BITS: u64 = 0x4000_0000_0000_0000;

/// The bit pattern of `255.0`.
pub const F_255_BITS: u64 = 0x406f_e000_0000_0000;

/// Whether `b` is the bit pattern of a strictly positive, finite double.
/// Those are exactly the patterns between `1` (the least subnormal) and
/// the largest pattern below `0x7ff0...` (the exponent reserved for
/// infinities and NaNs); every pattern at or above the sign bit is
/// negative or a NaN.
pub open spec fn is_pos_finite_bits(b: u64) -> bool {
    0 < b < 0x7ff0_0000_0000_0000
}

/// The IEEE 754 double-precision sum of two values given as bit patterns.
pub uninterp spec fn add_bits(a: u64, b: u64) -> u64;

/// The IEEE 754 double-precision difference of two values given as bit patterns.
pub uninterp spec fn sub_bits(a: u64, b: u64) -> u64;

/// The IEEE 754 double-precision product of two values given as bit patterns.
pub uninterp spec fn mul_bits(a: u64, b: u64) -> u64;

/// The IEEE 754 double-precision quotient of two values given as bit patterns.
pub uninterp spec fn div_bits(a: u64, b: u64) -> u64;

/// The IEEE 754 double-precision square root of a value given as a bit pattern.
pub uninterp spec fn sqrt_bits(a: u64) -> u64;

/// The base-2 logarithm of a value given as a bit pattern.
pub uninterp spec fn log2_bits(a: u64) -> u64;

/// The base-10 logarithm of a value given as a bit pattern.
pub uninterp spec fn log10_bits(a: u64) -> u64;

/// Whether the double with bit pattern `a` compares strictly below the one
/// with bit pattern `b` (false whenever either is a NaN).
pub uninterp spec fn lt_bits(a: u64, b: u64) -> bool;

/// The bit pattern of the double nearest to a `u32` (always exact).
pub uninterp spec fn bits_of_u32(x: u32) -> u64;

/// The bit pattern of the double nearest to a `u64`.
pub uninterp spec fn bits_of_u64(x: u64) -> u64;

/// The value of the double with bit pattern `a`, truncated toward zero,
/// when that truncation lies in `0 ..= 255`; `None` otherwise.
pub uninterp spec fn u8_of_bits(a: u64) -> Option<u8>;

/// Relies on `f64` addition: the sum of two doubles is a function of their
/// bit patterns alone.
#[verifier::external_body]
pub(crate) fn f64_add(a: u64, b: u64) -> (r: u64)
    ensures
        r == add_bits(a, b),
{
    let v = num_complex::Complex64 { re: bytemuck::cast(a), im: bytemuck::cast(b) };
    let r: u64 = bytemuck::cast(v.re + v.im);
    r
}

/// Relies on `f64` subtraction: the difference of two doubles is a function
/// of their bit patterns alone.
#[verifier::external_body]
pub(crate) fn f64_sub(a: u64, b: u64) -> (r: u64)
    ensures
        r == sub_bits(a, b),
{
    let v = num_complex::Complex64 { re: bytemuck::cast(a), im: bytemuck::cast(b) };
    let r: u64 = bytemuck::cast(v.re - v.im);
    r
}

/// Relies on `f64` multiplication: the product of two doubles is a function
/// of their bit patterns alone.
#[verifier::external_body]
pub(crate) fn f64_mul(a: u64, b: u64) -> (r: u64)
    ensures
        r == mul_bits(a, b),
{
    let v = num_complex::Complex64 { re: bytemuck::cast(a), im: bytemuck::cast(b) };
    let r: u64 = bytemuck::cast(v.re * v.im);
    r
}

/// Relies on `f64` division: the quotient of two doubles is a function of
/// their bit patterns alone.
#[verifier::external_body]
pub(crate) fn f64_div(a: u64, b: u64) -> (r: u64)
    ensures
        r == div_bits(a, b),
{
    let v = num_complex::Complex64 { re: bytemuck::cast(a), im: bytemuck::cast(b) };
    let r: u64 = bytemuck::cast(v.re / v.im);
    r
}

/// Relies on `libm::sqrt`, the IEEE 754 square root, a function of the
/// operand bit pattern alone.
#[verifier::external_body]
pub(crate) fn f64_sqrt(a: u64) -> (r: u64)
    ensures
        r == sqrt_bits(a),
{
    let r: u64 = bytemuck::cast(libm::sqrt(bytemuck::cast(a)));
    r
}

/// Relies on `libm::log2`: a function of the operand bit pattern alone.
#[verifier::external_body]
pub(crate) fn f64_log2(a: u64) -> (r: u64)
    ensures
        r == log2_bits(a),
{
    let r: u64 = bytemuck::cast(libm::log2(bytemuck::cast(a)));
    r
}

/// Relies on `libm::log10`: a function of the operand bit pattern alone.
#[verifier::external_body]
pub(crate) fn f64_log10(a: u64) -> (r: u64)
    ensures
        r == log10_bits(a),
{
    let r: u64 = bytemuck::cast(libm::log10(bytemuck::cast(a)));
    r
}

/// Relies on the `f64` `<` comparison, a function of the operand bit
/// patterns alone.
#[verifier::external_body]
pub(crate) fn f64_lt(a: u64, b: u64) -> (r: bool)
    ensures
        r == lt_bits(a, b),
{
    let v = num_complex::Complex64 { re: bytemuck::cast(a), im: bytemuck::cast(b) };
    v.re < v.im
}

/// Relies on `num_traits::cast` from `u32` to a double, which is `x as f64`
/// and always succeeds; the conversion is exact.
#[verifier::external_body]
pub(crate) fn f64_of_u32(x: u32) -> (r: u64)
    ensures
        r == bits_of_u32(x),
{
    let v = num_complex::Complex64 { re: num_traits::cast(x).unwrap(), im: num_traits::cast(x).unwrap() };
    let r: u64 = bytemuck::cast(v.re);
    r
}

/// Relies on `num_traits::cast` from `u64` to a double, which is `x as f64`
/// (round to nearest) and always succeeds.
#[verifier::external_body]
pub(crate) fn f64_of_u64(x: u64) -> (r: u64)
    ensures
        r == bits_of_u64(x),
{
    let v = num_complex::Complex64 { re: num_traits::cast(x).unwrap(), im: num_traits::cast(x).unwrap() };
    let r: u64 = bytemuck::cast(v.re);
    r
}

/// Relies on `num_traits::cast` from a double to `u8`: the truncation when
/// the value lies strictly between -1 and 256, `None` otherwise (NaN
/// included).
#[verifier::external_body]
pub(crate) fn f64_to_u8(a: u64) -> (r: Option<u8>)
    ensures
        r == u8_of_bits(a),
{
    let v = num_complex::Complex64 { re: bytemuck::cast(a), im: bytemuck::cast(a) };
    num_traits::cast(v.re)
}

} // verus!
