//! Sample arithmetic. A sample is an IEEE 754 single-precision value carried
//! as its `u32` bit pattern, so that the filter's arithmetic is a pure
//! function of bit patterns. The four arithmetic operations and the
//! integer-to-single conversion are performed by `rustc_apfloat`, a software
//! implementation of IEEE 754 whose results depend on the operands alone;
//! everything built from them is verified against their names.

use rustc_apfloat::Float;
use rustc_apfloat::ieee::Single;
use vstd::prelude::*;

verus! {

/// Bit pattern of the single-precision value `1.0`.
pub const ONE_BITS: u32 = 0x3F80_0000;

/// Bit pattern of the single-precision value nearest to `2 * pi`.
pub const TWO_PI_BITS: u32 = 0x40C9_0FDB;

pub uninterp spec fn f32_add(x: u32, y: u32) -> u32;

pub uninterp spec fn f32_sub(x: u32, y: u32) -> u32;

pub uninterp spec fn f32_mul(x: u32, y: u32) -> u32;

pub uninterp spec fn f32_div(x: u32, y: u32) -> u32;

pub uninterp spec fn f32_of_uint(n: u32) -> u32;

/// Relies on `rustc_apfloat::ieee::Single` addition (round to nearest, ties
/// to even): the IEEE 754 single-precision sum of the two bit patterns, a
/// function of the arguments alone.
#[verifier::external_body]
fn add_bits(x: u32, y: u32) -> (r: u32)
    ensures
        r == f32_add(x, y),
{
    (Single::from_bits(x as u128) + Single::from_bits(y as u128)).value.to_bits() as u32
}

/// Relies on `rustc_apfloat::ieee::Single` subtraction (round to nearest,
/// ties to even): the IEEE 754 single-precision difference of the two bit
/// patterns, a function of the arguments alone.
#[verifier::external_body]
fn sub_bits(x: u32, y: u32) -> (r: u32)
    ensures
        r == f32_sub(x, y),
{
    (Single::from_bits(x as u128) - Single::from_bits(y as u128)).value.to_bits() as u32
}

/// Relies on `rustc_apfloat::ieee::Single` multiplication (round to nearest,
/// ties to even): the IEEE 754 single-precision product of the two bit
/// patterns, a function of the arguments alone.
#[verifier::external_body]
fn mul_bits(x: u32, y: u32) -> (r: u32)
    ensures
        r == f32_mul(x, y),
{
    (Single::from_bits(x as u128) * Single::from_bits(y as u128)).value.to_bits() as u32
}

/// Relies on `rustc_apfloat::ieee::Single` division (round to nearest, ties
/// to even): the IEEE 754 single-precision quotient of the two bit patterns,
/// a function of the arguments alone; division by zero yields an infinity,
/// never a panic.
#[verifier::external_body]
fn div_bits(x: u32, y: u32) -> (r: u32)
    ensures
        r == f32_div(x, y),
{
    (Single::from_bits(x as u128) / Single::from_bits(y as u128)).value.to_bits() as u32
}

/// Relies on `rustc_apfloat::Float::from_u128` (round to nearest, ties to
/// even): the single-precision value nearest to the integer, a function of
/// the argument alone.
#[verifier::external_body]
fn uint_bits(n: u32) -> (r: u32)
    ensures
        r == f32_of_uint(n),
{
    Single::from_u128(n as u128).value.to_bits() as u32
}

/// One step of the one-pole recurrence: `prev + a * (x - prev)`.
pub open spec fn lp_step(a: u32, prev: u32, x: u32) -> u32 {
    f32_add(prev, f32_mul(a, f32_sub(x, prev)))
}

/// Executable form of `lp_step`.
pub fn lp_step_bits(a: u32, prev: u32, x: u32) -> (r: u32)
    ensures
        r == lp_step(a, prev, x),
{
    add_bits(prev, mul_bits(a, sub_bits(x, prev)))
}

/// The smoothing coefficient `rc / (rc + dt)` of the single-channel
/// recurrence.
pub open spec fn mono_coeff(rc: u32, dt: u32) -> u32 {
    f32_div(rc, f32_add(rc, dt))
}

/// Executable form of `mono_coeff`.
pub fn mono_coeff_bits(rc: u32, dt: u32) -> (r: u32)
    ensures
        r == mono_coeff(rc, dt),
{
    div_bits(rc, add_bits(rc, dt))
}

/// The smoothing coefficient `dt / (rc + dt)` of the two-channel recurrence
/// (deliberately the complement of `mono_coeff`, as the two layouts use
/// different coefficient formulas).
pub open spec fn stereo_coeff(rc: u32, dt: u32) -> u32 {
    f32_div(dt, f32_add(rc, dt))
}

/// Executable form of `stereo_coeff`.
pub fn stereo_coeff_bits(rc: u32, dt: u32) -> (r: u32)
    ensures
        r == stereo_coeff(rc, dt),
{
    div_bits(dt, add_bits(rc, dt))
}

/// `1 / (2 * pi * x)`: maps a cutoff frequency to the time constant `rc`,
/// and, being its own inverse formula, a time constant back to the cutoff.
pub open spec fn recip_two_pi(x: u32) -> u32 {
    f32_div(ONE_BITS, f32_mul(TWO_PI_BITS, x))
}

/// Executable form of `recip_two_pi`.
pub fn recip_two_pi_bits(x: u32) -> (r: u32)
    ensures
        r == recip_two_pi(x),
{
    div_bits(ONE_BITS, mul_bits(TWO_PI_BITS, x))
}

/// The sampling interval `1 / rate` for a sample rate given as an integer.
pub open spec fn dt_of_rate(rate: u32) -> u32 {
    f32_div(ONE_BITS, f32_of_uint(rate))
}

/// Executable form of `dt_of_rate`.
pub fn dt_of_rate_bits(rate: u32) -> (r: u32)
    ensures
        r == dt_of_rate(rate),
{
    div_bits(ONE_BITS, uint_bits(rate))
}

} // verus!
