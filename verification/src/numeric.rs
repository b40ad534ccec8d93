//! Scalar arithmetic for the engine.
//!
//! Every real-valued quantity in this crate (link weights, neuron outputs,
//! fitness scores, compatibility distances) is carried as the bit pattern of
//! an IEEE 754 binary64 number, stored in a `u64`.  The crate never interprets
//! these bits itself: arithmetic is delegated to the `rustc_apfloat` software
//! implementation of IEEE 754, whose operations are pure functions of the
//! operand bit patterns.  Each operation is named by an uninterpreted spec
//! function, so contracts can state exactly how a result is composed without
//! restating IEEE 754.
use vstd::prelude::*;
use rustc_apfloat::Float;

verus! {

/// Bit pattern of +0.0.
pub const ZERO_BITS: u64 = 0;

/// Bit pattern of 1.0.
pub const ONE_BITS: u64 = 0x3FF0_0000_0000_0000;

/// Bit pattern of 2^20, used for the exponential approximation.
pub const TWO_POW_20_BITS: u64 = 0x4130_0000_0000_0000;

/// Bit pattern of 2^53, used to scale raw 53-bit draws into [0, 1).
pub const TWO_POW_53_BITS: u64 = 0x4340_0000_0000_0000;

/// IEEE 754 binary64 addition (round to nearest, ties to even).
pub uninterp spec fn add_bits(a: u64, b: u64) -> u64;

/// IEEE 754 binary64 subtraction (round to nearest, ties to even).
pub uninterp spec fn sub_bits(a: u64, b: u64) -> u64;

/// IEEE 754 binary64 multiplication (round to nearest, ties to even).
pub uninterp spec fn mul_bits(a: u64, b: u64) -> u64;

/// IEEE 754 binary64 division (round to nearest, ties to even).
pub uninterp spec fn div_bits(a: u64, b: u64) -> u64;

/// The binary64 value nearest to the unsigned integer `n`.
pub uninterp spec fn double_of_u64(n: u64) -> u64;

/// The binary64 value `x` converted to an unsigned integer, rounding toward
/// zero and saturating at the bounds of `u64`.
pub uninterp spec fn u64_of_double(x: u64) -> u64;

/// Relies on `rustc_apfloat::ieee::Double`'s `Add` (binary64 addition,
/// nearest-even rounding): the result depends on the operand bits alone.
#[verifier::external_body]
pub fn f64_add(a: u64, b: u64) -> (r: u64)
    ensures
        r == add_bits(a, b),
{
    let x = rustc_apfloat::ieee::Double::from_bits(a as u128);
    let y = rustc_apfloat::ieee::Double::from_bits(b as u128);
    (x + y).value.to_bits() as u64
}

/// Relies on `rustc_apfloat::ieee::Double`'s `Sub` (binary64 subtraction,
/// nearest-even rounding): the result depends on the operand bits alone.
#[verifier::external_body]
pub fn f64_sub(a: u64, b: u64) -> (r: u64)
    ensures
        r == sub_bits(a, b),
{
    let x = rustc_apfloat::ieee::Double::from_bits(a as u128);
    let y = rustc_apfloat::ieee::Double::from_bits(b as u128);
    (x - y).value.to_bits() as u64
}

/// Relies on `rustc_apfloat::ieee::Double`'s `Mul` (binary64 multiplication,
/// nearest-even rounding): the result depends on the operand bits alone.
#[verifier::external_body]
pub fn f64_mul(a: u64, b: u64) -> (r: u64)
    ensures
        r == mul_bits(a, b),
{
    let x = rustc_apfloat::ieee::Double::from_bits(a as u128);
    let y = rustc_apfloat::ieee::Double::from_bits(b as u128);
    (x * y).value.to_bits() as u64
}

/// Relies on `rustc_apfloat::ieee::Double`'s `Div` (binary64 division,
/// nearest-even rounding): the result depends on the operand bits alone.
#[verifier::external_body]
pub fn f64_div(a: u64, b: u64) -> (r: u64)
    ensures
        r == div_bits(a, b),
{
    let x = rustc_apfloat::ieee::Double::from_bits(a as u128);
    let y = rustc_apfloat::ieee::Double::from_bits(b as u128);
    (x / y).value.to_bits() as u64
}

/// Relies on `rustc_apfloat::Float::from_u128` (integer to binary64
/// conversion, nearest-even rounding): a pure function of `n`.
#[verifier::external_body]
pub fn f64_from_u64(n: u64) -> (r: u64)
    ensures
        r == double_of_u64(n),
{
    rustc_apfloat::ieee::Double::from_u128(n as u128).value.to_bits() as u64
}

/// Relies on `rustc_apfloat::Float::to_u128` (binary64 to integer conversion,
/// rounding toward zero, saturating): a pure function of `x`.
#[verifier::external_body]
pub fn f64_to_u64(x: u64) -> (r: u64)
    ensures
        r == u64_of_double(x),
{
    let v = rustc_apfloat::ieee::Double::from_bits(x as u128);
    v.to_u128(64).value as u64
}

/// The unit-interval scalar derived from a raw draw: the top 53 bits of the
/// draw, converted exactly to binary64 and divided by 2^53, giving a value in
/// `[0, 1)`.
pub open spec fn unit_bits(draw: u64) -> u64 {
    div_bits(double_of_u64(draw >> 11), TWO_POW_53_BITS)
}

/// Maps a binary64 bit pattern to a key whose unsigned-integer order is the
/// IEEE 754 total order restricted to non-NaN values: negative values sort
/// below positive ones, and within each sign the order follows the numeric
/// value.  NaN patterns sort at the extremes.
pub open spec fn order_key(f: u64) -> u64 {
    if f >= 0x8000_0000_0000_0000 {
        !f
    } else {
        (f + 0x8000_0000_0000_0000) as u64
    }
}

/// Executable form of `order_key`.
pub fn exec_order_key(f: u64) -> (r: u64)
    ensures
        r == order_key(f),
{
    if f >= 0x8000_0000_0000_0000 {
        !f
    } else {
        f + 0x8000_0000_0000_0000
    }
}

/// `a` sorts strictly before `b` in the descending-value order used for
/// fitness ranking.
pub open spec fn desc_before(a: u64, b: u64) -> bool {
    order_key(a) > order_key(b)
}

/// Executable comparison: is the value with bits `a` strictly greater than
/// the value with bits `b` under the total order?
pub fn scalar_gt(a: u64, b: u64) -> (r: bool)
    ensures
        r == desc_before(a, b),
{
    exec_order_key(a) > exec_order_key(b)
}

/// The square `y^(2^k)` computed by `k` repeated squarings.
pub open spec fn pow2k_bits(y: u64, k: nat) -> u64
    decreases k,
{
    if k == 0 {
        y
    } else {
        let p = pow2k_bits(y, (k - 1) as nat);
        mul_bits(p, p)
    }
}

/// The exponential approximation used by this engine:
/// `exp(x) ~ (1 + x / 2^20)^(2^20)`, evaluated by 20 squarings.
pub open spec fn exp_approx_bits(x: u64) -> u64 {
    pow2k_bits(add_bits(ONE_BITS, div_bits(x, TWO_POW_20_BITS)), 20)
}

/// The sigmoid response `1 / (1 + exp(-net_input / response))`, with the
/// exponential replaced by `exp_approx_bits`.
pub open spec fn sigmoid_bits(net_input: u64, response: u64) -> u64 {
    let x = sub_bits(ZERO_BITS, div_bits(net_input, response));
    div_bits(ONE_BITS, add_bits(ONE_BITS, exp_approx_bits(x)))
}

/// S-shaped response curve applied to a neuron's summed, weighted input.
///
/// The exact `e^x` is not available from the software float library, so the
/// engine uses the classical limit form `(1 + x/n)^n` with `n = 2^20`, which
/// agrees with the exact sigmoid to a few parts in a million over the range
/// reachable with clamped weights.
pub fn sigmoid(net_input: u64, response: u64) -> (r: u64)
    ensures
        r == sigmoid_bits(net_input, response),
{
    let x = f64_sub(ZERO_BITS, f64_div(net_input, response));
    let base = f64_add(ONE_BITS, f64_div(x, TWO_POW_20_BITS));
    let mut y: u64 = base;
    let mut k: usize = 0;
    while k < 20
        invariant
            k <= 20,
            y == pow2k_bits(base, k as nat),
        decreases 20 - k,
    {
        y = f64_mul(y, y);
        k = k + 1;
    }
    f64_div(ONE_BITS, f64_add(ONE_BITS, y))
}

} // verus!
