//! Scalar arithmetic over IEEE-754 bit patterns.
//!
//! Verified code never holds a floating-point value: every scalar travels as
//! the `u64` bit pattern of a double-precision value, or of a single-precision
//! value kept in the low 32 bits of a `u64`. The rounded operations —
//! addition, multiplication, division and narrowing — pair an uninterpreted
//! name for the operation's result with a trusted wrapper that computes it
//! through `rustc_apfloat`, a software implementation of IEEE-754 binary
//! arithmetic; the verified layers state their contracts purely as
//! compositions of these names. The comparisons with zero and the absolute
//! value reduce to one line of integer logic on the encoding, so they are
//! stated as open specifications and implemented as verified bit tests, with
//! nothing taken on trust.
//!
//! `rustc_apfloat` rounds to nearest, ties to even — the IEEE-754 default and
//! the rounding every mainstream target uses for these operations — so each
//! named result agrees bit for bit with the platform's own arithmetic on all
//! numeric operands (NaN payload conventions are the implementation's own).

use vstd::prelude::*;
use rustc_apfloat::Float;
use rustc_apfloat::FloatConvert;
use rustc_apfloat::Round;
use rustc_apfloat::ieee::Double;
use rustc_apfloat::ieee::Single;

verus! {

/// The bit pattern that double-precision addition returns for the given operand patterns.
pub uninterp spec fn add64_bits(a: u64, b: u64) -> u64;

/// Relies on `rustc_apfloat::ieee::Double`'s `Float::add_r` (IEEE-754 binary64
/// addition, round to nearest even): the result is a function of the operand
/// bit patterns alone.
#[verifier::external_body]
pub fn f64_add(a: u64, b: u64) -> (r: u64)
    ensures
        r == add64_bits(a, b),
{
    Double::from_bits(a as u128)
        .add_r(Double::from_bits(b as u128), Round::NearestTiesToEven)
        .value
        .to_bits() as u64
}

/// The bit pattern that double-precision multiplication returns for the given operand patterns.
pub uninterp spec fn mul64_bits(a: u64, b: u64) -> u64;

/// Relies on `rustc_apfloat::ieee::Double`'s `Float::mul_r` (IEEE-754 binary64
/// multiplication, round to nearest even): the result is a function of the
/// operand bit patterns alone.
#[verifier::external_body]
pub fn f64_mul(a: u64, b: u64) -> (r: u64)
    ensures
        r == mul64_bits(a, b),
{
    Double::from_bits(a as u128)
        .mul_r(Double::from_bits(b as u128), Round::NearestTiesToEven)
        .value
        .to_bits() as u64
}

/// The bit pattern that double-precision division returns for the given operand patterns.
pub uninterp spec fn div64_bits(a: u64, b: u64) -> u64;

/// Relies on `rustc_apfloat::ieee::Double`'s `Float::div_r` (IEEE-754 binary64
/// division, round to nearest even): the result is a function of the operand
/// bit patterns alone.
#[verifier::external_body]
pub fn f64_div(a: u64, b: u64) -> (r: u64)
    ensures
        r == div64_bits(a, b),
{
    Double::from_bits(a as u128)
        .div_r(Double::from_bits(b as u128), Round::NearestTiesToEven)
        .value
        .to_bits() as u64
}

/// Whether the double-precision value with the given bit pattern compares
/// strictly greater than positive zero. On the encoding this is exactly the
/// patterns from the smallest positive subnormal through positive infinity:
/// the sign bit clear and not a NaN (everything above positive infinity's
/// pattern is a NaN, which compares unordered, hence not greater). Plain
/// integer logic; no outside call is needed.
pub open spec fn gt_zero64_bits(a: u64) -> bool {
    1 <= a <= 0x7FF0_0000_0000_0000
}

pub fn f64_gt_zero(a: u64) -> (r: bool)
    ensures
        r == gt_zero64_bits(a),
{
    1 <= a && a <= 0x7FF0_0000_0000_0000
}

/// Whether the double-precision value with the given bit pattern compares
/// equal to zero: both signed zeros qualify — the pattern with the sign bit
/// cleared is all zero — and a NaN, being unequal to everything, does not.
pub open spec fn eq_zero64_bits(a: u64) -> bool {
    a & 0x7FFF_FFFF_FFFF_FFFF == 0
}

pub fn f64_eq_zero(a: u64) -> (r: bool)
    ensures
        r == eq_zero64_bits(a),
{
    a & 0x7FFF_FFFF_FFFF_FFFF == 0
}

/// The bit pattern that single-precision addition returns for the given
/// operand patterns (operands and result in the low 32 bits).
pub uninterp spec fn add32_bits(a: u64, b: u64) -> u64;

/// Relies on `rustc_apfloat::ieee::Single`'s `Float::add_r` (IEEE-754 binary32
/// addition, round to nearest even): the result is a function of the operand
/// bit patterns alone.
#[verifier::external_body]
pub fn f32_add(a: u64, b: u64) -> (r: u64)
    ensures
        r == add32_bits(a, b),
{
    Single::from_bits(a as u32 as u128)
        .add_r(Single::from_bits(b as u32 as u128), Round::NearestTiesToEven)
        .value
        .to_bits() as u64
}

/// The bit pattern that single-precision multiplication returns for the given
/// operand patterns (operands and result in the low 32 bits).
pub uninterp spec fn mul32_bits(a: u64, b: u64) -> u64;

/// Relies on `rustc_apfloat::ieee::Single`'s `Float::mul_r` (IEEE-754 binary32
/// multiplication, round to nearest even): the result is a function of the
/// operand bit patterns alone.
#[verifier::external_body]
pub fn f32_mul(a: u64, b: u64) -> (r: u64)
    ensures
        r == mul32_bits(a, b),
{
    Single::from_bits(a as u32 as u128)
        .mul_r(Single::from_bits(b as u32 as u128), Round::NearestTiesToEven)
        .value
        .to_bits() as u64
}

/// The bit pattern that single-precision division returns for the given
/// operand patterns (operands and result in the low 32 bits).
pub uninterp spec fn div32_bits(a: u64, b: u64) -> u64;

/// Relies on `rustc_apfloat::ieee::Single`'s `Float::div_r` (IEEE-754 binary32
/// division, round to nearest even): the result is a function of the operand
/// bit patterns alone.
#[verifier::external_body]
pub fn f32_div(a: u64, b: u64) -> (r: u64)
    ensures
        r == div32_bits(a, b),
{
    Single::from_bits(a as u32 as u128)
        .div_r(Single::from_bits(b as u32 as u128), Round::NearestTiesToEven)
        .value
        .to_bits() as u64
}

/// Whether the single-precision value with the given bit pattern (low 32
/// bits) compares strictly greater than positive zero: the low word ranges
/// from the smallest positive subnormal through positive infinity — sign bit
/// clear and not a NaN. Plain integer logic; no outside call is needed.
pub open spec fn gt_zero32_bits(a: u64) -> bool {
    1 <= (a & 0xFFFF_FFFF) <= 0x7F80_0000
}

pub fn f32_gt_zero(a: u64) -> (r: bool)
    ensures
        r == gt_zero32_bits(a),
{
    let low = a & 0xFFFF_FFFF;
    1 <= low && low <= 0x7F80_0000
}

/// Whether the single-precision value with the given bit pattern (low 32
/// bits) compares equal to zero: both signed zeros qualify, a NaN does not.
pub open spec fn eq_zero32_bits(a: u64) -> bool {
    a & 0x7FFF_FFFF == 0
}

pub fn f32_eq_zero(a: u64) -> (r: bool)
    ensures
        r == eq_zero32_bits(a),
{
    a & 0x7FFF_FFFF == 0
}

/// The absolute value of a double-precision bit pattern. IEEE-754 defines
/// `abs` as clearing the sign bit of the encoding, so this operation is plain
/// integer logic and needs no outside call.
pub open spec fn abs64_bits(a: u64) -> u64 {
    a & 0x7FFF_FFFF_FFFF_FFFF
}

pub fn f64_abs(a: u64) -> (r: u64)
    ensures
        r == abs64_bits(a),
{
    a & 0x7FFF_FFFF_FFFF_FFFF
}

/// The absolute value of a single-precision bit pattern kept in the low 32
/// bits: the sign bit of the encoding is cleared (and any stray high bits
/// with it).
pub open spec fn abs32_bits(a: u64) -> u64 {
    a & 0x7FFF_FFFF
}

pub fn f32_abs(a: u64) -> (r: u64)
    ensures
        r == abs32_bits(a),
{
    a & 0x7FFF_FFFF
}

/// The single-precision bit pattern (low 32 bits) that rounding the
/// double-precision value with the given bit pattern to single precision
/// returns — the `as`-cast narrowing baked into compiled weights.
pub uninterp spec fn narrow_bits(a: u64) -> u64;

/// Relies on `rustc_apfloat`'s `FloatConvert::convert_r` from `ieee::Double`
/// to `ieee::Single` (IEEE-754 conversion, round to nearest even — the
/// semantics of Rust's `as` narrowing): the result is a function of the
/// argument's bit pattern alone.
#[verifier::external_body]
pub fn f64_to_f32(a: u64) -> (r: u64)
    ensures
        r == narrow_bits(a),
{
    let mut loses_info: bool = false;
    let narrowed: rustc_apfloat::StatusAnd<Single> =
        Double::from_bits(a as u128).convert_r(Round::NearestTiesToEven, &mut loses_info);
    narrowed.value.to_bits() as u64
}

} // verus!
