//! The target numeric width of a compiled program, and width-dispatched
//! scalar operations.
//!
//! A genome's weights are stored as double-precision bit patterns. Choosing
//! `Float32` narrows every weight once, at compile time; execution then runs
//! entirely in single precision, mirroring a program emitted for `f32`.

use vstd::prelude::*;
use crate::math;

verus! {

/// Supported numeric widths for a compiled program: IEEE-754 binary64 or binary32.
#[derive(Clone, Copy, Debug, PartialEq, Eq, Structural)]
pub enum NumericType {
    Float64,
    Float32,
}

impl NumericType {
    /// The byte size of the chosen numeric width.
    pub open spec fn spec_size_of(self) -> usize {
        match self {
            NumericType::Float64 => 8,
            NumericType::Float32 => 4,
        }
    }

    /// Provide the byte size of the chosen numeric type.
    pub fn size_of(&self) -> (r: usize)
        ensures
            r == self.spec_size_of(),
    {
        match self {
            NumericType::Float64 => 8,
            NumericType::Float32 => 4,
        }
    }

    /// The bit pattern a double-precision weight compiles to at this width:
    /// unchanged for `Float64`, rounded to single precision for `Float32`.
    pub open spec fn spec_conversion(self, base: u64) -> u64 {
        match self {
            NumericType::Float64 => base,
            NumericType::Float32 => math::narrow_bits(base),
        }
    }

    /// Take a standard double-precision input (as its bit pattern) and convert
    /// it to the desired numeric width. Applied exactly once to every weight
    /// and bias constant during compilation.
    pub fn naive_conversion(&self, base: u64) -> (r: u64)
        ensures
            r == self.spec_conversion(base),
    {
        match self {
            NumericType::Float64 => base,
            NumericType::Float32 => math::f64_to_f32(base),
        }
    }
}

/// Addition at the given width.
pub open spec fn sem_add(w: NumericType, a: u64, b: u64) -> u64 {
    match w {
        NumericType::Float64 => math::add64_bits(a, b),
        NumericType::Float32 => math::add32_bits(a, b),
    }
}

/// Multiplication at the given width.
pub open spec fn sem_mul(w: NumericType, a: u64, b: u64) -> u64 {
    match w {
        NumericType::Float64 => math::mul64_bits(a, b),
        NumericType::Float32 => math::mul32_bits(a, b),
    }
}

/// Division at the given width.
pub open spec fn sem_div(w: NumericType, a: u64, b: u64) -> u64 {
    match w {
        NumericType::Float64 => math::div64_bits(a, b),
        NumericType::Float32 => math::div32_bits(a, b),
    }
}

/// Strictly-greater-than-zero comparison at the given width.
pub open spec fn sem_gt_zero(w: NumericType, a: u64) -> bool {
    match w {
        NumericType::Float64 => math::gt_zero64_bits(a),
        NumericType::Float32 => math::gt_zero32_bits(a),
    }
}

/// Absolute value at the given width (a sign-bit clear on the encoding).
pub open spec fn sem_abs(w: NumericType, a: u64) -> u64 {
    match w {
        NumericType::Float64 => math::abs64_bits(a),
        NumericType::Float32 => math::abs32_bits(a),
    }
}

/// Equal-to-zero comparison at the given width.
pub open spec fn sem_eq_zero(w: NumericType, a: u64) -> bool {
    match w {
        NumericType::Float64 => math::eq_zero64_bits(a),
        NumericType::Float32 => math::eq_zero32_bits(a),
    }
}

pub fn num_add(w: NumericType, a: u64, b: u64) -> (r: u64)
    ensures
        r == sem_add(w, a, b),
{
    match w {
        NumericType::Float64 => math::f64_add(a, b),
        NumericType::Float32 => math::f32_add(a, b),
    }
}

pub fn num_mul(w: NumericType, a: u64, b: u64) -> (r: u64)
    ensures
        r == sem_mul(w, a, b),
{
    match w {
        NumericType::Float64 => math::f64_mul(a, b),
        NumericType::Float32 => math::f32_mul(a, b),
    }
}

pub fn num_div(w: NumericType, a: u64, b: u64) -> (r: u64)
    ensures
        r == sem_div(w, a, b),
{
    match w {
        NumericType::Float64 => math::f64_div(a, b),
        NumericType::Float32 => math::f32_div(a, b),
    }
}

pub fn num_gt_zero(w: NumericType, a: u64) -> (r: bool)
    ensures
        r == sem_gt_zero(w, a),
{
    match w {
        NumericType::Float64 => math::f64_gt_zero(a),
        NumericType::Float32 => math::f32_gt_zero(a),
    }
}

pub fn num_abs(w: NumericType, a: u64) -> (r: u64)
    ensures
        r == sem_abs(w, a),
{
    match w {
        NumericType::Float64 => math::f64_abs(a),
        NumericType::Float32 => math::f32_abs(a),
    }
}

pub fn num_eq_zero(w: NumericType, a: u64) -> (r: bool)
    ensures
        r == sem_eq_zero(w, a),
{
    match w {
        NumericType::Float64 => math::f64_eq_zero(a),
        NumericType::Float32 => math::f32_eq_zero(a),
    }
}

} // verus!
