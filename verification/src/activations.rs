//! Activation functions, selected per network and applied to every neuron's
//! operand sum.
//!
//! The executor evaluates an activation exactly over bit patterns when its
//! formula needs only comparisons, sign-bit logic and the wrapped arithmetic:
//! `Linear`, `Threshold`, `Relu`, `Sign` and `SoftSign`. The remaining three —
//! `Sigmoid`, `Tanh` and `BentIdentity` — need the platform's `exp`, `tanh`
//! and `sqrt`, which no outside crate offers over plain bit patterns, so
//! verified code cannot compute them: their value is left unspecified here,
//! executing them is declined, and every theorem about execution is
//! conditioned on the activation being executable.

use vstd::prelude::*;
use vstd::pervasive::arbitrary;
use crate::numeric::NumericType;
use crate::numeric::sem_abs;
use crate::numeric::sem_add;
use crate::numeric::sem_div;
use crate::numeric::sem_eq_zero;
use crate::numeric::sem_gt_zero;

pub mod float32;
pub mod float64;
pub mod int16;

verus! {

/// The bit pattern of positive one in double precision.
pub const F64_ONE_BITS: u64 = 0x3FF0_0000_0000_0000;

/// The bit pattern of negative one in double precision.
pub const F64_NEG_ONE_BITS: u64 = 0xBFF0_0000_0000_0000;

/// The bit pattern of positive one in single precision (low 32 bits).
pub const F32_ONE_BITS: u64 = 0x3F80_0000;

/// The bit pattern of negative one in single precision (low 32 bits).
pub const F32_NEG_ONE_BITS: u64 = 0xBF80_0000;

/// The activation function a network applies at every neuron.
#[derive(Clone, Copy, Debug, PartialEq, Eq, Structural)]
pub enum Activation {
    /// `x`
    Linear,
    /// `x > 0 ? 1 : 0`
    Threshold,
    /// `x > 0 ? x : 0`
    Relu,
    /// `x > 0 ? 1 : (x == 0 ? 0 : -1)`
    Sign,
    /// `1 / (1 + exp(-x))`
    Sigmoid,
    /// `tanh(x)`
    Tanh,
    /// `x / (1 + |x|)`
    SoftSign,
    /// `((sqrt(x² + 1) - 1) / 2) + x`
    BentIdentity,
}

impl Activation {
    /// Whether the executor can evaluate this activation exactly over bit
    /// patterns. `Sigmoid`, `Tanh` and `BentIdentity` need the platform's
    /// transcendental functions, which verified code cannot reach.
    pub open spec fn spec_executable(self) -> bool {
        match self {
            Activation::Linear => true,
            Activation::Threshold => true,
            Activation::Relu => true,
            Activation::Sign => true,
            Activation::SoftSign => true,
            Activation::Sigmoid => false,
            Activation::Tanh => false,
            Activation::BentIdentity => false,
        }
    }

    pub fn executable(&self) -> (r: bool)
        ensures
            r == self.spec_executable(),
    {
        match self {
            Activation::Linear => true,
            Activation::Threshold => true,
            Activation::Relu => true,
            Activation::Sign => true,
            Activation::SoftSign => true,
            Activation::Sigmoid => false,
            Activation::Tanh => false,
            Activation::BentIdentity => false,
        }
    }
}

/// The bit pattern of positive one at the given width.
pub open spec fn one_bits(w: NumericType) -> u64 {
    match w {
        NumericType::Float64 => F64_ONE_BITS,
        NumericType::Float32 => F32_ONE_BITS,
    }
}

/// The bit pattern of negative one at the given width.
pub open spec fn neg_one_bits(w: NumericType) -> u64 {
    match w {
        NumericType::Float64 => F64_NEG_ONE_BITS,
        NumericType::Float32 => F32_NEG_ONE_BITS,
    }
}

/// The result of applying activation `a` at width `w` to the scalar with bit
/// pattern `x`. For the three activations that `spec_executable` excludes the
/// value is unspecified.
pub open spec fn sem_activation(w: NumericType, a: Activation, x: u64) -> u64 {
    match a {
        Activation::Linear => x,
        Activation::Threshold => if sem_gt_zero(w, x) {
            one_bits(w)
        } else {
            0
        },
        Activation::Relu => if sem_gt_zero(w, x) {
            x
        } else {
            0
        },
        Activation::Sign => if sem_gt_zero(w, x) {
            one_bits(w)
        } else if sem_eq_zero(w, x) {
            0
        } else {
            neg_one_bits(w)
        },
        Activation::SoftSign => sem_div(w, x, sem_add(w, one_bits(w), sem_abs(w, x))),
        Activation::Sigmoid => arbitrary(),
        Activation::Tanh => arbitrary(),
        Activation::BentIdentity => arbitrary(),
    }
}

/// Apply an executable activation at the given width.
pub fn apply_activation(w: NumericType, a: Activation, x: u64) -> (r: u64)
    requires
        a.spec_executable(),
    ensures
        r == sem_activation(w, a, x),
{
    match w {
        NumericType::Float64 => match a {
            Activation::Linear => float64::linear(x),
            Activation::Threshold => float64::threshold(x),
            Activation::Relu => float64::relu(x),
            Activation::Sign => float64::sign(x),
            Activation::SoftSign => float64::soft_sign(x),
            // Excluded by the precondition.
            Activation::Sigmoid | Activation::Tanh | Activation::BentIdentity => x,
        },
        NumericType::Float32 => match a {
            Activation::Linear => float32::linear(x),
            Activation::Threshold => float32::threshold(x),
            Activation::Relu => float32::relu(x),
            Activation::Sign => float32::sign(x),
            Activation::SoftSign => float32::soft_sign(x),
            // Excluded by the precondition.
            Activation::Sigmoid | Activation::Tanh | Activation::BentIdentity => x,
        },
    }
}

/// Whether the bit pattern encodes a NaN at the given width: the exponent
/// field all ones and a nonzero significand (either sign).
pub open spec fn sem_is_nan(w: NumericType, a: u64) -> bool {
    match w {
        NumericType::Float64 => a & 0x7FF0_0000_0000_0000 == 0x7FF0_0000_0000_0000 && a
            & 0x000F_FFFF_FFFF_FFFF != 0,
        NumericType::Float32 => a & 0x7F80_0000 == 0x7F80_0000 && a & 0x007F_FFFF != 0,
    }
}

/// A NaN compares neither greater than zero nor equal to zero.
pub proof fn lemma_nan_compares_unordered(w: NumericType, a: u64)
    requires
        sem_is_nan(w, a),
    ensures
        !sem_gt_zero(w, a),
        !sem_eq_zero(w, a),
{
    match w {
        NumericType::Float64 => {
            assert(!(1 <= a <= 0x7FF0_0000_0000_0000) && a & 0x7FFF_FFFF_FFFF_FFFF != 0)
                by (bit_vector)
                requires
                    a & 0x7FF0_0000_0000_0000 == 0x7FF0_0000_0000_0000 && a
                        & 0x000F_FFFF_FFFF_FFFF != 0,
            ;
        },
        NumericType::Float32 => {
            assert(!(1 <= (a & 0xFFFF_FFFF) <= 0x7F80_0000) && a & 0x7FFF_FFFF != 0)
                by (bit_vector)
                requires
                    a & 0x7F80_0000 == 0x7F80_0000 && a & 0x007F_FFFF != 0,
            ;
        },
    }
}

/// The threshold activation maps every NaN to zero: a comparison with a NaN
/// is false, so the negative branch is taken.
pub proof fn lemma_threshold_nan(w: NumericType, a: u64)
    requires
        sem_is_nan(w, a),
    ensures
        sem_activation(w, Activation::Threshold, a) == 0,
{
    lemma_nan_compares_unordered(w, a);
}

/// The ReLU activation never yields a negative or NaN pattern — its result is
/// zero or a pattern strictly greater than zero — it maps every NaN to zero,
/// and it is idempotent.
pub proof fn lemma_relu_range(w: NumericType, a: u64)
    ensures
        sem_activation(w, Activation::Relu, a) == 0 || sem_gt_zero(
            w,
            sem_activation(w, Activation::Relu, a),
        ),
        !sem_is_nan(w, sem_activation(w, Activation::Relu, a)),
        sem_is_nan(w, a) ==> sem_activation(w, Activation::Relu, a) == 0,
        sem_activation(w, Activation::Relu, sem_activation(w, Activation::Relu, a))
            == sem_activation(w, Activation::Relu, a),
{
    if sem_is_nan(w, a) {
        lemma_nan_compares_unordered(w, a);
    }
    let r = sem_activation(w, Activation::Relu, a);
    match w {
        NumericType::Float64 => {
            assert(1 <= r <= 0x7FF0_0000_0000_0000 ==> !(r & 0x7FF0_0000_0000_0000
                == 0x7FF0_0000_0000_0000 && r & 0x000F_FFFF_FFFF_FFFF != 0)) by (bit_vector);
            assert(!(1 <= 0u64 <= 0x7FF0_0000_0000_0000)) by (bit_vector);
            assert(!(0u64 & 0x7FF0_0000_0000_0000 == 0x7FF0_0000_0000_0000)) by (bit_vector);
        },
        NumericType::Float32 => {
            assert(1 <= (r & 0xFFFF_FFFF) <= 0x7F80_0000 ==> !(r & 0x7F80_0000 == 0x7F80_0000 && r
                & 0x007F_FFFF != 0)) by (bit_vector);
            assert(!(1 <= (0u64 & 0xFFFF_FFFF) <= 0x7F80_0000)) by (bit_vector);
            assert(!(0u64 & 0x7F80_0000 == 0x7F80_0000)) by (bit_vector);
        },
    }
}

/// The sign activation maps every NaN to negative one: both comparisons with
/// a NaN are false, so the final branch is taken.
pub proof fn lemma_sign_nan(w: NumericType, a: u64)
    requires
        sem_is_nan(w, a),
    ensures
        sem_activation(w, Activation::Sign, a) == neg_one_bits(w),
{
    lemma_nan_compares_unordered(w, a);
}

} // verus!
