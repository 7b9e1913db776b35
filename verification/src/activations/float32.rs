//! Single-precision activation functions over bit patterns (low 32 bits).

use vstd::prelude::*;
use crate::activations::Activation;
use crate::activations::F32_NEG_ONE_BITS;
use crate::activations::F32_ONE_BITS;
use crate::activations::sem_activation;
use crate::math;
use crate::numeric::NumericType;

verus! {

pub fn linear(x: u64) -> (r: u64)
    ensures
        r == sem_activation(NumericType::Float32, Activation::Linear, x),
{
    x
}

pub fn threshold(x: u64) -> (r: u64)
    ensures
        r == sem_activation(NumericType::Float32, Activation::Threshold, x),
{
    if math::f32_gt_zero(x) {
        F32_ONE_BITS
    } else {
        0
    }
}

pub fn relu(x: u64) -> (r: u64)
    ensures
        r == sem_activation(NumericType::Float32, Activation::Relu, x),
{
    if math::f32_gt_zero(x) {
        x
    } else {
        0
    }
}

pub fn sign(x: u64) -> (r: u64)
    ensures
        r == sem_activation(NumericType::Float32, Activation::Sign, x),
{
    if math::f32_gt_zero(x) {
        F32_ONE_BITS
    } else if math::f32_eq_zero(x) {
        0
    } else {
        F32_NEG_ONE_BITS
    }
}

pub fn soft_sign(x: u64) -> (r: u64)
    ensures
        r == sem_activation(NumericType::Float32, Activation::SoftSign, x),
{
    let denominator = math::f32_add(F32_ONE_BITS, math::f32_abs(x));
    math::f32_div(x, denominator)
}

} // verus!
