//! Double-precision activation functions over bit patterns.

use vstd::prelude::*;
use crate::activations::Activation;
use crate::activations::F64_NEG_ONE_BITS;
use crate::activations::F64_ONE_BITS;
use crate::activations::sem_activation;
use crate::math;
use crate::numeric::NumericType;

verus! {

pub fn linear(x: u64) -> (r: u64)
    ensures
        r == sem_activation(NumericType::Float64, Activation::Linear, x),
{
    x
}

pub fn threshold(x: u64) -> (r: u64)
    ensures
        r == sem_activation(NumericType::Float64, Activation::Threshold, x),
{
    if math::f64_gt_zero(x) {
        F64_ONE_BITS
    } else {
        0
    }
}

pub fn relu(x: u64) -> (r: u64)
    ensures
        r == sem_activation(NumericType::Float64, Activation::Relu, x),
{
    if math::f64_gt_zero(x) {
        x
    } else {
        0
    }
}

pub fn sign(x: u64) -> (r: u64)
    ensures
        r == sem_activation(NumericType::Float64, Activation::Sign, x),
{
    if math::f64_gt_zero(x) {
        F64_ONE_BITS
    } else if math::f64_eq_zero(x) {
        0
    } else {
        F64_NEG_ONE_BITS
    }
}

pub fn soft_sign(x: u64) -> (r: u64)
    ensures
        r == sem_activation(NumericType::Float64, Activation::SoftSign, x),
{
    let denominator = math::f64_add(F64_ONE_BITS, math::f64_abs(x));
    math::f64_div(x, denominator)
}

} // verus!
