//! Integer activation functions for 16-bit fixed-width networks.

use vstd::prelude::*;

verus! {

pub fn linear(x: i16) -> (r: i16)
    ensures
        r == x,
{
    x
}

pub fn threshold(x: i16) -> (r: i16)
    ensures
        r == if x > 0 {
            1i16
        } else {
            0i16
        },
{
    if x > 0 {
        1
    } else {
        0
    }
}

} // verus!
