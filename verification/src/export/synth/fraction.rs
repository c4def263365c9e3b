//! Exact numbers.

use vstd::prelude::*;

verus! {

/// A number that is not negative, as a quotient.
#[derive(Debug, Clone, Copy, PartialEq, Eq, Structural)]
pub struct Fraction {
    pub num: u64,
    pub den: u64,
}

} // verus!
