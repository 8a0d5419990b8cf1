//! Exact coordinates on a hex map.

use vstd::prelude::*;

verus! {

/// The number `whole + root * √3`.
#[derive(Clone, Copy, Debug, PartialEq, Eq, Structural)]
pub struct Surd {
    pub whole: i64,
    pub root: i64,
}

/// Whether `whole + root * √3` is greater than zero.
///
/// Where the two parts have opposite signs, the one with the larger square wins.
pub open spec fn is_positive(whole: int, root: int) -> bool {
    if whole >= 0 && root >= 0 {
        whole > 0 || root > 0
    } else if whole <= 0 && root <= 0 {
        false
    } else if whole > 0 {
        whole * whole > 3 * (root * root)
    } else {
        3 * (root * root) > whole * whole
    }
}

impl Surd {
    /// The order of the numbers that two surds stand for.
    pub open spec fn below(self, other: Surd) -> bool {
        is_positive(other.whole - self.whole, other.root - self.root)
    }
}

} // verus!
