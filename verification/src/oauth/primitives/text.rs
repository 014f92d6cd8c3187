//! Comparing string slices.

use vstd::prelude::*;

verus! {

/// `str::eq` of the standard library: two string slices are equal exactly when they
/// hold the same characters. Trusted.
pub assume_specification[ <str as PartialEq>::eq ](a: &str, b: &str) -> (equal: bool)
    ensures
        equal == (a@ == b@),
;

} // verus!
