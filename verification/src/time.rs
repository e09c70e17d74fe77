//! What this crate takes on trust about `std::time::Duration`.
//!
//! A `Duration` is opaque to the verifier. The library reads it exactly once,
//! through `as_nanos`, and works on the integer from there on.
use vstd::prelude::*;
use std::time::Duration;

verus! {

/// The length of a `Duration` as a whole number of nanoseconds: the value that
/// `Duration::as_nanos` returns for it.
pub uninterp spec fn duration_nanos(d: Duration) -> nat;

/// `Duration::as_nanos` of the standard library, which returns the total
/// number of nanoseconds contained in the duration. Nothing is proved of it;
/// the contract only says that the result is a function of the duration, and
/// gives that function its name.
pub assume_specification[ Duration::as_nanos ](d: &Duration) -> (n: u128)
    ensures
        n == duration_nanos(*d),
;

} // verus!
