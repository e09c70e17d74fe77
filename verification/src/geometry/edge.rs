//! Lines in the plane.
use vstd::prelude::*;

verus! {

/// The line `a * x + b * y + c = 0`.
#[derive(Debug, Clone, Copy, PartialEq)]
pub struct Edge<Data> {
    pub a: Data,
    pub b: Data,
    pub c: Data,
}

} // verus!
