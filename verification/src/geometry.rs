//! Plane geometry: the outcome of a containment test, absolute values, and
//! coordinates and vectors over an arithmetic component type.
use vstd::prelude::*;

pub mod edge;
pub mod locations;

verus! {

/// Where a point lies relative to a closed curve.
#[derive(Debug, Clone, Copy, PartialEq, Eq, Structural)]
pub enum TestResult {
    Outside,
    Inside,
    Intersect,
}

/// Types with an absolute value.
pub trait Abs: Sized {
    /// Whether the absolute value of `self` can be represented in `Self`.
    spec fn has_abs(&self) -> bool;

    /// The absolute value of `self`, where it can be represented.
    spec fn abs_value(&self) -> Self;

    /// The absolute value of `self`.
    fn abs(&self) -> (r: Self)
        requires
            self.has_abs(),
        ensures
            r == self.abs_value(),
    ;
}

impl Abs for i32 {
    /// Every value but the smallest has its absolute value in `i32`.
    open spec fn has_abs(&self) -> bool {
        *self != i32::MIN
    }

    open spec fn abs_value(&self) -> i32 {
        if *self >= 0 {
            *self
        } else {
            (-*self) as i32
        }
    }

    fn abs(&self) -> (r: i32) {
        if *self > 0 {
            *self
        } else {
            -*self
        }
    }
}

impl Abs for i64 {
    /// Every value but the smallest has its absolute value in `i64`.
    open spec fn has_abs(&self) -> bool {
        *self != i64::MIN
    }

    open spec fn abs_value(&self) -> i64 {
        if *self >= 0 {
            *self
        } else {
            (-*self) as i64
        }
    }

    fn abs(&self) -> (r: i64) {
        if *self > 0 {
            *self
        } else {
            -*self
        }
    }
}

} // verus!
