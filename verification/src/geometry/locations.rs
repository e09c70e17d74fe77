//! Coordinates and vectors over an arithmetic component type.
use vstd::prelude::*;
use core::ops::{Add, Div, Mul, Neg, Sub};
use vstd::std_specs::ops::{AddSpec, MulSpec, SubSpec};

verus! {

/// A point of the plane with two components of type `Inner`.
pub trait Coord: Send + Sync + Copy {
    type Inner: Send + Sync + Copy + Sub<Output = Self::Inner> + Add<Output = Self::Inner> + Mul<
        Output = Self::Inner,
    > + Div<Output = Self::Inner> + Neg<Output = Self::Inner> + PartialEq;

    /// The first component.
    spec fn x_value(&self) -> Self::Inner;

    /// The second component.
    spec fn y_value(&self) -> Self::Inner;

    fn new(x: Self::Inner, y: Self::Inner) -> (c: Self)
        ensures
            c.x_value() == x,
            c.y_value() == y,
    ;

    fn x(&self) -> (x: Self::Inner)
        ensures
            x == self.x_value(),
    ;

    fn y(&self) -> (y: Self::Inner)
        ensures
            y == self.y_value(),
    ;

    /// The squared length `x * x + y * y` of the vector from the origin.
    fn magnitude2(&self) -> (m: Self::Inner)
        requires
            self.x_value().mul_req(self.x_value()),
            self.y_value().mul_req(self.y_value()),
            self.x_value().mul_spec(self.x_value()).add_req(
                self.y_value().mul_spec(self.y_value()),
            ),
            <Self::Inner as MulSpec>::obeys_mul_spec(),
        ensures
            <Self::Inner as AddSpec>::obeys_add_spec() ==> m == self.x_value().mul_spec(
                self.x_value(),
            ).add_spec(self.y_value().mul_spec(self.y_value())),
    {
        self.x() * self.x() + self.y() * self.y()
    }
}

/// A coordinate read as a vector from the origin.
pub trait Vector: Send + Sync + Copy + Coord {
    /// The vector that leads from `b` to `a`.
    fn from_coord(a: Self, b: Self) -> (v: Self)
        requires
            a.x_value().sub_req(b.x_value()),
            a.y_value().sub_req(b.y_value()),
        ensures
            <Self::Inner as SubSpec>::obeys_sub_spec() ==> v.x_value() == a.x_value().sub_spec(
                b.x_value(),
            ) && v.y_value() == a.y_value().sub_spec(b.y_value()),
    {
        Self::new(a.x() - b.x(), a.y() - b.y())
    }

    /// The dot product `x1 * x2 + y1 * y2`.
    fn dot(&self, other: Self) -> (d: Self::Inner)
        requires
            self.x_value().mul_req(other.x_value()),
            self.y_value().mul_req(other.y_value()),
            self.x_value().mul_spec(other.x_value()).add_req(
                self.y_value().mul_spec(other.y_value()),
            ),
            <Self::Inner as MulSpec>::obeys_mul_spec(),
        ensures
            <Self::Inner as AddSpec>::obeys_add_spec() ==> d == self.x_value().mul_spec(
                other.x_value(),
            ).add_spec(self.y_value().mul_spec(other.y_value())),
    {
        self.x() * other.x() + self.y() * other.y()
    }

    /// The cross product `x1 * y2 - y1 * x2`.
    fn cross(&self, other: Self) -> (d: Self::Inner)
        requires
            self.x_value().mul_req(other.y_value()),
            self.y_value().mul_req(other.x_value()),
            self.x_value().mul_spec(other.y_value()).sub_req(
                self.y_value().mul_spec(other.x_value()),
            ),
            <Self::Inner as MulSpec>::obeys_mul_spec(),
        ensures
            <Self::Inner as SubSpec>::obeys_sub_spec() ==> d == self.x_value().mul_spec(
                other.y_value(),
            ).sub_spec(self.y_value().mul_spec(other.x_value())),
    {
        self.x() * other.y() - self.y() * other.x()
    }
}

/// A point with 32-bit integer components.
#[derive(Debug, Clone, Copy, PartialEq, Eq, Structural)]
pub struct IVec2 {
    pub x: i32,
    pub y: i32,
}

impl Coord for IVec2 {
    type Inner = i32;

    open spec fn x_value(&self) -> i32 {
        self.x
    }

    open spec fn y_value(&self) -> i32 {
        self.y
    }

    fn new(x: i32, y: i32) -> (c: Self) {
        IVec2 { x, y }
    }

    #[inline]
    fn x(&self) -> (x: i32) {
        self.x
    }

    #[inline]
    fn y(&self) -> (y: i32) {
        self.y
    }
}

impl Vector for IVec2 {

}

} // verus!
