//! The numeric capability that every scalar type of the engine supplies.

use vstd::prelude::*;

verus! {

/// What a type must offer to serve as the scalar of a node.
///
/// The `*_spec` functions are the mathematical model of the arithmetic: each
/// executable operation promises to return exactly what its model function
/// gives for the same operands. An implementation makes that promise for its
/// own arithmetic; everything the engine proves is proved from it.
pub trait NodeAble<T>: Sized + Copy {
    /// The value of `self + rhs`.
    spec fn plus_spec(self, rhs: Self) -> Self;

    /// The value of `self - rhs`.
    spec fn minus_spec(self, rhs: Self) -> Self;

    /// The value of `self * rhs`.
    spec fn times_spec(self, rhs: Self) -> Self;

    /// The value of `self / rhs`.
    spec fn divided_by_spec(self, rhs: Self) -> Self;

    /// The additive zero.
    spec fn zero_spec() -> Self;

    /// The scalar that stands for the count `n`.
    spec fn from_usize_spec(n: usize) -> Self;

    /// Whether the value lies in the half-open interval from zero to one.
    spec fn in_unit_interval(self) -> bool;

    /// Randomly generates a number between 0 and 1.
    fn get_random() -> (r: Self)
        ensures
            r.in_unit_interval(),
    ;

    /// Gets a value from a usize.
    fn from_usize(n: usize) -> (r: Self)
        ensures
            r == Self::from_usize_spec(n),
    ;

    /// Gets a zeroed value.
    fn new_zero() -> (r: Self)
        ensures
            r == Self::zero_spec(),
    ;

    /// Addition.
    fn plus(self, rhs: Self) -> (r: Self)
        ensures
            r == self.plus_spec(rhs),
    ;

    /// Subtraction.
    fn minus(self, rhs: Self) -> (r: Self)
        ensures
            r == self.minus_spec(rhs),
    ;

    /// Multiplication.
    fn times(self, rhs: Self) -> (r: Self)
        ensures
            r == self.times_spec(rhs),
    ;

    /// Division.
    fn divided_by(self, rhs: Self) -> (r: Self)
        ensures
            r == self.divided_by_spec(rhs),
    ;

    /// Addition in place.
    fn plus_assign(&mut self, rhs: Self)
        ensures
            *final(self) == old(self).plus_spec(rhs),
    {
        *self = self.plus(rhs);
    }

    /// Subtraction in place.
    fn minus_assign(&mut self, rhs: Self)
        ensures
            *final(self) == old(self).minus_spec(rhs),
    {
        *self = self.minus(rhs);
    }

    /// Multiplication in place.
    fn times_assign(&mut self, rhs: Self)
        ensures
            *final(self) == old(self).times_spec(rhs),
    {
        *self = self.times(rhs);
    }

    /// Division in place.
    fn divided_by_assign(&mut self, rhs: Self)
        ensures
            *final(self) == old(self).divided_by_spec(rhs),
    {
        *self = self.divided_by(rhs);
    }
}

/// A fresh vector that holds the values of `values` in the same order.
pub fn copy_values<T: NodeAble<T>>(values: &Vec<T>) -> (copy: Vec<T>)
    ensures
        copy@ == values@,
{
    let mut copy: Vec<T> = Vec::with_capacity(values.len());
    let mut i: usize = 0;
    while i < values.len()
        invariant
            i <= values.len(),
            copy@ == values@.take(i as int),
        decreases values.len() - i,
    {
        copy.push(values[i]);
        i += 1;
    }
    copy
}

} // verus!
