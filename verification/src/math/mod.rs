//! Value types: colours, fixed-size vectors and small matrices, and the
//! operations that their elements must offer.

use vstd::prelude::*;

pub mod color;
pub mod matrix;
pub mod vector;
pub mod vector_const;

verus! {

/// The first axis.
pub struct X;

/// The second axis.
pub struct Y;

/// The third axis.
pub struct Z;

/// The fourth axis.
pub struct W;

/// The letter of each axis, in order.
pub const CHAR_DIM: [char; 4] = ['x', 'y', 'z', 'w'];

/// A type with a zero.
pub trait Zero: Sized {
    /// The zero.
    spec fn zero_spec() -> Self;

    fn zero() -> (r: Self)
        ensures
            r == Self::zero_spec(),
    ;
}

/// A type with a one.
pub trait One: Sized {
    /// The one.
    spec fn one_spec() -> Self;

    fn one() -> (r: Self)
        ensures
            r == Self::one_spec(),
    ;
}

/// A type with a square root.
pub trait Sqrt<T> {
    /// The square root of `self`.
    spec fn sqrt_spec(&self) -> T;

    fn sqrt(&self) -> (r: T)
        ensures
            r == self.sqrt_spec(),
    ;
}

/// A type with a sine.
pub trait Sin<T> {
    /// The sine of `self`.
    spec fn sin_spec(&self) -> T;

    fn sin(&self) -> (r: T)
        ensures
            r == self.sin_spec(),
    ;
}

/// A type with a cosine.
pub trait Cos<T> {
    /// The cosine of `self`.
    spec fn cos_spec(&self) -> T;

    fn cos(&self) -> (r: T)
        ensures
            r == self.cos_spec(),
    ;
}

/// A type with an absolute value.
pub trait Abs<T> {
    /// The absolute value of `self`.
    spec fn abs_spec(&self) -> T;

    fn abs(&self) -> (r: T)
        ensures
            r == self.abs_spec(),
    ;
}

/// A type whose values can be held between two bounds.
pub trait Clamp: Sized {
    /// The bounds are such that `self` can be held between them.
    spec fn clamp_req(self, min: Self, max: Self) -> bool;

    /// `self` held between `min` and `max`.
    spec fn clamp_spec(self, min: Self, max: Self) -> Self;

    fn clamp(self, min: Self, max: Self) -> (r: Self)
        requires
            self.clamp_req(min, max),
        ensures
            r == self.clamp_spec(min, max),
    ;
}

/// The size of a type's values in memory.
pub trait MemSize: Sized {
    fn mem_size() -> (n: usize)
        ensures
            n == vstd::layout::size_of::<Self>(),
    ;
}

impl<T> MemSize for T {
    fn mem_size() -> (n: usize) {
        core::mem::size_of::<T>()
    }
}

} // verus!
