//! Vectors whose length is a constant of the type.

use vstd::prelude::*;

verus! {

/// A vector of `N` elements.
pub type VecN<T, const N: usize> = crate::math::vector::VecN<T, N>;

} // verus!
