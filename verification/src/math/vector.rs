//! Vectors of a fixed number of elements.

use vstd::prelude::*;
use vstd::string::*;
use vstd::std_specs::cmp::PartialEqSpec;
use vstd::std_specs::convert::IntoSpec;
use vstd::std_specs::ops::{AddSpec, DivSpec, MulSpec, NegSpec, SubSpec};
use std::ops::{Add, Div, Index, Mul, Neg, Sub};
use crate::math::{Abs, Clamp, Cos, One, Sin, Sqrt, Zero, CHAR_DIM, W, X, Y, Z};

verus! {

/// The array whose first `n` elements are those of `s`.
pub closed spec fn array_upto<T, const N: usize>(s: Seq<T>, n: nat) -> [T; N]
    decreases n,
{
    if n == 0 {
        arbitrary()
    } else {
        vstd::array::spec_array_update(array_upto::<T, N>(s, (n - 1) as nat), n - 1, s[n - 1])
    }
}

proof fn lemma_array_upto<T, const N: usize>(s: Seq<T>, n: nat)
    requires
        n <= N,
    ensures
        forall|i: int| 0 <= i < n ==> (#[trigger] array_upto::<T, N>(s, n)@[i]) == s[i],
    decreases n,
{
    broadcast use vstd::array::group_array_axioms;

    if n > 0 {
        let before = array_upto::<T, N>(s, (n - 1) as nat);
        let after = array_upto::<T, N>(s, n);
        lemma_array_upto::<T, N>(s, (n - 1) as nat);
        assert(after@ == before@.update(n - 1, s[n - 1]));
        assert forall|i: int| 0 <= i < n implies (#[trigger] after@[i]) == s[i] by {
            if i < n - 1 {
                assert(before@[i] == s[i]);
            }
        }
    }
}

/// A vector of `N` elements.
#[derive(Clone, Copy, PartialEq, Eq)]
pub struct VecN<T, const N: usize> {
    inner: [T; N],
}

impl<T, const N: usize> View for VecN<T, N> {
    type V = Seq<T>;

    closed spec fn view(&self) -> Seq<T> {
        self.inner@
    }
}

impl<T, const N: usize> VecN<T, N> {
    /// The vector whose elements are those of `s`, for `s` of `N` elements.
    pub closed spec fn of(s: Seq<T>) -> Self {
        VecN { inner: array_upto::<T, N>(s, N as nat) }
    }

    /// A vector has `N` elements.
    pub broadcast proof fn lemma_len(self)
        ensures
            #[trigger] self@.len() == N,
    {
    }

    /// A vector is its elements.
    pub broadcast proof fn lemma_of(s: Seq<T>)
        requires
            s.len() == N,
        ensures
            #[trigger] Self::of(s)@ == s,
    {
        lemma_array_upto::<T, N>(s, N as nat);
        assert(Self::of(s)@ =~= s);
    }

    /// Two vectors with the same elements are the same vector.
    pub proof fn lemma_same(self, other: Self)
        requires
            self@ == other@,
        ensures
            self == other,
    {
        assert forall|i: int| 0 <= i < N implies self.inner[i] == other.inner[i] by {
            assert(self@[i] == other@[i]);
        }
        assert(self.inner =~= other.inner);
    }

    /// Puts `value` in place of the element at `index`.
    pub fn set(&mut self, index: usize, value: T)
        requires
            index < N,
        ensures
            final(self)@ == old(self)@.update(index as int, value),
    {
        self.inner[index] = value;
    }
}

impl<T, const N: usize> Index<usize> for VecN<T, N> {
    type Output = T;

    fn index(&self, index: usize) -> (r: &T)
        ensures
            *r == self@[index as int],
    {
        &self.inner[index]
    }
}

impl<T, const N: usize> vstd::std_specs::core::IndexSpecImpl<usize> for VecN<T, N> {
    open spec fn index_req(&self, index: &usize) -> bool {
        *index < N
    }
}

impl<T, const N: usize> Index<X> for VecN<T, N> {
    type Output = T;

    fn index(&self, _axis: X) -> (r: &T)
        ensures
            *r == self@[0],
    {
        &self.inner[0]
    }
}

impl<T, const N: usize> vstd::std_specs::core::IndexSpecImpl<X> for VecN<T, N> {
    open spec fn index_req(&self, index: &X) -> bool {
        N > 0
    }
}

impl<T, const N: usize> Index<Y> for VecN<T, N> {
    type Output = T;

    fn index(&self, _axis: Y) -> (r: &T)
        ensures
            *r == self@[1],
    {
        &self.inner[1]
    }
}

impl<T, const N: usize> vstd::std_specs::core::IndexSpecImpl<Y> for VecN<T, N> {
    open spec fn index_req(&self, index: &Y) -> bool {
        N > 1
    }
}

impl<T, const N: usize> Index<Z> for VecN<T, N> {
    type Output = T;

    fn index(&self, _axis: Z) -> (r: &T)
        ensures
            *r == self@[2],
    {
        &self.inner[2]
    }
}

impl<T, const N: usize> vstd::std_specs::core::IndexSpecImpl<Z> for VecN<T, N> {
    open spec fn index_req(&self, index: &Z) -> bool {
        N > 2
    }
}

impl<T, const N: usize> Index<W> for VecN<T, N> {
    type Output = T;

    fn index(&self, _axis: W) -> (r: &T)
        ensures
            *r == self@[3],
    {
        &self.inner[3]
    }
}

impl<T, const N: usize> vstd::std_specs::core::IndexSpecImpl<W> for VecN<T, N> {
    open spec fn index_req(&self, index: &W) -> bool {
        N > 3
    }
}

impl<T, const N: usize> From<[T; N]> for VecN<T, N> {
    fn from(inner: [T; N]) -> (r: Self) {
        let r = Self { inner };
        proof {
            Self::lemma_of(inner@);
            r.lemma_same(Self::of(inner@));
        }
        r
    }
}

impl<T, const N: usize> vstd::std_specs::convert::FromSpecImpl<[T; N]> for VecN<T, N> {
    open spec fn obeys_from_spec() -> bool {
        true
    }

    open spec fn from_spec(v: [T; N]) -> Self {
        Self::of(v@)
    }
}

/// `d` is a value that `T::default` may give.
pub open spec fn is_default<T: Default>(d: T) -> bool {
    call_ensures(T::default, (), d)
}

impl<T: Default + Copy, const N: usize> Default for VecN<T, N> {
    fn default() -> (r: Self)
        ensures
            exists|d: T| is_default(d) && r@ == Seq::new(N as nat, |i: int| d),
    {
        let d = T::default();
        let r = Self { inner: [d;N] };
        proof {
            assert(is_default(d));
            assert(r@ =~= Seq::new(N as nat, |i: int| d));
        }
        r
    }
}

impl<T: Add<Output = T> + Copy, const N: usize> Add for VecN<T, N> {
    type Output = Self;

    fn add(self, b: Self) -> (r: Self) {
        let mut inner = self.inner;
        for i in 0..N
            invariant
                forall|k: int| 0 <= k < N ==> (#[trigger] self@[k]).add_req(b@[k]),
                forall|k: int|
                    0 <= k < i ==> T::obeys_add_spec() ==> inner@[k] == (#[trigger] self@[k]).add_spec(
                        b@[k],
                    ),
        {
            assert(self@[i as int].add_req(b@[i as int]));
            inner[i] = self.inner[i] + b.inner[i];
        }
        let r = Self { inner };
        proof {
            if T::obeys_add_spec() {
                let s = Seq::new(N as nat, |k: int| self@[k].add_spec(b@[k]));
                Self::lemma_of(s);
                assert(r@ =~= s);
                r.lemma_same(Self::of(s));
            }
        }
        r
    }
}

impl<T: Add<Output = T> + Copy, const N: usize> vstd::std_specs::ops::AddSpecImpl for VecN<T, N> {
    open spec fn obeys_add_spec() -> bool {
        T::obeys_add_spec()
    }

    open spec fn add_req(self, rhs: Self) -> bool {
        forall|k: int| 0 <= k < N ==> (#[trigger] self@[k]).add_req(rhs@[k])
    }

    open spec fn add_spec(self, rhs: Self) -> Self {
        Self::of(Seq::new(N as nat, |k: int| self@[k].add_spec(rhs@[k])))
    }
}

impl<T: Sub<Output = T> + Copy, const N: usize> Sub for VecN<T, N> {
    type Output = Self;

    fn sub(self, b: Self) -> (r: Self) {
        let mut inner = self.inner;
        for i in 0..N
            invariant
                forall|k: int| 0 <= k < N ==> (#[trigger] self@[k]).sub_req(b@[k]),
                forall|k: int|
                    0 <= k < i ==> T::obeys_sub_spec() ==> inner@[k] == (#[trigger] self@[k]).sub_spec(
                        b@[k],
                    ),
        {
            assert(self@[i as int].sub_req(b@[i as int]));
            inner[i] = self.inner[i] - b.inner[i];
        }
        let r = Self { inner };
        proof {
            if T::obeys_sub_spec() {
                let s = Seq::new(N as nat, |k: int| self@[k].sub_spec(b@[k]));
                Self::lemma_of(s);
                assert(r@ =~= s);
                r.lemma_same(Self::of(s));
            }
        }
        r
    }
}

impl<T: Sub<Output = T> + Copy, const N: usize> vstd::std_specs::ops::SubSpecImpl for VecN<T, N> {
    open spec fn obeys_sub_spec() -> bool {
        T::obeys_sub_spec()
    }

    open spec fn sub_req(self, rhs: Self) -> bool {
        forall|k: int| 0 <= k < N ==> (#[trigger] self@[k]).sub_req(rhs@[k])
    }

    open spec fn sub_spec(self, rhs: Self) -> Self {
        Self::of(Seq::new(N as nat, |k: int| self@[k].sub_spec(rhs@[k])))
    }
}

impl<T: Mul<Output = T> + Copy, const N: usize> Mul<T> for VecN<T, N> {
    type Output = Self;

    fn mul(self, b: T) -> (r: Self) {
        let mut inner = self.inner;
        for i in 0..N
            invariant
                forall|k: int| 0 <= k < N ==> (#[trigger] self@[k]).mul_req(b),
                forall|k: int|
                    0 <= k < i ==> T::obeys_mul_spec() ==> inner@[k] == (#[trigger] self@[k]).mul_spec(
                        b,
                    ),
        {
            assert(self@[i as int].mul_req(b));
            inner[i] = self.inner[i] * b;
        }
        let r = Self { inner };
        proof {
            if T::obeys_mul_spec() {
                let s = Seq::new(N as nat, |k: int| self@[k].mul_spec(b));
                Self::lemma_of(s);
                assert(r@ =~= s);
                r.lemma_same(Self::of(s));
            }
        }
        r
    }
}

impl<T: Mul<Output = T> + Copy, const N: usize> vstd::std_specs::ops::MulSpecImpl<T> for VecN<T, N> {
    open spec fn obeys_mul_spec() -> bool {
        T::obeys_mul_spec()
    }

    open spec fn mul_req(self, rhs: T) -> bool {
        forall|k: int| 0 <= k < N ==> (#[trigger] self@[k]).mul_req(rhs)
    }

    open spec fn mul_spec(self, rhs: T) -> Self {
        Self::of(Seq::new(N as nat, |k: int| self@[k].mul_spec(rhs)))
    }
}

impl<T: Div<Output = T> + Copy, const N: usize> Div<T> for VecN<T, N> {
    type Output = Self;

    fn div(self, b: T) -> (r: Self) {
        let mut inner = self.inner;
        for i in 0..N
            invariant
                forall|k: int| 0 <= k < N ==> (#[trigger] self@[k]).div_req(b),
                forall|k: int|
                    0 <= k < i ==> T::obeys_div_spec() ==> inner@[k] == (#[trigger] self@[k]).div_spec(
                        b,
                    ),
        {
            assert(self@[i as int].div_req(b));
            inner[i] = self.inner[i] / b;
        }
        let r = Self { inner };
        proof {
            if T::obeys_div_spec() {
                let s = Seq::new(N as nat, |k: int| self@[k].div_spec(b));
                Self::lemma_of(s);
                assert(r@ =~= s);
                r.lemma_same(Self::of(s));
            }
        }
        r
    }
}

impl<T: Div<Output = T> + Copy, const N: usize> vstd::std_specs::ops::DivSpecImpl<T> for VecN<T, N> {
    open spec fn obeys_div_spec() -> bool {
        T::obeys_div_spec()
    }

    open spec fn div_req(self, rhs: T) -> bool {
        forall|k: int| 0 <= k < N ==> (#[trigger] self@[k]).div_req(rhs)
    }

    open spec fn div_spec(self, rhs: T) -> Self {
        Self::of(Seq::new(N as nat, |k: int| self@[k].div_spec(rhs)))
    }
}

impl<T: PartialEq, const N: usize> PartialEq<[T; N]> for VecN<T, N> {
    fn eq(&self, other: &[T; N]) -> (r: bool) {
        for i in 0..N
            invariant
                forall|k: int|
                    0 <= k < i ==> T::obeys_eq_spec() ==> (#[trigger] self@[k]).eq_spec(&other@[k]),
        {
            if self.inner[i] != other[i] {
                proof {
                    if T::obeys_eq_spec() {
                        assert(!self@[i as int].eq_spec(&other@[i as int]));
                    }
                }
                return false;
            }
        }
        true
    }
}

impl<T: PartialEq, const N: usize> vstd::std_specs::cmp::PartialEqSpecImpl<[T; N]> for VecN<T, N> {
    open spec fn obeys_eq_spec() -> bool {
        T::obeys_eq_spec()
    }

    open spec fn eq_spec(&self, other: &[T; N]) -> bool {
        forall|k: int| 0 <= k < N ==> (#[trigger] self@[k]).eq_spec(&other@[k])
    }
}

impl<T: Zero + Copy, const N: usize> Zero for VecN<T, N> {
    open spec fn zero_spec() -> Self {
        Self::of(Seq::new(N as nat, |i: int| T::zero_spec()))
    }

    fn zero() -> (r: Self) {
        let r = VecN { inner: [T::zero();N] };
        proof {
            let s = Seq::new(N as nat, |i: int| T::zero_spec());
            Self::lemma_of(s);
            assert(r@ =~= s);
            r.lemma_same(Self::of(s));
        }
        r
    }
}

impl<T: One + Copy, const N: usize> One for VecN<T, N> {
    open spec fn one_spec() -> Self {
        Self::of(Seq::new(N as nat, |i: int| T::one_spec()))
    }

    fn one() -> (r: Self) {
        let r = VecN { inner: [T::one();N] };
        proof {
            let s = Seq::new(N as nat, |i: int| T::one_spec());
            Self::lemma_of(s);
            assert(r@ =~= s);
            r.lemma_same(Self::of(s));
        }
        r
    }
}

/// The sum of the squares of the first `n` elements of `s`, added up from `start`.
pub open spec fn sum_squares<T: Mul<Output = T> + Add<Output = T>>(s: Seq<T>, start: T, n: nat) -> T
    decreases n,
{
    if n == 0 {
        start
    } else {
        s[n - 1].mul_spec(s[n - 1]).add_spec(sum_squares(s, start, (n - 1) as nat))
    }
}

/// Every step of the sum of squares of `s` from `start` can be taken.
pub open spec fn squares_can_be_summed<T: Mul<Output = T> + Add<Output = T>>(
    s: Seq<T>,
    start: T,
) -> bool {
    forall|k: nat|
        k < s.len() ==> (#[trigger] s[k as int]).mul_req(s[k as int]) && s[k as int].mul_spec(
            s[k as int],
        ).add_req(sum_squares(s, start, k))
}

/// `m` is a magnitude of `s`: the square root of the sum of the squares of its
/// elements, added up from a default value.
pub open spec fn is_mag<T: Default + Mul<Output = T> + Add<Output = T> + Sqrt<T>>(
    s: Seq<T>,
    m: T,
) -> bool {
    exists|d: T| is_default(d) && m == sum_squares(s, d, s.len()).sqrt_spec()
}

/// The vector with `e` on the given axis and `d` elsewhere.
pub open spec fn along<T>(n: nat, axis: int, d: T, e: T) -> Seq<T> {
    Seq::new(n, |i: int| if i == axis { e } else { d })
}

impl<T, const N: usize> VecN<T, N> where
    T: Zero + Copy,
    T: Default + Clone,
    T: Add<Output = T> + Sub<Output = T>,
    T: Mul<Output = T> + Div<Output = T>,
    T: Sqrt<T> + Cos<T> + Sin<T> + Abs<T>,
    T: PartialEq<T>,
 {
    /// The vector whose elements are all zero.
    pub fn new() -> (v: Self)
        ensures
            v@ == Seq::new(N as nat, |i: int| T::zero_spec()),
    {
        let v = VecN { inner: [T::zero();N] };
        proof {
            assert(v@ =~= Seq::new(N as nat, |i: int| T::zero_spec()));
        }
        v
    }

    /// The elements, as an array.
    pub fn as_arr(&self) -> (a: [T; N])
        ensures
            a@ == self@,
    {
        self.inner
    }

    /// The magnitude: the square root of the sum of the squares of the elements.
    pub fn mag(&self) -> (m: T)
        requires
            T::obeys_mul_spec(),
            T::obeys_add_spec(),
            forall|d: T| is_default(d) ==> squares_can_be_summed(self@, d),
        ensures
            is_mag(self@, m),
    {
        let d = T::default();
        assert(is_default(d));
        let mut total = d;
        for i in 0..N
            invariant
                T::obeys_mul_spec(),
                T::obeys_add_spec(),
                squares_can_be_summed(self@, d),
                self@.len() == N,
                total == sum_squares(self@, d, i as nat),
        {
            assert(self@[i as int].mul_req(self@[i as int]));
            total = self.inner[i] * self.inner[i] + total;
        }
        total.sqrt()
    }

    /// The vector scaled to magnitude one: each element divided by the
    /// magnitude. A vector of magnitude zero gives the zero vector.
    pub fn norm(self) -> (r: Self)
        requires
            T::obeys_mul_spec(),
            T::obeys_add_spec(),
            T::obeys_div_spec(),
            T::obeys_eq_spec(),
            forall|d: T| is_default(d) ==> squares_can_be_summed(self@, d),
            forall|m: T, k: int|
                is_mag(self@, m) && !m.eq_spec(&T::zero_spec()) && 0 <= k < N
                    ==> #[trigger] self@[k].div_req(m),
        ensures
            exists|m: T|
                is_mag(self@, m) && r@ == (if m.eq_spec(&T::zero_spec()) {
                    Seq::new(N as nat, |i: int| T::zero_spec())
                } else {
                    Seq::new(N as nat, |i: int| self@[i].div_spec(m))
                }),
    {
        let mag = self.mag();
        let mut inner = self.inner;
        if mag == T::zero() {
            let r = VecN { inner: [T::zero();N] };
            proof {
                assert(r@ =~= Seq::new(N as nat, |i: int| T::zero_spec()));
            }
            r
        } else {
            for i in 0..N
                invariant
                    T::obeys_div_spec(),
                    forall|k: int| 0 <= k < N ==> (#[trigger] self@[k]).div_req(mag),
                    forall|k: int| 0 <= k < i ==> inner@[k] == (#[trigger] self@[k]).div_spec(mag),
            {
                assert(self@[i as int].div_req(mag));
                inner[i] = self.inner[i] / mag;
            }
            let r = VecN { inner };
            proof {
                assert(r@ =~= Seq::new(N as nat, |i: int| self@[i].div_spec(mag)));
            }
            r
        }
    }

    /// The point at `t` on the way from `self` to `e`: `self + (e - self) * t`.
    pub fn lerp<S: Into<Self>>(self, e: S, t: T) -> (r: Self) where Self: Copy
        requires
            S::obeys_into_spec(),
            T::obeys_add_spec(),
            T::obeys_sub_spec(),
            T::obeys_mul_spec(),
            e.into_spec().sub_req(self),
            e.into_spec().sub_spec(self).mul_req(t),
            self.add_req(e.into_spec().sub_spec(self).mul_spec(t)),
        ensures
            r == self.add_spec(e.into_spec().sub_spec(self).mul_spec(t)),
    {
        self + (e.into() - self) * t
    }

    /// Each element held between the elements of `min` and `max` at its place.
    pub fn clamp(self, min: Self, max: Self) -> (r: Self) where T: Clamp
        requires
            forall|k: int| 0 <= k < N ==> (#[trigger] self@[k]).clamp_req(min@[k], max@[k]),
        ensures
            r@ == Seq::new(N as nat, |i: int| self@[i].clamp_spec(min@[i], max@[i])),
    {
        let mut inner = self.inner;
        for i in 0..N
            invariant
                forall|k: int| 0 <= k < N ==> (#[trigger] self@[k]).clamp_req(min@[k], max@[k]),
                forall|k: int|
                    0 <= k < i ==> inner@[k] == (#[trigger] self@[k]).clamp_spec(min@[k], max@[k]),
                forall|k: int| i <= k < N ==> inner@[k] == self@[k],
        {
            assert(self@[i as int].clamp_req(min@[i as int], max@[i as int]));
            inner[i] = inner[i].clamp(min.inner[i], max.inner[i]);
        }
        let r = VecN { inner };
        proof {
            assert(r@ =~= Seq::new(N as nat, |i: int| self@[i].clamp_spec(min@[i], max@[i])));
        }
        r
    }
}

impl<T, const N: usize> VecN<T, N> where T: Default + Zero + One + Neg<Output = T> + Copy {
    /// The vector with `e` on the given axis and a default value elsewhere.
    fn axis(axis: usize, e: T) -> (r: Self)
        requires
            axis < N,
        ensures
            exists|d: T| is_default(d) && r@ == along(N as nat, axis as int, d, e),
    {
        let d = T::default();
        let mut inner = [d;N];
        inner[axis] = e;
        let r = VecN { inner };
        proof {
            assert(is_default(d));
            assert(r@ =~= along(N as nat, axis as int, d, e));
        }
        r
    }

    /// The unit vector to the left: minus one on the first axis.
    pub fn left() -> (r: Self)
        requires
            N >= 1,
            T::obeys_neg_spec(),
            T::one_spec().neg_req(),
        ensures
            exists|d: T| is_default(d) && r@ == along(N as nat, 0, d, T::one_spec().neg_spec()),
    {
        Self::axis(0, T::one().neg())
    }

    /// The unit vector to the right: one on the first axis.
    pub fn right() -> (r: Self)
        requires
            N >= 1,
        ensures
            exists|d: T| is_default(d) && r@ == along(N as nat, 0, d, T::one_spec()),
    {
        Self::axis(0, T::one())
    }

    /// The unit vector upwards: minus one on the second axis.
    pub fn up() -> (r: Self)
        requires
            N >= 2,
            T::obeys_neg_spec(),
            T::one_spec().neg_req(),
        ensures
            exists|d: T| is_default(d) && r@ == along(N as nat, 1, d, T::one_spec().neg_spec()),
    {
        Self::axis(1, T::one().neg())
    }

    /// The unit vector downwards: one on the second axis.
    pub fn down() -> (r: Self)
        requires
            N >= 2,
        ensures
            exists|d: T| is_default(d) && r@ == along(N as nat, 1, d, T::one_spec()),
    {
        Self::axis(1, T::one())
    }
}

impl<T> VecN<T, 3> where T: Default + Zero + One + Neg<Output = T> + Copy {
    /// The unit vector forwards: minus one on the third axis.
    pub fn forward() -> (r: Self)
        requires
            T::obeys_neg_spec(),
            T::one_spec().neg_req(),
        ensures
            exists|d: T| is_default(d) && r@ == along(3, 2, d, T::one_spec().neg_spec()),
    {
        Self::axis(2, T::one().neg())
    }

    /// The unit vector backwards: one on the third axis.
    pub fn backward() -> (r: Self)
        ensures
            exists|d: T| is_default(d) && r@ == along(3, 2, d, T::one_spec()),
    {
        Self::axis(2, T::one())
    }
}

impl<T> VecN<T, 4> where T: Default + Zero + One + Neg<Output = T> + Copy {
    /// The unit vector forwards: minus one on the third axis.
    pub fn forward() -> (r: Self)
        requires
            T::obeys_neg_spec(),
            T::one_spec().neg_req(),
        ensures
            exists|d: T| is_default(d) && r@ == along(4, 2, d, T::one_spec().neg_spec()),
    {
        Self::axis(2, T::one().neg())
    }

    /// The unit vector backwards: one on the third axis.
    pub fn backward() -> (r: Self)
        ensures
            exists|d: T| is_default(d) && r@ == along(4, 2, d, T::one_spec()),
    {
        Self::axis(2, T::one())
    }
}

/// `text` is what `value` is shown as.
pub open spec fn shows<T: std::fmt::Display>(value: T, text: Seq<char>) -> bool {
    exists|s: String| to_string_from_display_ensures::<T>(&value, s) && s@ == text
}

/// The letter of the axis `i`.
pub open spec fn axis_letter(i: int) -> char {
    if i == 0 {
        'x'
    } else if i == 1 {
        'y'
    } else if i == 2 {
        'z'
    } else {
        'w'
    }
}

/// The first `k` elements of a vector of `n`, each as its axis' letter, a
/// colon, a space and its text, with a comma and a space between two.
pub open spec fn elements_text(texts: Seq<Seq<char>>, n: nat, k: nat) -> Seq<char>
    decreases k,
{
    if k == 0 {
        Seq::empty()
    } else {
        elements_text(texts, n, (k - 1) as nat) + seq![axis_letter(k - 1), ':', ' '] + texts[k - 1]
            + (if k < n {
            seq![',', ' ']
        } else {
            Seq::empty()
        })
    }
}

/// A vector as text: its elements between braces.
pub open spec fn vector_text(texts: Seq<Seq<char>>) -> Seq<char> {
    seq!['{', ' '] + elements_text(texts, texts.len(), texts.len()) + seq![' ', '}']
}

impl<T: std::fmt::Display, const N: usize> VecN<T, N> {
    /// The vector as text, such as `{ x: 1, y: 2 }`: each element is shown as
    /// its type shows it.
    pub fn to_text(&self) -> (r: String)
        requires
            N <= 4,
        ensures
            exists|texts: Seq<Seq<char>>|
                texts.len() == N && (forall|i: int|
                    0 <= i < N ==> shows(self@[i], #[trigger] texts[i])) && r@ == vector_text(texts),
    {
        proof {
            reveal_strlit("{ ");
            reveal_strlit(" }");
        }
        let mut r = String::from_str("{ ");
        let ghost mut texts: Seq<Seq<char>> = Seq::empty();
        for i in 0..N
            invariant
                N <= 4,
                texts.len() == i,
                forall|k: int| 0 <= k < i ==> shows(self@[k], #[trigger] texts[k]),
                r@ == seq!['{', ' '] + elements_text(texts, N as nat, i as nat),
        {
            let letter = CHAR_DIM[i];
            let shown = self.inner[i].to_string();
            let ghost before = texts;
            let ghost start = r@;
            proof {
                reveal_strlit(": ");
                reveal_strlit(", ");
                texts = texts.push(shown@);
                assert(shows(self@[i as int], shown@));
                lemma_elements_text_prefix(before, texts, N as nat, i as nat);
                assert(letter == axis_letter(i as int));
            }
            r.push(letter);
            r.append(": ");
            r.append(shown.as_str());
            if i < N - 1 {
                r.append(", ");
            }
            proof {
                let tail: Seq<char> = if i + 1 < N {
                    seq![',', ' ']
                } else {
                    Seq::empty()
                };
                assert(r@ =~= start + seq![letter, ':', ' '] + shown@ + tail);
                assert(texts[i as int] == shown@);
                assert(elements_text(texts, N as nat, (i + 1) as nat) == elements_text(
                    texts,
                    N as nat,
                    i as nat,
                ) + seq![letter, ':', ' '] + shown@ + tail);
                assert(r@ =~= seq!['{', ' '] + elements_text(texts, N as nat, (i + 1) as nat));
            }
        }
        r.append(" }");
        proof {
            assert(r@ =~= vector_text(texts));
        }
        r
    }
}

/// The text of the first elements depends on them alone.
proof fn lemma_elements_text_prefix(a: Seq<Seq<char>>, b: Seq<Seq<char>>, n: nat, k: nat)
    requires
        k <= a.len() <= b.len(),
        forall|i: int| 0 <= i < k ==> a[i] == b[i],
    ensures
        elements_text(a, n, k) == elements_text(b, n, k),
    decreases k,
{
    if k > 0 {
        lemma_elements_text_prefix(a, b, n, (k - 1) as nat);
    }
}

} // verus!
