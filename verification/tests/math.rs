use enginekit::math::matrix::{Mat2, Mat3};
use enginekit::math::vector::VecN;
use enginekit::math::{Abs, Clamp, Cos, MemSize, One, Sin, Sqrt, Zero, CHAR_DIM, X, Y, Z, W};
use std::fmt;
use std::ops::{Add, Div, Mul, Neg, Sub};

/// A single-precision element.
#[derive(Clone, Copy, Debug, Default, PartialEq)]
struct F(f32);

/// A double-precision element.
#[derive(Clone, Copy, Debug, Default, PartialEq)]
struct D(f64);

impl fmt::Display for F {
    fn fmt(&self, f: &mut fmt::Formatter<'_>) -> fmt::Result {
        self.0.fmt(f)
    }
}

impl fmt::Display for D {
    fn fmt(&self, f: &mut fmt::Formatter<'_>) -> fmt::Result {
        self.0.fmt(f)
    }
}

impl Zero for F {
    fn zero_spec() -> Self {
        F(0.0)
    }

    fn zero() -> Self {
        F(0.0)
    }
}

impl One for F {
    fn one_spec() -> Self {
        F(1.0)
    }

    fn one() -> Self {
        F(1.0)
    }
}

impl Sqrt<F> for F {
    fn sqrt_spec(&self) -> F {
        F(f32::sqrt(self.0))
    }

    fn sqrt(&self) -> F {
        F(f32::sqrt(self.0))
    }
}

impl Sin<F> for F {
    fn sin_spec(&self) -> F {
        F(f32::sin(self.0))
    }

    fn sin(&self) -> F {
        F(f32::sin(self.0))
    }
}

impl Cos<F> for F {
    fn cos_spec(&self) -> F {
        F(f32::cos(self.0))
    }

    fn cos(&self) -> F {
        F(f32::cos(self.0))
    }
}

impl Abs<F> for F {
    fn abs_spec(&self) -> F {
        F(f32::abs(self.0))
    }

    fn abs(&self) -> F {
        F(f32::abs(self.0))
    }
}

impl Clamp for F {
    fn clamp_req(self, min: Self, max: Self) -> bool {
        min.0 <= max.0
    }

    fn clamp_spec(self, min: Self, max: Self) -> Self {
        F(f32::clamp(self.0, min.0, max.0))
    }

    fn clamp(self, min: Self, max: Self) -> Self {
        F(f32::clamp(self.0, min.0, max.0))
    }
}

impl Add for F {
    type Output = F;
    fn add(self, b: F) -> F {
        F(self.0 + b.0)
    }
}

impl Sub for F {
    type Output = F;
    fn sub(self, b: F) -> F {
        F(self.0 - b.0)
    }
}

impl Mul for F {
    type Output = F;
    fn mul(self, b: F) -> F {
        F(self.0 * b.0)
    }
}

impl Div for F {
    type Output = F;
    fn div(self, b: F) -> F {
        F(self.0 / b.0)
    }
}

impl Neg for F {
    type Output = F;
    fn neg(self) -> F {
        F(-self.0)
    }
}

impl Zero for D {
    fn zero_spec() -> Self {
        D(0.0)
    }

    fn zero() -> Self {
        D(0.0)
    }
}

impl One for D {
    fn one_spec() -> Self {
        D(1.0)
    }

    fn one() -> Self {
        D(1.0)
    }
}

impl Sqrt<D> for D {
    fn sqrt_spec(&self) -> D {
        D(f64::sqrt(self.0))
    }

    fn sqrt(&self) -> D {
        D(f64::sqrt(self.0))
    }
}

impl Sin<D> for D {
    fn sin_spec(&self) -> D {
        D(f64::sin(self.0))
    }

    fn sin(&self) -> D {
        D(f64::sin(self.0))
    }
}

impl Cos<D> for D {
    fn cos_spec(&self) -> D {
        D(f64::cos(self.0))
    }

    fn cos(&self) -> D {
        D(f64::cos(self.0))
    }
}

impl Abs<D> for D {
    fn abs_spec(&self) -> D {
        D(f64::abs(self.0))
    }

    fn abs(&self) -> D {
        D(f64::abs(self.0))
    }
}

impl Add for D {
    type Output = D;
    fn add(self, b: D) -> D {
        D(self.0 + b.0)
    }
}

impl Sub for D {
    type Output = D;
    fn sub(self, b: D) -> D {
        D(self.0 - b.0)
    }
}

impl Mul for D {
    type Output = D;
    fn mul(self, b: D) -> D {
        D(self.0 * b.0)
    }
}

impl Div for D {
    type Output = D;
    fn div(self, b: D) -> D {
        D(self.0 / b.0)
    }
}

type Vec2f = VecN<F, 2>;
type Vec3f = VecN<F, 3>;
type Vec4f = VecN<F, 4>;
type Vec2d = VecN<D, 2>;
type Mat2f = Mat2<F>;
type Mat3f = Mat3<F>;

fn f2(a: f32, b: f32) -> [F; 2] {
    [F(a), F(b)]
}

#[test]
fn test_mat_fmt() {
    let _a = Mat3f::identity();
    println!("{}\n", _a.to_text());
    let _a = Mat2f::identity();
    println!("{}", _a.to_text());
}

#[test]
fn vector_test_new() {
    let mut v1 = Vec2f::from(f2(2.0, 1.0));
    v1.set(0, F(10.0));
    println!("{}", v1[X]);
    println!("{}", v1[Y]);
    let v2 = Vec3f::new();
    println!("{}", v2[Y]);
    assert_eq!(v1[X], F(10.0));
    assert_eq!(v1[Y], F(1.0));
    assert_eq!(v2[Y], F(0.0));
}

#[test]
fn vector_test_math() {
    let v = Vec2d::from([D(1.0), D(1.0)]).mag();
    println!("{}", v);
    assert_eq!(v, D(2.0f64.sqrt()));
    let v = Vec2f::from(f2(1.0, 0.0)).norm();
    println!("{}", v.to_text());
    assert!(v == f2(1.0, 0.0));
}

#[test]
fn vector_test_lerp() {
    let mut v = Vec2f::from(f2(0.0, 0.0));
    for _ in 0..100_000 {
        v = v.lerp(f2(100.0, 100.0), F(0.0001));
        println!("{}", v.to_text());
    }
}

#[test]
fn test_clamp() {
    let mut v = Vec2f::from(f2(10.0, 10.0));
    println!("{}", v.to_text());
    v = v.clamp(Vec2f::zero(), Vec2f::one());
    println!("{}", v.to_text());
    assert!(v == f2(1.0, 1.0));
}

#[test]
fn test_dirs() {
    let v = Vec2f::left();
    println!("{}", v.to_text());
    let v = Vec2f::right();
    println!("{}", v.to_text());
    let v = Vec2f::up();
    println!("{}", v.to_text());
    let v = Vec2f::down();
    println!("{}", v.to_text());

    let v = Vec3f::forward();
    println!("{}", v.to_text());
    let v = Vec3f::backward();
    println!("{}", v.to_text());
    let v = Vec3f::left();
    println!("{}", v.to_text());
    let v = Vec3f::right();
    println!("{}", v.to_text());
    let v = Vec3f::up();
    println!("{}", v.to_text());
    let v = Vec3f::down();
    println!("{}", v.to_text());

    let v = Vec3f::left() + Vec3f::forward() + Vec3f::up();
    assert!(v == [F(-1.0), F(-1.0), F(-1.0)]);
}

#[test]
fn vector_const_test_new() {
    let mut v1 = enginekit::math::vector_const::VecN::<F, 2>::from(f2(2.0, 1.0));
    v1.set(0, F(10.0));
    println!("{}", v1[X]);
    println!("{}", v1[Y]);
    let v2 = enginekit::math::vector_const::VecN::<F, 3>::new();
    println!("{}", v2[Y]);
    assert_eq!(v1.as_arr(), f2(10.0, 1.0));
    assert_eq!(v2.as_arr(), [F(0.0); 3]);
}

#[test]
fn vector_const_test_math() {
    let v = enginekit::math::vector_const::VecN::<D, 2>::from([D(1.0), D(1.0)]).mag();
    println!("{}", v);
    let v = enginekit::math::vector_const::VecN::<F, 2>::from(f2(1.0, 0.0)).norm();
    println!("{}", v.to_text());
}

#[test]
fn vector_const_test_lerp() {
    let mut v = enginekit::math::vector_const::VecN::<F, 2>::from(f2(0.0, 0.0));

    for _ in 0..10_000 {
        v = v.lerp(f2(10.0, 10.0), F(0.1));
        println!("{}", v.to_text());
    }
}

#[test]
fn directions_are_unit_vectors() {
    assert!(Vec2f::left() == f2(-1.0, 0.0));
    assert!(Vec2f::right() == f2(1.0, 0.0));
    assert!(Vec2f::up() == f2(0.0, -1.0));
    assert!(Vec2f::down() == f2(0.0, 1.0));
    assert!(Vec3f::forward() == [F(0.0), F(0.0), F(-1.0)]);
    assert!(Vec3f::backward() == [F(0.0), F(0.0), F(1.0)]);
    assert!(Vec4f::forward() == [F(0.0), F(0.0), F(-1.0), F(0.0)]);
    assert!(Vec4f::backward() == [F(0.0), F(0.0), F(1.0), F(0.0)]);
}

#[test]
fn vector_operators_work_element_by_element() {
    let a = Vec3f::from([F(1.0), F(2.0), F(3.0)]);
    let b = Vec3f::from([F(10.0), F(20.0), F(30.0)]);
    assert!(a + b == [F(11.0), F(22.0), F(33.0)]);
    assert!(b - a == [F(9.0), F(18.0), F(27.0)]);
    assert!(a * F(2.0) == [F(2.0), F(4.0), F(6.0)]);
    assert!(b / F(10.0) == [F(1.0), F(2.0), F(3.0)]);
    assert!(!(a == [F(1.0), F(2.0), F(4.0)]));
    assert_eq!(a[0], F(1.0));
    assert_eq!(a[Z], F(3.0));
    let c = Vec4f::from([F(1.0), F(2.0), F(3.0), F(4.0)]);
    assert_eq!(c[W], F(4.0));
    assert_eq!(c[3], F(4.0));
}

#[test]
fn magnitude_and_norm() {
    let v = Vec2f::from(f2(3.0, 4.0));
    assert_eq!(v.mag(), F(5.0));
    assert!(v.norm() == f2(0.6, 0.8));
    let zero = Vec2f::new();
    assert_eq!(zero.mag(), F(0.0));
    assert!(zero.norm() == f2(0.0, 0.0));
}

#[test]
fn lerp_is_start_plus_part_of_the_way() {
    let v = Vec2f::from(f2(0.0, 10.0));
    assert!(v.lerp(f2(10.0, 20.0), F(0.5)) == f2(5.0, 15.0));
    assert!(v.lerp(f2(10.0, 20.0), F(0.0)) == f2(0.0, 10.0));
    assert!(v.lerp(Vec2f::from(f2(10.0, 20.0)), F(1.0)) == f2(10.0, 20.0));
}

#[test]
fn clamp_holds_each_element_between_its_bounds() {
    let v = Vec3f::from([F(-5.0), F(0.5), F(5.0)]);
    assert!(v.clamp(Vec3f::zero(), Vec3f::one()) == [F(0.0), F(0.5), F(1.0)]);
}

#[test]
fn vector_text() {
    assert_eq!(Vec2f::from(f2(1.0, 2.5)).to_text(), "{ x: 1, y: 2.5 }");
    assert_eq!(Vec4f::from([F(1.0), F(2.0), F(3.0), F(4.0)]).to_text(), "{ x: 1, y: 2, z: 3, w: 4 }");
    assert_eq!(VecN::<F, 1>::from([F(7.0)]).to_text(), "{ x: 7 }");
    assert_eq!(VecN::<F, 0>::from([]).to_text(), "{  }");
}

#[test]
fn matrix_text() {
    assert_eq!(
        Mat2f::identity().to_text(),
        "[ xx: 1, yx: 0, zx: 0 ]\n[ xy: 0, yy: 1, zy: 0 ]\n[ xz: 0, yz: 0, zz: 1 ]\n\n"
    );
    assert_eq!(
        Mat3f::identity().to_text(),
        "[ xx: 1, yx: 0, zx: 0, wx: 0 ]\n[ xy: 0, yy: 1, zy: 0, wy: 0 ]\n[ xz: 0, yz: 0, zz: 1, wz: 0 ]\n[ xw: 0, yw: 0, zw: 0, ww: 1 ]"
    );
}

#[test]
fn matrix_identity_and_rows() {
    let m = Mat2f::identity();
    assert!(m[0] == [F(1.0), F(0.0), F(0.0)]);
    assert!(m[1] == [F(0.0), F(1.0), F(0.0)]);
    assert!(m[2] == [F(0.0), F(0.0), F(1.0)]);
    assert!(m[X] == [F(1.0), F(0.0), F(0.0)]);
    assert!(m[Y] == [F(0.0), F(1.0), F(0.0)]);
    assert!(m[Z] == [F(0.0), F(0.0), F(1.0)]);
    assert_eq!(m.len(), 9);
    let m = Mat3f::identity();
    assert!(m[0] == [F(1.0), F(0.0), F(0.0), F(0.0)]);
    assert!(m[3] == [F(0.0), F(0.0), F(0.0), F(1.0)]);
    assert!(m[X] == [F(1.0), F(0.0), F(0.0), F(0.0)]);
    assert!(m[Y] == [F(0.0), F(1.0), F(0.0), F(0.0)]);
    assert!(m[Z] == [F(0.0), F(0.0), F(1.0), F(0.0)]);
    assert!(m[W] == [F(0.0), F(0.0), F(1.0), F(0.0)]);
    assert_eq!(m.len(), 16);
}

#[test]
fn mem_size_is_the_size_of_the_type() {
    assert_eq!(<u8 as MemSize>::mem_size(), 1);
    assert_eq!(<f32 as MemSize>::mem_size(), 4);
    assert_eq!(<Vec3f as MemSize>::mem_size(), 12);
    assert_eq!(<Mat3f as MemSize>::mem_size(), 64);
    assert_eq!(CHAR_DIM, ['x', 'y', 'z', 'w']);
}

#[test]
fn default_vector_holds_default_elements() {
    assert!(Vec3f::default() == [F(0.0); 3]);
    assert!(Vec2f::zero() == f2(0.0, 0.0));
    assert!(Vec2f::one() == f2(1.0, 1.0));
    assert_eq!(F(2.0).sin(), F(2.0f32.sin()));
    assert_eq!(F(2.0).cos(), F(2.0f32.cos()));
    assert_eq!(F(-2.0).abs(), F(2.0));
    assert_eq!(D(2.0).sin(), D(2.0f64.sin()));
    assert_eq!(D(2.0).cos(), D(2.0f64.cos()));
    assert_eq!(D(-2.0).abs(), D(2.0));
}
