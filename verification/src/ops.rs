//! The operators `+ - * / %` between a vector and a vector or a scalar.
//!
//! The right-hand side may have another element type, which is converted
//! into the left one with `Into`. What the conversion returns is known only
//! as a relation, so the contracts are relations too: `is_sum` and its like
//! say that an element of the result is the operator's value for some value
//! that the right-hand element converts to.
use vstd::prelude::*;
use core::ops::{Add, Div, Mul, Rem, Sub};
use vstd::std_specs::ops::{AddSpec, DivSpec, MulSpec, RemSpec, SubSpec};
use crate::vec_x::{converts_to, repeated, VecX};

verus! {

/// The element types that can stand alone on the right of an operator. The
/// primitive integers are among them; a vector is not, so that an operator
/// with a vector on its right always works position by position.
pub trait Scalar: Copy {}

impl Scalar for u8 {}

impl Scalar for u16 {}

impl Scalar for u32 {}

impl Scalar for u64 {}

impl Scalar for u128 {}

impl Scalar for usize {}

impl Scalar for i8 {}

impl Scalar for i16 {}

impl Scalar for i32 {}

impl Scalar for i64 {}

impl Scalar for i128 {}

impl Scalar for isize {}

/// `std`'s conversion of a value into its own type, `impl<T> From<T> for T`:
/// it returns its argument unchanged.
pub assume_specification<Same>[ <Same as core::convert::From<Same>>::from ](value: Same) -> (same: Same)
    ensures
        same == value,
;

/// Converting from `U` into `T` is a function: one value has one result.
pub open spec fn conversion_is_function<U: Into<T>, T>() -> bool {
    forall|x: U, y1: T, y2: T| #[trigger] converts_to(x, y1) && #[trigger] converts_to(x, y2) ==> y1 == y2
}

/// `x + y` is defined for every `y` that `u` converts to.
pub open spec fn can_add<T: Add<Output = T>, U: Into<T>>(x: T, u: U) -> bool {
    forall|y: T| #[trigger] converts_to(u, y) ==> x.add_req(y)
}

/// `z` is `x + y` for a `y` that `u` converts to.
pub open spec fn is_sum<T: Add<Output = T>, U: Into<T>>(x: T, u: U, z: T) -> bool {
    exists|y: T| #[trigger] converts_to(u, y) && z == x.add_spec(y)
}

/// [`can_add`] at every position of `a` and `b`.
pub open spec fn can_add_all<T: Add<Output = T>, U: Into<T>>(a: Seq<T>, b: Seq<U>) -> bool {
    forall|i: int| 0 <= i < a.len() ==> can_add(#[trigger] a[i], b[i])
}

/// [`is_sum`] at every position of `a`, `b` and `c`.
pub open spec fn is_sum_all<T: Add<Output = T>, U: Into<T>>(a: Seq<T>, b: Seq<U>, c: Seq<T>) -> bool {
    forall|i: int| 0 <= i < a.len() ==> is_sum(a[i], b[i], #[trigger] c[i])
}

/// `x - y` is defined for every `y` that `u` converts to.
pub open spec fn can_sub<T: Sub<Output = T>, U: Into<T>>(x: T, u: U) -> bool {
    forall|y: T| #[trigger] converts_to(u, y) ==> x.sub_req(y)
}

/// `z` is `x - y` for a `y` that `u` converts to.
pub open spec fn is_difference<T: Sub<Output = T>, U: Into<T>>(x: T, u: U, z: T) -> bool {
    exists|y: T| #[trigger] converts_to(u, y) && z == x.sub_spec(y)
}

/// [`can_sub`] at every position of `a` and `b`.
pub open spec fn can_sub_all<T: Sub<Output = T>, U: Into<T>>(a: Seq<T>, b: Seq<U>) -> bool {
    forall|i: int| 0 <= i < a.len() ==> can_sub(#[trigger] a[i], b[i])
}

/// [`is_difference`] at every position of `a`, `b` and `c`.
pub open spec fn is_difference_all<T: Sub<Output = T>, U: Into<T>>(a: Seq<T>, b: Seq<U>, c: Seq<T>) -> bool {
    forall|i: int| 0 <= i < a.len() ==> is_difference(a[i], b[i], #[trigger] c[i])
}

/// `x * y` is defined for every `y` that `u` converts to.
pub open spec fn can_mul<T: Mul<Output = T>, U: Into<T>>(x: T, u: U) -> bool {
    forall|y: T| #[trigger] converts_to(u, y) ==> x.mul_req(y)
}

/// `z` is `x * y` for a `y` that `u` converts to.
pub open spec fn is_product<T: Mul<Output = T>, U: Into<T>>(x: T, u: U, z: T) -> bool {
    exists|y: T| #[trigger] converts_to(u, y) && z == x.mul_spec(y)
}

/// [`can_mul`] at every position of `a` and `b`.
pub open spec fn can_mul_all<T: Mul<Output = T>, U: Into<T>>(a: Seq<T>, b: Seq<U>) -> bool {
    forall|i: int| 0 <= i < a.len() ==> can_mul(#[trigger] a[i], b[i])
}

/// [`is_product`] at every position of `a`, `b` and `c`.
pub open spec fn is_product_all<T: Mul<Output = T>, U: Into<T>>(a: Seq<T>, b: Seq<U>, c: Seq<T>) -> bool {
    forall|i: int| 0 <= i < a.len() ==> is_product(a[i], b[i], #[trigger] c[i])
}

/// `x / y` is defined for every `y` that `u` converts to.
pub open spec fn can_div<T: Div<Output = T>, U: Into<T>>(x: T, u: U) -> bool {
    forall|y: T| #[trigger] converts_to(u, y) ==> x.div_req(y)
}

/// `z` is `x / y` for a `y` that `u` converts to.
pub open spec fn is_quotient<T: Div<Output = T>, U: Into<T>>(x: T, u: U, z: T) -> bool {
    exists|y: T| #[trigger] converts_to(u, y) && z == x.div_spec(y)
}

/// [`can_div`] at every position of `a` and `b`.
pub open spec fn can_div_all<T: Div<Output = T>, U: Into<T>>(a: Seq<T>, b: Seq<U>) -> bool {
    forall|i: int| 0 <= i < a.len() ==> can_div(#[trigger] a[i], b[i])
}

/// [`is_quotient`] at every position of `a`, `b` and `c`.
pub open spec fn is_quotient_all<T: Div<Output = T>, U: Into<T>>(a: Seq<T>, b: Seq<U>, c: Seq<T>) -> bool {
    forall|i: int| 0 <= i < a.len() ==> is_quotient(a[i], b[i], #[trigger] c[i])
}

/// `x % y` is defined for every `y` that `u` converts to.
pub open spec fn can_rem<T: Rem<Output = T>, U: Into<T>>(x: T, u: U) -> bool {
    forall|y: T| #[trigger] converts_to(u, y) ==> x.rem_req(y)
}

/// `z` is `x % y` for a `y` that `u` converts to.
pub open spec fn is_remainder<T: Rem<Output = T>, U: Into<T>>(x: T, u: U, z: T) -> bool {
    exists|y: T| #[trigger] converts_to(u, y) && z == x.rem_spec(y)
}

/// [`can_rem`] at every position of `a` and `b`.
pub open spec fn can_rem_all<T: Rem<Output = T>, U: Into<T>>(a: Seq<T>, b: Seq<U>) -> bool {
    forall|i: int| 0 <= i < a.len() ==> can_rem(#[trigger] a[i], b[i])
}

/// [`is_remainder`] at every position of `a`, `b` and `c`.
pub open spec fn is_remainder_all<T: Rem<Output = T>, U: Into<T>>(a: Seq<T>, b: Seq<U>, c: Seq<T>) -> bool {
    forall|i: int| 0 <= i < a.len() ==> is_remainder(a[i], b[i], #[trigger] c[i])
}

/// The result depends on what the conversion returns, so it is stated by
/// `add`'s own `ensures` and not through `add_spec`.
impl<T, U, const N: usize> vstd::std_specs::ops::AddSpecImpl<VecX<U, N>> for VecX<T, N> where
    T: Add<Output = T> + Copy,
    U: Copy + Into<T>,
{
    open spec fn obeys_add_spec() -> bool {
        false
    }

    open spec fn add_req(self, rhs: VecX<U, N>) -> bool {
        can_add_all(self@, rhs@)
    }

    open spec fn add_spec(self, rhs: VecX<U, N>) -> Self {
        arbitrary()
    }
}

impl<T, U, const N: usize> Add<VecX<U, N>> for VecX<T, N> where
    T: Add<Output = T> + Copy,
    U: Copy + Into<T>,
{
    type Output = Self;

    /// Element-wise `+` with a vector of the same length, whose elements are
    /// converted into `T` first.
    fn add(self, rhs: VecX<U, N>) -> (ret: Self)
        ensures
            T::obeys_add_spec() ==> is_sum_all(self@, rhs@, ret@),
    {
        let mut out = self;
        for i in 0..N
            invariant
                can_add_all(self@, rhs@),
                T::obeys_add_spec() ==> forall|j: int| 0 <= j < i ==> is_sum(self@[j], rhs@[j], #[trigger] out@[j]),
                forall|j: int| i <= j < N ==> out@[j] == self@[j],
        {
            let x = out.data[i];
            let y: T = rhs.data[i].into();
            assert(x == self@[i as int]);
            assert(can_add(self@[i as int], rhs@[i as int]));
            assert(converts_to(rhs@[i as int], y));
            let z = x + y;
            out.data[i] = z;
            assert(T::obeys_add_spec() ==> is_sum(self@[i as int], rhs@[i as int], z));
        }
        out
    }
}

/// The result depends on what the conversion returns, so it is stated by
/// `add`'s own `ensures` and not through `add_spec`.
impl<T, U, const N: usize> vstd::std_specs::ops::AddSpecImpl<U> for VecX<T, N> where
    T: Add<Output = T> + Copy,
    U: Scalar + Into<T>,
{
    open spec fn obeys_add_spec() -> bool {
        false
    }

    open spec fn add_req(self, rhs: U) -> bool {
        can_add_all(self@, repeated(rhs, N as nat))
    }

    open spec fn add_spec(self, rhs: U) -> Self {
        arbitrary()
    }
}

impl<T, U, const N: usize> Add<U> for VecX<T, N> where
    T: Add<Output = T> + Copy,
    U: Scalar + Into<T>,
{
    type Output = Self;

    /// `+` of every element with one scalar, which is converted into `T`
    /// first: the same as `+` with the vector that repeats the scalar.
    fn add(self, rhs: U) -> (ret: Self)
        ensures
            T::obeys_add_spec() ==> is_sum_all(self@, repeated(rhs, N as nat), ret@),
    {
        let mut out = self;
        for i in 0..N
            invariant
                can_add_all(self@, repeated(rhs, N as nat)),
                T::obeys_add_spec() ==> forall|j: int| 0 <= j < i ==> is_sum(self@[j], rhs, #[trigger] out@[j]),
                forall|j: int| i <= j < N ==> out@[j] == self@[j],
        {
            let x = out.data[i];
            let y: T = rhs.into();
            assert(x == self@[i as int]);
            assert(can_add(self@[i as int], rhs));
            assert(converts_to(rhs, y));
            let z = x + y;
            out.data[i] = z;
            assert(T::obeys_add_spec() ==> is_sum(self@[i as int], rhs, z));
        }
        out
    }
}

/// The result depends on what the conversion returns, so it is stated by
/// `sub`'s own `ensures` and not through `sub_spec`.
impl<T, U, const N: usize> vstd::std_specs::ops::SubSpecImpl<VecX<U, N>> for VecX<T, N> where
    T: Sub<Output = T> + Copy,
    U: Copy + Into<T>,
{
    open spec fn obeys_sub_spec() -> bool {
        false
    }

    open spec fn sub_req(self, rhs: VecX<U, N>) -> bool {
        can_sub_all(self@, rhs@)
    }

    open spec fn sub_spec(self, rhs: VecX<U, N>) -> Self {
        arbitrary()
    }
}

impl<T, U, const N: usize> Sub<VecX<U, N>> for VecX<T, N> where
    T: Sub<Output = T> + Copy,
    U: Copy + Into<T>,
{
    type Output = Self;

    /// Element-wise `-` with a vector of the same length, whose elements are
    /// converted into `T` first.
    fn sub(self, rhs: VecX<U, N>) -> (ret: Self)
        ensures
            T::obeys_sub_spec() ==> is_difference_all(self@, rhs@, ret@),
    {
        let mut out = self;
        for i in 0..N
            invariant
                can_sub_all(self@, rhs@),
                T::obeys_sub_spec() ==> forall|j: int| 0 <= j < i ==> is_difference(self@[j], rhs@[j], #[trigger] out@[j]),
                forall|j: int| i <= j < N ==> out@[j] == self@[j],
        {
            let x = out.data[i];
            let y: T = rhs.data[i].into();
            assert(x == self@[i as int]);
            assert(can_sub(self@[i as int], rhs@[i as int]));
            assert(converts_to(rhs@[i as int], y));
            let z = x - y;
            out.data[i] = z;
            assert(T::obeys_sub_spec() ==> is_difference(self@[i as int], rhs@[i as int], z));
        }
        out
    }
}

/// The result depends on what the conversion returns, so it is stated by
/// `sub`'s own `ensures` and not through `sub_spec`.
impl<T, U, const N: usize> vstd::std_specs::ops::SubSpecImpl<U> for VecX<T, N> where
    T: Sub<Output = T> + Copy,
    U: Scalar + Into<T>,
{
    open spec fn obeys_sub_spec() -> bool {
        false
    }

    open spec fn sub_req(self, rhs: U) -> bool {
        can_sub_all(self@, repeated(rhs, N as nat))
    }

    open spec fn sub_spec(self, rhs: U) -> Self {
        arbitrary()
    }
}

impl<T, U, const N: usize> Sub<U> for VecX<T, N> where
    T: Sub<Output = T> + Copy,
    U: Scalar + Into<T>,
{
    type Output = Self;

    /// `-` of every element with one scalar, which is converted into `T`
    /// first: the same as `-` with the vector that repeats the scalar.
    fn sub(self, rhs: U) -> (ret: Self)
        ensures
            T::obeys_sub_spec() ==> is_difference_all(self@, repeated(rhs, N as nat), ret@),
    {
        let mut out = self;
        for i in 0..N
            invariant
                can_sub_all(self@, repeated(rhs, N as nat)),
                T::obeys_sub_spec() ==> forall|j: int| 0 <= j < i ==> is_difference(self@[j], rhs, #[trigger] out@[j]),
                forall|j: int| i <= j < N ==> out@[j] == self@[j],
        {
            let x = out.data[i];
            let y: T = rhs.into();
            assert(x == self@[i as int]);
            assert(can_sub(self@[i as int], rhs));
            assert(converts_to(rhs, y));
            let z = x - y;
            out.data[i] = z;
            assert(T::obeys_sub_spec() ==> is_difference(self@[i as int], rhs, z));
        }
        out
    }
}

/// The result depends on what the conversion returns, so it is stated by
/// `mul`'s own `ensures` and not through `mul_spec`.
impl<T, U, const N: usize> vstd::std_specs::ops::MulSpecImpl<VecX<U, N>> for VecX<T, N> where
    T: Mul<Output = T> + Copy,
    U: Copy + Into<T>,
{
    open spec fn obeys_mul_spec() -> bool {
        false
    }

    open spec fn mul_req(self, rhs: VecX<U, N>) -> bool {
        can_mul_all(self@, rhs@)
    }

    open spec fn mul_spec(self, rhs: VecX<U, N>) -> Self {
        arbitrary()
    }
}

impl<T, U, const N: usize> Mul<VecX<U, N>> for VecX<T, N> where
    T: Mul<Output = T> + Copy,
    U: Copy + Into<T>,
{
    type Output = Self;

    /// Element-wise `*` with a vector of the same length, whose elements are
    /// converted into `T` first.
    fn mul(self, rhs: VecX<U, N>) -> (ret: Self)
        ensures
            T::obeys_mul_spec() ==> is_product_all(self@, rhs@, ret@),
    {
        let mut out = self;
        for i in 0..N
            invariant
                can_mul_all(self@, rhs@),
                T::obeys_mul_spec() ==> forall|j: int| 0 <= j < i ==> is_product(self@[j], rhs@[j], #[trigger] out@[j]),
                forall|j: int| i <= j < N ==> out@[j] == self@[j],
        {
            let x = out.data[i];
            let y: T = rhs.data[i].into();
            assert(x == self@[i as int]);
            assert(can_mul(self@[i as int], rhs@[i as int]));
            assert(converts_to(rhs@[i as int], y));
            let z = x * y;
            out.data[i] = z;
            assert(T::obeys_mul_spec() ==> is_product(self@[i as int], rhs@[i as int], z));
        }
        out
    }
}

/// The result depends on what the conversion returns, so it is stated by
/// `mul`'s own `ensures` and not through `mul_spec`.
impl<T, U, const N: usize> vstd::std_specs::ops::MulSpecImpl<U> for VecX<T, N> where
    T: Mul<Output = T> + Copy,
    U: Scalar + Into<T>,
{
    open spec fn obeys_mul_spec() -> bool {
        false
    }

    open spec fn mul_req(self, rhs: U) -> bool {
        can_mul_all(self@, repeated(rhs, N as nat))
    }

    open spec fn mul_spec(self, rhs: U) -> Self {
        arbitrary()
    }
}

impl<T, U, const N: usize> Mul<U> for VecX<T, N> where
    T: Mul<Output = T> + Copy,
    U: Scalar + Into<T>,
{
    type Output = Self;

    /// `*` of every element with one scalar, which is converted into `T`
    /// first: the same as `*` with the vector that repeats the scalar.
    fn mul(self, rhs: U) -> (ret: Self)
        ensures
            T::obeys_mul_spec() ==> is_product_all(self@, repeated(rhs, N as nat), ret@),
    {
        let mut out = self;
        for i in 0..N
            invariant
                can_mul_all(self@, repeated(rhs, N as nat)),
                T::obeys_mul_spec() ==> forall|j: int| 0 <= j < i ==> is_product(self@[j], rhs, #[trigger] out@[j]),
                forall|j: int| i <= j < N ==> out@[j] == self@[j],
        {
            let x = out.data[i];
            let y: T = rhs.into();
            assert(x == self@[i as int]);
            assert(can_mul(self@[i as int], rhs));
            assert(converts_to(rhs, y));
            let z = x * y;
            out.data[i] = z;
            assert(T::obeys_mul_spec() ==> is_product(self@[i as int], rhs, z));
        }
        out
    }
}

/// The result depends on what the conversion returns, so it is stated by
/// `div`'s own `ensures` and not through `div_spec`.
impl<T, U, const N: usize> vstd::std_specs::ops::DivSpecImpl<VecX<U, N>> for VecX<T, N> where
    T: Div<Output = T> + Copy,
    U: Copy + Into<T>,
{
    open spec fn obeys_div_spec() -> bool {
        false
    }

    open spec fn div_req(self, rhs: VecX<U, N>) -> bool {
        can_div_all(self@, rhs@)
    }

    open spec fn div_spec(self, rhs: VecX<U, N>) -> Self {
        arbitrary()
    }
}

impl<T, U, const N: usize> Div<VecX<U, N>> for VecX<T, N> where
    T: Div<Output = T> + Copy,
    U: Copy + Into<T>,
{
    type Output = Self;

    /// Element-wise `/` with a vector of the same length, whose elements are
    /// converted into `T` first.
    fn div(self, rhs: VecX<U, N>) -> (ret: Self)
        ensures
            T::obeys_div_spec() ==> is_quotient_all(self@, rhs@, ret@),
    {
        let mut out = self;
        for i in 0..N
            invariant
                can_div_all(self@, rhs@),
                T::obeys_div_spec() ==> forall|j: int| 0 <= j < i ==> is_quotient(self@[j], rhs@[j], #[trigger] out@[j]),
                forall|j: int| i <= j < N ==> out@[j] == self@[j],
        {
            let x = out.data[i];
            let y: T = rhs.data[i].into();
            assert(x == self@[i as int]);
            assert(can_div(self@[i as int], rhs@[i as int]));
            assert(converts_to(rhs@[i as int], y));
            let z = x / y;
            out.data[i] = z;
            assert(T::obeys_div_spec() ==> is_quotient(self@[i as int], rhs@[i as int], z));
        }
        out
    }
}

/// The result depends on what the conversion returns, so it is stated by
/// `div`'s own `ensures` and not through `div_spec`.
impl<T, U, const N: usize> vstd::std_specs::ops::DivSpecImpl<U> for VecX<T, N> where
    T: Div<Output = T> + Copy,
    U: Scalar + Into<T>,
{
    open spec fn obeys_div_spec() -> bool {
        false
    }

    open spec fn div_req(self, rhs: U) -> bool {
        can_div_all(self@, repeated(rhs, N as nat))
    }

    open spec fn div_spec(self, rhs: U) -> Self {
        arbitrary()
    }
}

impl<T, U, const N: usize> Div<U> for VecX<T, N> where
    T: Div<Output = T> + Copy,
    U: Scalar + Into<T>,
{
    type Output = Self;

    /// `/` of every element with one scalar, which is converted into `T`
    /// first: the same as `/` with the vector that repeats the scalar.
    fn div(self, rhs: U) -> (ret: Self)
        ensures
            T::obeys_div_spec() ==> is_quotient_all(self@, repeated(rhs, N as nat), ret@),
    {
        let mut out = self;
        for i in 0..N
            invariant
                can_div_all(self@, repeated(rhs, N as nat)),
                T::obeys_div_spec() ==> forall|j: int| 0 <= j < i ==> is_quotient(self@[j], rhs, #[trigger] out@[j]),
                forall|j: int| i <= j < N ==> out@[j] == self@[j],
        {
            let x = out.data[i];
            let y: T = rhs.into();
            assert(x == self@[i as int]);
            assert(can_div(self@[i as int], rhs));
            assert(converts_to(rhs, y));
            let z = x / y;
            out.data[i] = z;
            assert(T::obeys_div_spec() ==> is_quotient(self@[i as int], rhs, z));
        }
        out
    }
}

/// The result depends on what the conversion returns, so it is stated by
/// `rem`'s own `ensures` and not through `rem_spec`.
impl<T, U, const N: usize> vstd::std_specs::ops::RemSpecImpl<VecX<U, N>> for VecX<T, N> where
    T: Rem<Output = T> + Copy,
    U: Copy + Into<T>,
{
    open spec fn obeys_rem_spec() -> bool {
        false
    }

    open spec fn rem_req(self, rhs: VecX<U, N>) -> bool {
        can_rem_all(self@, rhs@)
    }

    open spec fn rem_spec(self, rhs: VecX<U, N>) -> Self {
        arbitrary()
    }
}

impl<T, U, const N: usize> Rem<VecX<U, N>> for VecX<T, N> where
    T: Rem<Output = T> + Copy,
    U: Copy + Into<T>,
{
    type Output = Self;

    /// Element-wise `%` with a vector of the same length, whose elements are
    /// converted into `T` first.
    fn rem(self, rhs: VecX<U, N>) -> (ret: Self)
        ensures
            T::obeys_rem_spec() ==> is_remainder_all(self@, rhs@, ret@),
    {
        let mut out = self;
        for i in 0..N
            invariant
                can_rem_all(self@, rhs@),
                T::obeys_rem_spec() ==> forall|j: int| 0 <= j < i ==> is_remainder(self@[j], rhs@[j], #[trigger] out@[j]),
                forall|j: int| i <= j < N ==> out@[j] == self@[j],
        {
            let x = out.data[i];
            let y: T = rhs.data[i].into();
            assert(x == self@[i as int]);
            assert(can_rem(self@[i as int], rhs@[i as int]));
            assert(converts_to(rhs@[i as int], y));
            let z = x % y;
            out.data[i] = z;
            assert(T::obeys_rem_spec() ==> is_remainder(self@[i as int], rhs@[i as int], z));
        }
        out
    }
}

/// The result depends on what the conversion returns, so it is stated by
/// `rem`'s own `ensures` and not through `rem_spec`.
impl<T, U, const N: usize> vstd::std_specs::ops::RemSpecImpl<U> for VecX<T, N> where
    T: Rem<Output = T> + Copy,
    U: Scalar + Into<T>,
{
    open spec fn obeys_rem_spec() -> bool {
        false
    }

    open spec fn rem_req(self, rhs: U) -> bool {
        can_rem_all(self@, repeated(rhs, N as nat))
    }

    open spec fn rem_spec(self, rhs: U) -> Self {
        arbitrary()
    }
}

impl<T, U, const N: usize> Rem<U> for VecX<T, N> where
    T: Rem<Output = T> + Copy,
    U: Scalar + Into<T>,
{
    type Output = Self;

    /// `%` of every element with one scalar, which is converted into `T`
    /// first: the same as `%` with the vector that repeats the scalar.
    fn rem(self, rhs: U) -> (ret: Self)
        ensures
            T::obeys_rem_spec() ==> is_remainder_all(self@, repeated(rhs, N as nat), ret@),
    {
        let mut out = self;
        for i in 0..N
            invariant
                can_rem_all(self@, repeated(rhs, N as nat)),
                T::obeys_rem_spec() ==> forall|j: int| 0 <= j < i ==> is_remainder(self@[j], rhs, #[trigger] out@[j]),
                forall|j: int| i <= j < N ==> out@[j] == self@[j],
        {
            let x = out.data[i];
            let y: T = rhs.into();
            assert(x == self@[i as int]);
            assert(can_rem(self@[i as int], rhs));
            assert(converts_to(rhs, y));
            let z = x % y;
            out.data[i] = z;
            assert(T::obeys_rem_spec() ==> is_remainder(self@[i as int], rhs, z));
        }
        out
    }
}

} // verus!
