//! The operators `+= -= *= /= %=`, with the contracts of `+ - * / %`.
use vstd::prelude::*;
use core::ops::{Add, AddAssign, Div, DivAssign, Mul, MulAssign, Rem, RemAssign, Sub, SubAssign};
use vstd::std_specs::ops::{AddSpec, DivSpec, MulSpec, RemSpec, SubSpec};
use crate::ops::{
    can_add, can_add_all, can_div, can_div_all, can_mul, can_mul_all, can_rem, can_rem_all,
    can_sub, can_sub_all, is_difference, is_difference_all, is_product, is_product_all,
    is_quotient, is_quotient_all, is_remainder, is_remainder_all, is_sum, is_sum_all, Scalar,
};
use crate::vec_x::{converts_to, repeated, VecX};

verus! {

impl<T, U, const N: usize> AddAssign<VecX<U, N>> for VecX<T, N> where
    T: Add<Output = T> + Copy,
    U: Copy + Into<T>,
{
    /// In-place element-wise `+` with a vector of the same length, whose
    /// elements are converted into `T` first.
    fn add_assign(&mut self, rhs: VecX<U, N>)
        requires
            can_add_all(old(self)@, rhs@),
        ensures
            T::obeys_add_spec() ==> is_sum_all(old(self)@, rhs@, final(self)@),
    {
        for i in 0..N
            invariant
                can_add_all(old(self)@, rhs@),
                T::obeys_add_spec() ==> forall|j: int| 0 <= j < i ==> is_sum(old(self)@[j], rhs@[j], #[trigger] self@[j]),
                forall|j: int| i <= j < N ==> self@[j] == old(self)@[j],
        {
            let x = self.data[i];
            let y: T = rhs.data[i].into();
            assert(x == old(self)@[i as int]);
            assert(can_add(old(self)@[i as int], rhs@[i as int]));
            assert(converts_to(rhs@[i as int], y));
            let z = x + y;
            self.data[i] = z;
            assert(T::obeys_add_spec() ==> is_sum(old(self)@[i as int], rhs@[i as int], z));
        }
    }
}

impl<T, U, const N: usize> AddAssign<U> for VecX<T, N> where
    T: Add<Output = T> + Copy,
    U: Scalar + Into<T>,
{
    /// In-place `+` of every element with one scalar, which is converted
    /// into `T` first.
    fn add_assign(&mut self, rhs: U)
        requires
            can_add_all(old(self)@, repeated(rhs, N as nat)),
        ensures
            T::obeys_add_spec() ==> is_sum_all(old(self)@, repeated(rhs, N as nat), final(self)@),
    {
        for i in 0..N
            invariant
                can_add_all(old(self)@, repeated(rhs, N as nat)),
                T::obeys_add_spec() ==> forall|j: int| 0 <= j < i ==> is_sum(old(self)@[j], rhs, #[trigger] self@[j]),
                forall|j: int| i <= j < N ==> self@[j] == old(self)@[j],
        {
            let x = self.data[i];
            let y: T = rhs.into();
            assert(x == old(self)@[i as int]);
            assert(can_add(old(self)@[i as int], rhs));
            assert(converts_to(rhs, y));
            let z = x + y;
            self.data[i] = z;
            assert(T::obeys_add_spec() ==> is_sum(old(self)@[i as int], rhs, z));
        }
    }
}

impl<T, U, const N: usize> SubAssign<VecX<U, N>> for VecX<T, N> where
    T: Sub<Output = T> + Copy,
    U: Copy + Into<T>,
{
    /// In-place element-wise `-` with a vector of the same length, whose
    /// elements are converted into `T` first.
    fn sub_assign(&mut self, rhs: VecX<U, N>)
        requires
            can_sub_all(old(self)@, rhs@),
        ensures
            T::obeys_sub_spec() ==> is_difference_all(old(self)@, rhs@, final(self)@),
    {
        for i in 0..N
            invariant
                can_sub_all(old(self)@, rhs@),
                T::obeys_sub_spec() ==> forall|j: int| 0 <= j < i ==> is_difference(old(self)@[j], rhs@[j], #[trigger] self@[j]),
                forall|j: int| i <= j < N ==> self@[j] == old(self)@[j],
        {
            let x = self.data[i];
            let y: T = rhs.data[i].into();
            assert(x == old(self)@[i as int]);
            assert(can_sub(old(self)@[i as int], rhs@[i as int]));
            assert(converts_to(rhs@[i as int], y));
            let z = x - y;
            self.data[i] = z;
            assert(T::obeys_sub_spec() ==> is_difference(old(self)@[i as int], rhs@[i as int], z));
        }
    }
}

impl<T, U, const N: usize> SubAssign<U> for VecX<T, N> where
    T: Sub<Output = T> + Copy,
    U: Scalar + Into<T>,
{
    /// In-place `-` of every element with one scalar, which is converted
    /// into `T` first.
    fn sub_assign(&mut self, rhs: U)
        requires
            can_sub_all(old(self)@, repeated(rhs, N as nat)),
        ensures
            T::obeys_sub_spec() ==> is_difference_all(old(self)@, repeated(rhs, N as nat), final(self)@),
    {
        for i in 0..N
            invariant
                can_sub_all(old(self)@, repeated(rhs, N as nat)),
                T::obeys_sub_spec() ==> forall|j: int| 0 <= j < i ==> is_difference(old(self)@[j], rhs, #[trigger] self@[j]),
                forall|j: int| i <= j < N ==> self@[j] == old(self)@[j],
        {
            let x = self.data[i];
            let y: T = rhs.into();
            assert(x == old(self)@[i as int]);
            assert(can_sub(old(self)@[i as int], rhs));
            assert(converts_to(rhs, y));
            let z = x - y;
            self.data[i] = z;
            assert(T::obeys_sub_spec() ==> is_difference(old(self)@[i as int], rhs, z));
        }
    }
}

impl<T, U, const N: usize> MulAssign<VecX<U, N>> for VecX<T, N> where
    T: Mul<Output = T> + Copy,
    U: Copy + Into<T>,
{
    /// In-place element-wise `*` with a vector of the same length, whose
    /// elements are converted into `T` first.
    fn mul_assign(&mut self, rhs: VecX<U, N>)
        requires
            can_mul_all(old(self)@, rhs@),
        ensures
            T::obeys_mul_spec() ==> is_product_all(old(self)@, rhs@, final(self)@),
    {
        for i in 0..N
            invariant
                can_mul_all(old(self)@, rhs@),
                T::obeys_mul_spec() ==> forall|j: int| 0 <= j < i ==> is_product(old(self)@[j], rhs@[j], #[trigger] self@[j]),
                forall|j: int| i <= j < N ==> self@[j] == old(self)@[j],
        {
            let x = self.data[i];
            let y: T = rhs.data[i].into();
            assert(x == old(self)@[i as int]);
            assert(can_mul(old(self)@[i as int], rhs@[i as int]));
            assert(converts_to(rhs@[i as int], y));
            let z = x * y;
            self.data[i] = z;
            assert(T::obeys_mul_spec() ==> is_product(old(self)@[i as int], rhs@[i as int], z));
        }
    }
}

impl<T, U, const N: usize> MulAssign<U> for VecX<T, N> where
    T: Mul<Output = T> + Copy,
    U: Scalar + Into<T>,
{
    /// In-place `*` of every element with one scalar, which is converted
    /// into `T` first.
    fn mul_assign(&mut self, rhs: U)
        requires
            can_mul_all(old(self)@, repeated(rhs, N as nat)),
        ensures
            T::obeys_mul_spec() ==> is_product_all(old(self)@, repeated(rhs, N as nat), final(self)@),
    {
        for i in 0..N
            invariant
                can_mul_all(old(self)@, repeated(rhs, N as nat)),
                T::obeys_mul_spec() ==> forall|j: int| 0 <= j < i ==> is_product(old(self)@[j], rhs, #[trigger] self@[j]),
                forall|j: int| i <= j < N ==> self@[j] == old(self)@[j],
        {
            let x = self.data[i];
            let y: T = rhs.into();
            assert(x == old(self)@[i as int]);
            assert(can_mul(old(self)@[i as int], rhs));
            assert(converts_to(rhs, y));
            let z = x * y;
            self.data[i] = z;
            assert(T::obeys_mul_spec() ==> is_product(old(self)@[i as int], rhs, z));
        }
    }
}

impl<T, U, const N: usize> DivAssign<VecX<U, N>> for VecX<T, N> where
    T: Div<Output = T> + Copy,
    U: Copy + Into<T>,
{
    /// In-place element-wise `/` with a vector of the same length, whose
    /// elements are converted into `T` first.
    fn div_assign(&mut self, rhs: VecX<U, N>)
        requires
            can_div_all(old(self)@, rhs@),
        ensures
            T::obeys_div_spec() ==> is_quotient_all(old(self)@, rhs@, final(self)@),
    {
        for i in 0..N
            invariant
                can_div_all(old(self)@, rhs@),
                T::obeys_div_spec() ==> forall|j: int| 0 <= j < i ==> is_quotient(old(self)@[j], rhs@[j], #[trigger] self@[j]),
                forall|j: int| i <= j < N ==> self@[j] == old(self)@[j],
        {
            let x = self.data[i];
            let y: T = rhs.data[i].into();
            assert(x == old(self)@[i as int]);
            assert(can_div(old(self)@[i as int], rhs@[i as int]));
            assert(converts_to(rhs@[i as int], y));
            let z = x / y;
            self.data[i] = z;
            assert(T::obeys_div_spec() ==> is_quotient(old(self)@[i as int], rhs@[i as int], z));
        }
    }
}

impl<T, U, const N: usize> DivAssign<U> for VecX<T, N> where
    T: Div<Output = T> + Copy,
    U: Scalar + Into<T>,
{
    /// In-place `/` of every element with one scalar, which is converted
    /// into `T` first.
    fn div_assign(&mut self, rhs: U)
        requires
            can_div_all(old(self)@, repeated(rhs, N as nat)),
        ensures
            T::obeys_div_spec() ==> is_quotient_all(old(self)@, repeated(rhs, N as nat), final(self)@),
    {
        for i in 0..N
            invariant
                can_div_all(old(self)@, repeated(rhs, N as nat)),
                T::obeys_div_spec() ==> forall|j: int| 0 <= j < i ==> is_quotient(old(self)@[j], rhs, #[trigger] self@[j]),
                forall|j: int| i <= j < N ==> self@[j] == old(self)@[j],
        {
            let x = self.data[i];
            let y: T = rhs.into();
            assert(x == old(self)@[i as int]);
            assert(can_div(old(self)@[i as int], rhs));
            assert(converts_to(rhs, y));
            let z = x / y;
            self.data[i] = z;
            assert(T::obeys_div_spec() ==> is_quotient(old(self)@[i as int], rhs, z));
        }
    }
}

impl<T, U, const N: usize> RemAssign<VecX<U, N>> for VecX<T, N> where
    T: Rem<Output = T> + Copy,
    U: Copy + Into<T>,
{
    /// In-place element-wise `%` with a vector of the same length, whose
    /// elements are converted into `T` first.
    fn rem_assign(&mut self, rhs: VecX<U, N>)
        requires
            can_rem_all(old(self)@, rhs@),
        ensures
            T::obeys_rem_spec() ==> is_remainder_all(old(self)@, rhs@, final(self)@),
    {
        for i in 0..N
            invariant
                can_rem_all(old(self)@, rhs@),
                T::obeys_rem_spec() ==> forall|j: int| 0 <= j < i ==> is_remainder(old(self)@[j], rhs@[j], #[trigger] self@[j]),
                forall|j: int| i <= j < N ==> self@[j] == old(self)@[j],
        {
            let x = self.data[i];
            let y: T = rhs.data[i].into();
            assert(x == old(self)@[i as int]);
            assert(can_rem(old(self)@[i as int], rhs@[i as int]));
            assert(converts_to(rhs@[i as int], y));
            let z = x % y;
            self.data[i] = z;
            assert(T::obeys_rem_spec() ==> is_remainder(old(self)@[i as int], rhs@[i as int], z));
        }
    }
}

impl<T, U, const N: usize> RemAssign<U> for VecX<T, N> where
    T: Rem<Output = T> + Copy,
    U: Scalar + Into<T>,
{
    /// In-place `%` of every element with one scalar, which is converted
    /// into `T` first.
    fn rem_assign(&mut self, rhs: U)
        requires
            can_rem_all(old(self)@, repeated(rhs, N as nat)),
        ensures
            T::obeys_rem_spec() ==> is_remainder_all(old(self)@, repeated(rhs, N as nat), final(self)@),
    {
        for i in 0..N
            invariant
                can_rem_all(old(self)@, repeated(rhs, N as nat)),
                T::obeys_rem_spec() ==> forall|j: int| 0 <= j < i ==> is_remainder(old(self)@[j], rhs, #[trigger] self@[j]),
                forall|j: int| i <= j < N ==> self@[j] == old(self)@[j],
        {
            let x = self.data[i];
            let y: T = rhs.into();
            assert(x == old(self)@[i as int]);
            assert(can_rem(old(self)@[i as int], rhs));
            assert(converts_to(rhs, y));
            let z = x % y;
            self.data[i] = z;
            assert(T::obeys_rem_spec() ==> is_remainder(old(self)@[i as int], rhs, z));
        }
    }
}

} // verus!
