//! The vector type, its constructors, conversions and element access.
use vstd::prelude::*;
use core::ops::Index;

verus! {

/// A fixed-length array of `N` elements of one type.
///
/// Its view is the sequence of its elements, of length `N`.
#[derive(Debug, Hash)]
pub struct VecX<T, const N: usize> {
    pub data: [T; N],
}

impl<T, const N: usize> View for VecX<T, N> {
    type V = Seq<T>;

    open spec fn view(&self) -> Seq<T> {
        self.data@
    }
}

impl<T: Clone, const N: usize> Clone for VecX<T, N> {
    /// Clones element by element.
    fn clone(&self) -> (v: Self)
        ensures
            forall|i: int| 0 <= i < N ==> cloned::<T>(#[trigger] self@[i], v@[i]),
    {
        VecX { data: self.data.clone() }
    }
}

impl<T: Copy, const N: usize> Copy for VecX<T, N> {}

impl<T: Default + Copy, const N: usize> Default for VecX<T, N> {
    /// The vector that holds one default value of `T` at every position.
    fn default() -> (v: Self)
        ensures
            forall|i: int| 0 <= i < N ==> call_ensures(T::default, (), #[trigger] v@[i]),
            forall|i: int, j: int| 0 <= i < N && 0 <= j < N ==> v@[i] == v@[j],
    {
        Self { data: [T::default(); N] }
    }
}

/// The sequence of length `len` that holds `value` at every position.
pub open spec fn repeated<T>(value: T, len: nat) -> Seq<T> {
    Seq::new(len, |i: int| value)
}

/// `y` is a value that `x.into()` can return.
pub open spec fn converts_to<U: Into<T>, T>(x: U, y: T) -> bool {
    call_ensures(<U as Into<T>>::into, (x,), y)
}

/// `std`'s `<[T; N]>::map`: the array of what `f` returns for each element
/// of `data`, at the same position.
#[verifier::external_body]
fn map_array<T, U, F: Fn(T) -> U, const N: usize>(data: [T; N], f: F) -> (out: [U; N])
    requires
        forall|i: int| 0 <= i < N ==> call_requires(f, (#[trigger] data@[i],)),
    ensures
        forall|i: int| 0 <= i < N ==> call_ensures(f, (data@[i],), #[trigger] out@[i]),
{
    data.map(f)
}

impl<T, const N: usize> VecX<T, N> {
    /// The vector of the elements of `data`.
    pub fn new(data: [T; N]) -> (v: Self)
        ensures
            v.data == data,
    {
        Self { data }
    }

    /// The vector that holds `value` at every position.
    pub fn new_with(value: T) -> (v: Self) where T: Copy
        ensures
            v@ == repeated(value, N as nat),
    {
        Self { data: [value; N] }
    }

    /// Converts every element into `U`.
    pub fn into<U>(self) -> (v: VecX<U, N>) where T: Into<U>
        ensures
            forall|i: int| 0 <= i < N ==> converts_to(self@[i], #[trigger] v@[i]),
    {
        let convert = |x: T| -> (y: U)
            ensures
                converts_to(x, y),
            { x.into() };
        VecX { data: map_array(self.data, convert) }
    }

    /// Converts every element of `vec` into `T`: each element of the result
    /// is what `T::from` returns for the element of `vec` at its position.
    pub fn from<U>(vec: VecX<U, N>) -> (v: Self) where T: From<U>
        ensures
            forall|i: int| 0 <= i < N ==> call_ensures(<T as From<U>>::from, (vec@[i],), #[trigger] v@[i]),
    {
        let convert = |x: U| -> (y: T)
            ensures
                call_ensures(<T as From<U>>::from, (x,), y),
            { T::from(x) };
        VecX { data: map_array(vec.data, convert) }
    }

    /// The vector of length `M` that starts as `self` does: cut after `M`
    /// elements where `self` is longer, and filled up with one default value
    /// of `T` where it is shorter.
    pub fn fit<const M: usize>(&self) -> (v: VecX<T, M>) where T: Default + Copy
        ensures
            forall|i: int| 0 <= i < N && i < M ==> v@[i] == self@[i],
            forall|i: int| N <= i < M ==> call_ensures(T::default, (), #[trigger] v@[i]),
            forall|i: int, j: int| N <= i < M && N <= j < M ==> v@[i] == v@[j],
    {
        let fill = T::default();
        let mut data = [fill; M];
        let len = if N < M { N } else { M };
        for i in 0..len
            invariant
                len <= N,
                len <= M,
                forall|j: int| 0 <= j < i ==> data@[j] == self@[j],
                forall|j: int| i <= j < M ==> data@[j] == fill,
        {
            data[i] = self.data[i];
        }
        VecX { data }
    }

    /// Applies `callback` to every element.
    pub fn batch<U, F>(self, callback: F) -> (v: VecX<U, N>) where F: Fn(T) -> U
        requires
            forall|i: int| 0 <= i < N ==> call_requires(callback, (#[trigger] self@[i],)),
        ensures
            forall|i: int| 0 <= i < N ==> call_ensures(callback, (self@[i],), #[trigger] v@[i]),
    {
        VecX { data: map_array(self.data, callback) }
    }

    /// Applies `callback` to every element of `self` together with the
    /// element of `other` at its position.
    pub fn batch_with<U, V, F>(self, other: VecX<U, N>, callback: F) -> (v: VecX<V, N>) where
        T: Copy,
        U: Copy,
        V: Default + Copy,
        F: Fn(T, U) -> V,
        requires
            forall|i: int| 0 <= i < N ==> call_requires(callback, (#[trigger] self@[i], other@[i])),
        ensures
            forall|i: int| 0 <= i < N ==> call_ensures(callback, (self@[i], other@[i]), #[trigger] v@[i]),
    {
        let mut data = [V::default(); N];
        for i in 0..N
            invariant
                forall|j: int| 0 <= j < N ==> call_requires(callback, (#[trigger] self@[j], other@[j])),
                forall|j: int| 0 <= j < i ==> call_ensures(callback, (self@[j], other@[j]), #[trigger] data@[j]),
        {
            assert(call_requires(callback, (self@[i as int], other@[i as int])));
            data[i] = callback(self.data[i], other.data[i]);
        }
        VecX { data }
    }

    /// The element at `index`, to be written in place.
    pub fn index_mut(&mut self, index: usize) -> (element: &mut T)
        requires
            index < N,
        ensures
            *element == old(self)@[index as int],
            final(self)@ == old(self)@.update(index as int, *final(element)),
    {
        &mut self.data[index]
    }
}

impl<T, const N: usize> vstd::std_specs::core::IndexSpecImpl<usize> for VecX<T, N> {
    open spec fn index_req(&self, index: &usize) -> bool {
        *index < N
    }
}

impl<T, const N: usize> Index<usize> for VecX<T, N> {
    type Output = T;

    /// The element at `index`.
    fn index(&self, index: usize) -> (element: &T)
        ensures
            *element == self@[index as int],
    {
        &self.data[index]
    }
}

} // verus!
