//! Equality and the partial order of vectors: a vector is above another
//! where it is nowhere below it.
use vstd::prelude::*;
use core::cmp::Ordering;
use vstd::std_specs::cmp::{PartialEqSpec, PartialOrdSpec, PartialOrdIs};
use crate::vec_x::VecX;

verus! {

/// `T`'s `==` decides the equality of specifications: two values are `==`
/// exactly when they are the same value.
pub open spec fn exact_eq<T: PartialEq>() -> bool {
    T::obeys_eq_spec() && forall|x: T, y: T| #[trigger] x.eq_spec(&y) <==> x == y
}

/// Every element of `a` equals the element of `b` at its position, by the
/// elements' own `==`.
pub open spec fn all_equal<T: PartialEq>(a: Seq<T>, b: Seq<T>) -> bool {
    forall|i: int| 0 <= i < a.len() ==> (#[trigger] a[i]).eq_spec(&b[i])
}

/// Every element of `a` is greater than or equal to the element of `b` at
/// its position.
pub open spec fn all_at_least<T: PartialOrd>(a: Seq<T>, b: Seq<T>) -> bool {
    forall|i: int| 0 <= i < a.len() ==> (#[trigger] a[i]).is_ge(&b[i])
}

/// Every element of `a` is less than or equal to the element of `b` at its
/// position.
pub open spec fn all_at_most<T: PartialOrd>(a: Seq<T>, b: Seq<T>) -> bool {
    forall|i: int| 0 <= i < a.len() ==> (#[trigger] a[i]).is_le(&b[i])
}

/// How two element sequences of one length compare: equal, the first
/// nowhere below the second, the first nowhere above it, or neither.
pub open spec fn compare_elements<T: PartialOrd>(a: Seq<T>, b: Seq<T>) -> Option<Ordering> {
    if all_equal(a, b) {
        Some(Ordering::Equal)
    } else if all_at_least(a, b) {
        Some(Ordering::Greater)
    } else if all_at_most(a, b) {
        Some(Ordering::Less)
    } else {
        None
    }
}

impl<T: PartialEq, const N: usize> vstd::std_specs::cmp::PartialEqSpecImpl for VecX<T, N> {
    open spec fn obeys_eq_spec() -> bool {
        T::obeys_eq_spec()
    }

    open spec fn eq_spec(&self, other: &Self) -> bool {
        all_equal(self@, other@)
    }
}

impl<T: PartialEq, const N: usize> PartialEq for VecX<T, N> {
    fn eq(&self, other: &Self) -> (r: bool) {
        for i in 0..N
            invariant
                T::obeys_eq_spec() ==> forall|j: int| 0 <= j < i ==> (#[trigger] self@[j]).eq_spec(&other@[j]),
        {
            if !(self.data[i] == other.data[i]) {
                return false;
            }
        }
        true
    }
}

impl<T: Eq, const N: usize> Eq for VecX<T, N> {}

/// Where the elements' `==` is exact, so is the vectors'.
pub proof fn lemma_exact_eq<T: PartialEq, const N: usize>(a: VecX<T, N>, b: VecX<T, N>)
    requires
        exact_eq::<T>(),
    ensures
        a.eq_spec(&b) <==> a == b,
{
    if a.eq_spec(&b) {
        assert forall|i: int| 0 <= i < N implies a.data[i] == b.data[i] by {
            assert(a@[i].eq_spec(&b@[i]));
        }
        assert(a.data =~= b.data);
    }
}

impl<T: PartialOrd + Copy, const N: usize> vstd::std_specs::cmp::PartialOrdSpecImpl for VecX<T, N> {
    open spec fn obeys_partial_cmp_spec() -> bool {
        T::obeys_eq_spec() && T::obeys_partial_cmp_spec()
    }

    open spec fn partial_cmp_spec(&self, other: &Self) -> Option<Ordering> {
        compare_elements(self@, other@)
    }
}

impl<T: PartialOrd + Copy, const N: usize> PartialOrd for VecX<T, N> {
    fn partial_cmp(&self, other: &Self) -> (r: Option<Ordering>) {
        if self == other {
            Some(Ordering::Equal)
        } else {
            let mut nowhere_below = true;
            let mut nowhere_above = true;
            for i in 0..N
                invariant
                    T::obeys_partial_cmp_spec() ==> (nowhere_below <==> forall|j: int|
                        0 <= j < i ==> (#[trigger] self@[j]).is_ge(&other@[j])),
                    T::obeys_partial_cmp_spec() ==> (nowhere_above <==> forall|j: int|
                        0 <= j < i ==> (#[trigger] self@[j]).is_le(&other@[j])),
            {
                if !(self.data[i] >= other.data[i]) {
                    nowhere_below = false;
                }
                if !(self.data[i] <= other.data[i]) {
                    nowhere_above = false;
                }
            }
            if nowhere_below {
                return Some(Ordering::Greater);
            }
            if nowhere_above {
                return Some(Ordering::Less);
            }
            None
        }
    }
}

/// Vectors that are equal compare as equal, so each is both at least and at
/// most the other, and neither is below or above the other.
pub proof fn lemma_equal_is_at_least_and_at_most<T: PartialOrd + Copy, const N: usize>(
    a: VecX<T, N>,
    b: VecX<T, N>,
)
    requires
        a.eq_spec(&b),
    ensures
        a.partial_cmp_spec(&b) == Some(Ordering::Equal),
        a.is_ge(&b),
        a.is_le(&b),
        !a.is_gt(&b),
        !a.is_lt(&b),
{
}

/// Vectors that are not equal compare as `Greater` exactly where the first
/// is nowhere below the second, as `Less` exactly where it is nowhere above
/// and somewhere below, and not at all in any other case.
pub proof fn lemma_unequal_comparison<T: PartialOrd + Copy, const N: usize>(
    a: VecX<T, N>,
    b: VecX<T, N>,
)
    requires
        !a.eq_spec(&b),
    ensures
        a.is_gt(&b) <==> all_at_least(a@, b@),
        a.is_lt(&b) <==> all_at_most(a@, b@) && !all_at_least(a@, b@),
        a.partial_cmp_spec(&b).is_none() <==> !all_at_most(a@, b@) && !all_at_least(a@, b@),
{
}

} // verus!
