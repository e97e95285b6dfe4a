//! What holds of the operators and of the collection, whatever the values.
use vstd::prelude::*;
use core::hash::Hash;
use core::ops::{Add, Div, Mul, Rem, Sub};
use vstd::std_specs::ops::{AddSpec, DivSpec, MulSpec, SubSpec};
use crate::collection::{
    first_index, inserted, occurrence_indices, unique_values, IndexedVecXs,
};
use crate::ops::{
    can_add_all, can_div_all, can_mul_all, can_sub_all, conversion_is_function, is_difference,
    is_difference_all, is_product, is_product_all, is_quotient, is_quotient_all, is_remainder,
    is_remainder_all, is_sum, is_sum_all,
};
use crate::vec_x::{repeated, VecX};

verus! {

/// Two vectors with the same elements are the same vector.
pub proof fn lemma_same_elements<T, const N: usize>(a: VecX<T, N>, b: VecX<T, N>)
    requires
        a@ == b@,
    ensures
        a == b,
{
    assert forall|i: int| 0 <= i < N implies a.data[i] == b.data[i] by {
        assert(a@[i] == b@[i]);
    }
    assert(a.data =~= b.data);
}

/// On `T`, `x + y` and then `- y` is defined wherever `x + y` is, and gives
/// `x` back.
pub open spec fn sub_undoes_add<T: Add<Output = T> + Sub<Output = T>>() -> bool {
    &&& T::obeys_add_spec()
    &&& T::obeys_sub_spec()
    &&& forall|x: T, y: T|
        x.add_req(y) ==> (#[trigger] x.add_spec(y)).sub_req(y) && x.add_spec(y).sub_spec(y) == x
}

/// On `T`, `x * y` and then `/ y` gives `x` back wherever both are defined.
pub open spec fn div_undoes_mul<T: Mul<Output = T> + Div<Output = T>>() -> bool {
    &&& T::obeys_mul_spec()
    &&& T::obeys_div_spec()
    &&& forall|x: T, y: T|
        x.mul_req(y) && (#[trigger] x.mul_spec(y)).div_req(y) ==> x.mul_spec(y).div_spec(y) == x
}

/// Subtraction undoes an addition that did not overflow, on every primitive
/// integer type.
pub proof fn lemma_integers_sub_undoes_add()
    ensures
        sub_undoes_add::<u8>(),
        sub_undoes_add::<u16>(),
        sub_undoes_add::<u32>(),
        sub_undoes_add::<u64>(),
        sub_undoes_add::<u128>(),
        sub_undoes_add::<usize>(),
        sub_undoes_add::<i8>(),
        sub_undoes_add::<i16>(),
        sub_undoes_add::<i32>(),
        sub_undoes_add::<i64>(),
        sub_undoes_add::<i128>(),
        sub_undoes_add::<isize>(),
{
}

proof fn lemma_exact_division(x: int, y: int)
    requires
        y != 0,
    ensures
        (x * y) / y == x,
        (-(x * y)) / y == -x,
{
    assert((x * y) / y == x) by (nonlinear_arith)
        requires
            y != 0,
    ;
    assert((-(x * y)) / y == -x) by (nonlinear_arith)
        requires
            y != 0,
    ;
}

/// Division undoes a multiplication that did not overflow, on every
/// primitive integer type.
pub proof fn lemma_integers_div_undoes_mul()
    ensures
        div_undoes_mul::<u8>(),
        div_undoes_mul::<u16>(),
        div_undoes_mul::<u32>(),
        div_undoes_mul::<u64>(),
        div_undoes_mul::<u128>(),
        div_undoes_mul::<usize>(),
        div_undoes_mul::<i8>(),
        div_undoes_mul::<i16>(),
        div_undoes_mul::<i32>(),
        div_undoes_mul::<i64>(),
        div_undoes_mul::<i128>(),
        div_undoes_mul::<isize>(),
{
    assert forall|x: u8, y: u8|
        x.mul_req(y) && (#[trigger] x.mul_spec(y)).div_req(y) implies x.mul_spec(y).div_spec(y)
        == x by {
        lemma_exact_division(x as int, y as int);
    }
    assert forall|x: u16, y: u16|
        x.mul_req(y) && (#[trigger] x.mul_spec(y)).div_req(y) implies x.mul_spec(y).div_spec(y)
        == x by {
        lemma_exact_division(x as int, y as int);
    }
    assert forall|x: u32, y: u32|
        x.mul_req(y) && (#[trigger] x.mul_spec(y)).div_req(y) implies x.mul_spec(y).div_spec(y)
        == x by {
        lemma_exact_division(x as int, y as int);
    }
    assert forall|x: u64, y: u64|
        x.mul_req(y) && (#[trigger] x.mul_spec(y)).div_req(y) implies x.mul_spec(y).div_spec(y)
        == x by {
        lemma_exact_division(x as int, y as int);
    }
    assert forall|x: u128, y: u128|
        x.mul_req(y) && (#[trigger] x.mul_spec(y)).div_req(y) implies x.mul_spec(y).div_spec(y)
        == x by {
        lemma_exact_division(x as int, y as int);
    }
    assert forall|x: usize, y: usize|
        x.mul_req(y) && (#[trigger] x.mul_spec(y)).div_req(y) implies x.mul_spec(y).div_spec(y)
        == x by {
        lemma_exact_division(x as int, y as int);
    }
    assert forall|x: i8, y: i8|
        x.mul_req(y) && (#[trigger] x.mul_spec(y)).div_req(y) implies x.mul_spec(y).div_spec(y)
        == x by {
        lemma_exact_division(x as int, y as int);
    }
    assert forall|x: i16, y: i16|
        x.mul_req(y) && (#[trigger] x.mul_spec(y)).div_req(y) implies x.mul_spec(y).div_spec(y)
        == x by {
        lemma_exact_division(x as int, y as int);
    }
    assert forall|x: i32, y: i32|
        x.mul_req(y) && (#[trigger] x.mul_spec(y)).div_req(y) implies x.mul_spec(y).div_spec(y)
        == x by {
        lemma_exact_division(x as int, y as int);
    }
    assert forall|x: i64, y: i64|
        x.mul_req(y) && (#[trigger] x.mul_spec(y)).div_req(y) implies x.mul_spec(y).div_spec(y)
        == x by {
        lemma_exact_division(x as int, y as int);
    }
    assert forall|x: i128, y: i128|
        x.mul_req(y) && (#[trigger] x.mul_spec(y)).div_req(y) implies x.mul_spec(y).div_spec(y)
        == x by {
        lemma_exact_division(x as int, y as int);
    }
    assert forall|x: isize, y: isize|
        x.mul_req(y) && (#[trigger] x.mul_spec(y)).div_req(y) implies x.mul_spec(y).div_spec(y)
        == x by {
        lemma_exact_division(x as int, y as int);
    }
}

/// Subtracting what was added gives the first vector back: where `sum` is
/// `a + b` and `difference` is `sum - b`, the subtraction is defined and
/// `difference` is `a`.
pub proof fn lemma_sub_undoes_add<T, U, const N: usize>(
    a: VecX<T, N>,
    b: VecX<U, N>,
    sum: VecX<T, N>,
    difference: VecX<T, N>,
) where T: Add<Output = T> + Sub<Output = T> + Copy, U: Copy + Into<T>
    requires
        sub_undoes_add::<T>(),
        conversion_is_function::<U, T>(),
        can_add_all(a@, b@),
        is_sum_all(a@, b@, sum@),
        is_difference_all(sum@, b@, difference@),
    ensures
        can_sub_all(sum@, b@),
        difference == a,
{
    assert forall|i: int| 0 <= i < N implies difference@[i] == a@[i] && crate::ops::can_sub(
        #[trigger] sum@[i],
        b@[i],
    ) by {
        assert(crate::ops::can_add(a@[i], b@[i]));
        assert(is_sum(a@[i], b@[i], sum@[i]));
        assert(is_difference(sum@[i], b@[i], difference@[i]));
    }
    assert(difference@ =~= a@);
    lemma_same_elements(difference, a);
}

/// Dividing by what was multiplied gives the first vector back: where
/// `product` is `a * b` and `quotient` is `product / b`, `quotient` is `a`.
pub proof fn lemma_div_undoes_mul<T, U, const N: usize>(
    a: VecX<T, N>,
    b: VecX<U, N>,
    product: VecX<T, N>,
    quotient: VecX<T, N>,
) where T: Mul<Output = T> + Div<Output = T> + Copy, U: Copy + Into<T>
    requires
        div_undoes_mul::<T>(),
        conversion_is_function::<U, T>(),
        can_mul_all(a@, b@),
        is_product_all(a@, b@, product@),
        can_div_all(product@, b@),
        is_quotient_all(product@, b@, quotient@),
    ensures
        quotient == a,
{
    assert forall|i: int| 0 <= i < N implies quotient@[i] == a@[i] by {
        assert(crate::ops::can_mul(a@[i], b@[i]));
        assert(is_product(a@[i], b@[i], product@[i]));
        assert(crate::ops::can_div(product@[i], b@[i]));
        assert(is_quotient(product@[i], b@[i], quotient@[i]));
    }
    assert(quotient@ =~= a@);
    lemma_same_elements(quotient, a);
}

/// Adding a scalar is adding the vector that repeats it: where `b` is
/// the vector of `N` times `s`, `with_scalar` is `v + s` and `with_vector` is
/// `v + b`, the two results are the same vector.
pub proof fn lemma_add_scalar_is_broadcast<T, U, const N: usize>(
    v: VecX<T, N>,
    s: U,
    b: VecX<U, N>,
    with_scalar: VecX<T, N>,
    with_vector: VecX<T, N>,
) where T: Add<Output = T> + Copy, U: Copy + Into<T>
    requires
        conversion_is_function::<U, T>(),
        b@ == repeated(s, N as nat),
        is_sum_all(v@, repeated(s, N as nat), with_scalar@),
        is_sum_all(v@, b@, with_vector@),
    ensures
        with_scalar == with_vector,
{
    assert forall|i: int| 0 <= i < N implies with_scalar@[i] == with_vector@[i] by {
        assert(is_sum(v@[i], repeated(s, N as nat)[i], with_scalar@[i]));
        assert(is_sum(v@[i], b@[i], with_vector@[i]));
    }
    assert(with_scalar@ =~= with_vector@);
    lemma_same_elements(with_scalar, with_vector);
}

/// Subtracting a scalar is subtracting the vector that repeats it: where `b` is
/// the vector of `N` times `s`, `with_scalar` is `v - s` and `with_vector` is
/// `v - b`, the two results are the same vector.
pub proof fn lemma_sub_scalar_is_broadcast<T, U, const N: usize>(
    v: VecX<T, N>,
    s: U,
    b: VecX<U, N>,
    with_scalar: VecX<T, N>,
    with_vector: VecX<T, N>,
) where T: Sub<Output = T> + Copy, U: Copy + Into<T>
    requires
        conversion_is_function::<U, T>(),
        b@ == repeated(s, N as nat),
        is_difference_all(v@, repeated(s, N as nat), with_scalar@),
        is_difference_all(v@, b@, with_vector@),
    ensures
        with_scalar == with_vector,
{
    assert forall|i: int| 0 <= i < N implies with_scalar@[i] == with_vector@[i] by {
        assert(is_difference(v@[i], repeated(s, N as nat)[i], with_scalar@[i]));
        assert(is_difference(v@[i], b@[i], with_vector@[i]));
    }
    assert(with_scalar@ =~= with_vector@);
    lemma_same_elements(with_scalar, with_vector);
}

/// Multiplying by a scalar is multiplying by the vector that repeats it: where `b` is
/// the vector of `N` times `s`, `with_scalar` is `v * s` and `with_vector` is
/// `v * b`, the two results are the same vector.
pub proof fn lemma_mul_scalar_is_broadcast<T, U, const N: usize>(
    v: VecX<T, N>,
    s: U,
    b: VecX<U, N>,
    with_scalar: VecX<T, N>,
    with_vector: VecX<T, N>,
) where T: Mul<Output = T> + Copy, U: Copy + Into<T>
    requires
        conversion_is_function::<U, T>(),
        b@ == repeated(s, N as nat),
        is_product_all(v@, repeated(s, N as nat), with_scalar@),
        is_product_all(v@, b@, with_vector@),
    ensures
        with_scalar == with_vector,
{
    assert forall|i: int| 0 <= i < N implies with_scalar@[i] == with_vector@[i] by {
        assert(is_product(v@[i], repeated(s, N as nat)[i], with_scalar@[i]));
        assert(is_product(v@[i], b@[i], with_vector@[i]));
    }
    assert(with_scalar@ =~= with_vector@);
    lemma_same_elements(with_scalar, with_vector);
}

/// Dividing by a scalar is dividing by the vector that repeats it: where `b` is
/// the vector of `N` times `s`, `with_scalar` is `v / s` and `with_vector` is
/// `v / b`, the two results are the same vector.
pub proof fn lemma_div_scalar_is_broadcast<T, U, const N: usize>(
    v: VecX<T, N>,
    s: U,
    b: VecX<U, N>,
    with_scalar: VecX<T, N>,
    with_vector: VecX<T, N>,
) where T: Div<Output = T> + Copy, U: Copy + Into<T>
    requires
        conversion_is_function::<U, T>(),
        b@ == repeated(s, N as nat),
        is_quotient_all(v@, repeated(s, N as nat), with_scalar@),
        is_quotient_all(v@, b@, with_vector@),
    ensures
        with_scalar == with_vector,
{
    assert forall|i: int| 0 <= i < N implies with_scalar@[i] == with_vector@[i] by {
        assert(is_quotient(v@[i], repeated(s, N as nat)[i], with_scalar@[i]));
        assert(is_quotient(v@[i], b@[i], with_vector@[i]));
    }
    assert(with_scalar@ =~= with_vector@);
    lemma_same_elements(with_scalar, with_vector);
}

/// Taking the remainder by a scalar is taking the remainder by the vector that repeats it: where `b` is
/// the vector of `N` times `s`, `with_scalar` is `v % s` and `with_vector` is
/// `v % b`, the two results are the same vector.
pub proof fn lemma_rem_scalar_is_broadcast<T, U, const N: usize>(
    v: VecX<T, N>,
    s: U,
    b: VecX<U, N>,
    with_scalar: VecX<T, N>,
    with_vector: VecX<T, N>,
) where T: Rem<Output = T> + Copy, U: Copy + Into<T>
    requires
        conversion_is_function::<U, T>(),
        b@ == repeated(s, N as nat),
        is_remainder_all(v@, repeated(s, N as nat), with_scalar@),
        is_remainder_all(v@, b@, with_vector@),
    ensures
        with_scalar == with_vector,
{
    assert forall|i: int| 0 <= i < N implies with_scalar@[i] == with_vector@[i] by {
        assert(is_remainder(v@[i], repeated(s, N as nat)[i], with_scalar@[i]));
        assert(is_remainder(v@[i], b@[i], with_vector@[i]));
    }
    assert(with_scalar@ =~= with_vector@);
    lemma_same_elements(with_scalar, with_vector);
}

/// What `first_index` gives: a position inside the table exactly where the
/// table holds `value`, then the first one at which `value` stands.
pub proof fn lemma_first_index_properties<V>(table: Seq<V>, value: V)
    ensures
        first_index(table, value) <= table.len(),
        table.contains(value) <==> first_index(table, value) < table.len(),
        first_index(table, value) < table.len() ==> table[first_index(table, value) as int] == value,
        forall|j: int| 0 <= j < first_index(table, value) ==> table[j] != value,
    decreases table.len(),
{
    if table.len() == 0 {
    } else if table[0] == value {
    } else {
        let rest = table.drop_first();
        lemma_first_index_properties(rest, value);
        let k = first_index(rest, value) as int;
        assert forall|j: int| 0 <= j < k + 1 implies table[j] != value by {
            if j > 0 {
                assert(rest[j - 1] == table[j]);
            }
        }
        if k < rest.len() {
            assert(rest[k] == table[k + 1]);
            assert(table.contains(value));
        } else {
            assert forall|j: int| 0 <= j < table.len() implies table[j] != value by {}
        }
    }
}

/// The table of a sequence holds each of its values once, and the indices
/// lead each occurrence back to its value: expanding the indices through the
/// table gives the sequence again.
pub proof fn lemma_round_trip<V>(s: Seq<V>)
    requires
        s.len() <= usize::MAX,
    ensures
        unique_values(s).no_duplicates(),
        unique_values(s).len() <= s.len(),
        forall|v: V| unique_values(s).contains(v) <==> s.contains(v),
        occurrence_indices(s).len() == s.len(),
        forall|i: int|
            0 <= i < s.len() ==> (#[trigger] occurrence_indices(s)[i]) < unique_values(s).len()
                && unique_values(s)[occurrence_indices(s)[i] as int] == s[i],
    decreases s.len(),
{
    if s.len() == 0 {
    } else {
        let front = s.drop_last();
        let table = unique_values(front);
        lemma_round_trip(front);
        lemma_first_index_properties(table, s.last());
        assert forall|v: V| unique_values(s).contains(v) <==> s.contains(v) by {
            if unique_values(s).contains(v) {
                if table.contains(v) {
                    assert(front.contains(v));
                    let j = choose|j: int| 0 <= j < front.len() && front[j] == v;
                    assert(s[j] == v);
                } else {
                    let j = choose|j: int| 0 <= j < unique_values(s).len() && unique_values(s)[j] == v;
                    assert(v == s.last());
                    assert(s[s.len() - 1] == v);
                }
            }
            if s.contains(v) {
                let j = choose|j: int| 0 <= j < s.len() && s[j] == v;
                if j < front.len() {
                    assert(front[j] == v);
                    assert(front.contains(v));
                    assert(table.contains(v));
                    let k = choose|k: int| 0 <= k < table.len() && table[k] == v;
                    assert(unique_values(s)[k] == v);
                } else {
                    assert(v == s.last());
                    if !table.contains(v) {
                        assert(unique_values(s)[table.len() as int] == v);
                    }
                }
            }
        }
        assert forall|i: int| 0 <= i < s.len() implies (#[trigger] occurrence_indices(s)[i])
            < unique_values(s).len() && unique_values(s)[occurrence_indices(s)[i] as int]
            == s[i] by {
            if i < front.len() {
                assert(occurrence_indices(s)[i] == occurrence_indices(front)[i]);
                assert(front[i] == s[i]);
            }
        }
    }
}

/// Two elements of a sequence get the same index exactly where they are the
/// same value.
pub proof fn lemma_same_index_for_same_value<V>(s: Seq<V>, i: int, j: int)
    requires
        s.len() <= usize::MAX,
        0 <= i < s.len(),
        0 <= j < s.len(),
    ensures
        occurrence_indices(s)[i] == occurrence_indices(s)[j] <==> s[i] == s[j],
{
    lemma_round_trip(s);
    let table = unique_values(s);
    let at_i = occurrence_indices(s)[i] as int;
    let at_j = occurrence_indices(s)[j] as int;
    assert(table[at_i] == s[i]);
    assert(table[at_j] == s[j]);
}

/// Inserting goes one step further in building: a collection that indexes
/// `s`, after `value` was looked up or inserted in its table and the position
/// of `value` appended to its indices, indexes `s` with `value` at its end.
pub proof fn lemma_insert_indexes_one_more<T: PartialEq + Eq + Hash, const N: usize>(
    s: Seq<VecX<T, N>>,
    value: VecX<T, N>,
    before: IndexedVecXs<T, N>,
    after: IndexedVecXs<T, N>,
)
    requires
        before.indexes(s),
        after.values@ == inserted(before.values@, value),
        after.indices@ == before.indices@.push(first_index(before.values@, value) as usize),
    ensures
        after.indexes(s.push(value)),
{
    assert(s.push(value).drop_last() =~= s);
}

/// Building from one sequence always gives the same table and the same
/// indices: two collections that index `s` agree in both.
pub proof fn lemma_from_vec_deterministic<T: PartialEq + Eq + Hash, const N: usize>(
    s: Seq<VecX<T, N>>,
    a: IndexedVecXs<T, N>,
    b: IndexedVecXs<T, N>,
)
    requires
        a.indexes(s),
        b.indexes(s),
    ensures
        a.values@ == b.values@,
        a.indices@ == b.indices@,
        a@ == b@,
{
    assert(a@ =~= b@);
}

/// A collection that indexes `s` expands to `s`, element for element.
pub proof fn lemma_expands_to_source<T: PartialEq + Eq + Hash, const N: usize>(
    s: Seq<VecX<T, N>>,
    c: IndexedVecXs<T, N>,
)
    requires
        s.len() <= usize::MAX,
        c.indexes(s),
    ensures
        c.well_formed(),
        c@ == s,
{
    lemma_round_trip(s);
    assert(c@ =~= s);
}

} // verus!
