//! A collection of vectors in which equal vectors share one stored value.
use vstd::prelude::*;
use core::hash::Hash;
use core::ops::Index;
use crate::compare::{exact_eq, lemma_exact_eq};
use crate::vec_x::VecX;

verus! {

/// Where `value` first stands in `table`, or the length of `table` if it
/// does not occur there.
pub open spec fn first_index<V>(table: Seq<V>, value: V) -> nat
    decreases table.len(),
{
    if table.len() == 0 {
        0
    } else if table[0] == value {
        0
    } else {
        1 + first_index(table.drop_first(), value)
    }
}

/// The table after `value` has been looked up or inserted: unchanged where
/// it holds `value`, and with `value` appended where it does not.
pub open spec fn inserted<V>(table: Seq<V>, value: V) -> Seq<V> {
    if table.contains(value) {
        table
    } else {
        table.push(value)
    }
}

/// The distinct values of `s`, each at the position of its first
/// occurrence among the distinct values.
pub open spec fn unique_values<V>(s: Seq<V>) -> Seq<V>
    decreases s.len(),
{
    if s.len() == 0 {
        Seq::empty()
    } else {
        inserted(unique_values(s.drop_last()), s.last())
    }
}

/// For each element of `s`, its position in `unique_values(s)`.
pub open spec fn occurrence_indices<V>(s: Seq<V>) -> Seq<usize>
    decreases s.len(),
{
    if s.len() == 0 {
        Seq::empty()
    } else {
        occurrence_indices(s.drop_last()).push(
            first_index(unique_values(s.drop_last()), s.last()) as usize,
        )
    }
}

/// `first_index` is the one position before which `value` does not occur
/// and at which, if it lies inside the table, `value` stands.
pub proof fn lemma_first_index<V>(table: Seq<V>, value: V, i: int)
    requires
        0 <= i <= table.len(),
        forall|j: int| 0 <= j < i ==> table[j] != value,
        i < table.len() ==> table[i] == value,
    ensures
        first_index(table, value) == i,
        table.contains(value) <==> i < table.len(),
    decreases table.len(),
{
    if table.len() == 0 {
    } else if i == 0 {
    } else {
        let rest = table.drop_first();
        assert(table[0] != value);
        assert forall|j: int| 0 <= j < i - 1 implies rest[j] != value by {
            assert(rest[j] == table[j + 1]);
        }
        lemma_first_index(rest, value, i - 1);
    }
    if i < table.len() {
        assert(table[i] == value);
    } else {
        assert forall|j: int| 0 <= j < table.len() implies table[j] != value by {}
    }
}

/// A set of vectors, each stored once in `values`, and for every occurrence
/// the position of its value in `indices`.
///
/// Its view is the sequence of the occurrences, in order.
pub struct IndexedVecXs<T: PartialEq + Eq + Hash, const N: usize> {
    /// The distinct vectors, in the order in which they first occurred.
    pub values: Vec<VecX<T, N>>,
    /// For each occurrence, the position of its vector in `values`.
    pub indices: Vec<usize>,
}

impl<T: PartialEq + Eq + Hash, const N: usize> View for IndexedVecXs<T, N> {
    type V = Seq<VecX<T, N>>;

    open spec fn view(&self) -> Seq<VecX<T, N>> {
        Seq::new(self.indices@.len(), |i: int| self.values@[self.indices@[i] as int])
    }
}

/// The position of `value` in `values`: `values.len()` if it is not there.
fn position<T: PartialEq, const N: usize>(values: &Vec<VecX<T, N>>, value: &VecX<T, N>) -> (at: usize)
    requires
        exact_eq::<T>(),
    ensures
        at == first_index(values@, *value),
        at <= values@.len(),
        values@.contains(*value) <==> at < values@.len(),
        at < values@.len() ==> values@[at as int] == *value,
{
    let mut i: usize = 0;
    while i < values.len()
        invariant
            exact_eq::<T>(),
            i <= values@.len(),
            forall|j: int| 0 <= j < i ==> values@[j] != *value,
        decreases values@.len() - i,
    {
        proof {
            lemma_exact_eq(values@[i as int], *value);
        }
        if values[i] == *value {
            proof {
                lemma_first_index(values@, *value, i as int);
            }
            return i;
        }
        i += 1;
    }
    proof {
        lemma_first_index(values@, *value, i as int);
    }
    i
}

impl<T: PartialEq + Eq + Hash, const N: usize> IndexedVecXs<T, N> {
    /// Every index points into `values`.
    pub open spec fn indices_in_range(&self) -> bool {
        forall|i: int|
            0 <= i < self.indices@.len() ==> (#[trigger] self.indices@[i]) < self.values@.len()
    }

    /// Every index points into `values`, and no value is stored twice.
    pub open spec fn well_formed(&self) -> bool {
        &&& self.values@.no_duplicates()
        &&& self.indices_in_range()
    }

    /// The collection is what building from `s` gives: the table of `s` and
    /// the index of each of its elements.
    pub open spec fn indexes(&self, s: Seq<VecX<T, N>>) -> bool {
        &&& self.values@ == unique_values(s)
        &&& self.indices@ == occurrence_indices(s)
    }

    /// Puts the two parts together as they are.
    pub fn new(values: Vec<VecX<T, N>>, indices: Vec<usize>) -> (c: Self)
        ensures
            c.values == values,
            c.indices == indices,
    {
        Self { values, indices }
    }

    /// The collection without values and without occurrences.
    pub fn empty() -> (c: Self)
        ensures
            c.values@ == Seq::<VecX<T, N>>::empty(),
            c.indices@ == Seq::<usize>::empty(),
            c.well_formed(),
    {
        Self { values: Vec::new(), indices: Vec::new() }
    }

    /// Appends one occurrence of `value`, and says whether `value` is new to
    /// `values`.
    pub fn insert(&mut self, value: VecX<T, N>) -> (is_new: bool)
        requires
            exact_eq::<T>(),
        ensures
            is_new <==> !old(self).values@.contains(value),
            final(self).values@ == inserted(old(self).values@, value),
            final(self).indices@ == old(self).indices@.push(
                first_index(old(self).values@, value) as usize,
            ),
            final(self).values@.len() == old(self).values@.len() + if is_new { 1int } else { 0int },
            old(self).values@.is_prefix_of(final(self).values@),
            old(self).well_formed() ==> final(self).well_formed(),
            old(self).indices_in_range() ==> final(self).indices_in_range(),
            old(self).indices_in_range() ==> final(self)@ == old(self)@.push(value),
    {
        let at = position(&self.values, &value);
        let is_new = at == self.values.len();
        if is_new {
            self.values.push(value);
        }
        self.indices.push(at);
        proof {
            if old(self).indices_in_range() {
                assert(self.indices_in_range());
                assert(self.values@[at as int] == value);
                assert forall|i: int| 0 <= i < old(self).indices@.len() implies self@[i] == old(
                    self,
                )@[i] by {
                    assert(old(self).indices@[i] < old(self).values@.len());
                }
                assert(self@ =~= old(self)@.push(value));
            }
        }
        is_new
    }

    /// Builds the collection of the occurrences in `vec`, in their order:
    /// each distinct vector is stored once, at the position at which it
    /// first occurred among the distinct ones.
    pub fn from_vec(vec: Vec<VecX<T, N>>) -> (c: Self)
        requires
            exact_eq::<T>(),
        ensures
            c.indexes(vec@),
            c.well_formed(),
            c@ == vec@,
    {
        let ghost all = vec@;
        let mut c = Self::empty();
        assert(c@ =~= all.take(0));
        for value in it: vec
            invariant
                exact_eq::<T>(),
                it.seq() == all,
                c.values@ == unique_values(all.take(it.index() as int)),
                c.indices@ == occurrence_indices(all.take(it.index() as int)),
                c.well_formed(),
                c@ == all.take(it.index() as int),
        {
            proof {
                let k = it.index() as int;
                assert(all.take(k + 1).drop_last() =~= all.take(k));
                assert(all.take(k + 1).last() == value);
                assert(all.take(k + 1) =~= all.take(k).push(value));
            }
            c.insert(value);
        }
        assert(all.take(all.len() as int) =~= all);
        c
    }

    /// The occurrences in order, each as a reference to its stored vector.
    pub fn iter(&self) -> (refs: Vec<&VecX<T, N>>)
        requires
            self.indices_in_range(),
        ensures
            refs@.len() == self@.len(),
            forall|i: int| 0 <= i < refs@.len() ==> *(#[trigger] refs@[i]) == self@[i],
    {
        self.to_ref_vec()
    }

    /// The occurrences in order, each as a reference to its stored vector.
    pub fn to_ref_vec(&self) -> (refs: Vec<&VecX<T, N>>)
        requires
            self.indices_in_range(),
        ensures
            refs@.len() == self@.len(),
            forall|i: int| 0 <= i < refs@.len() ==> *(#[trigger] refs@[i]) == self@[i],
    {
        let mut refs: Vec<&VecX<T, N>> = Vec::new();
        for p in 0..self.indices.len()
            invariant
                self.indices_in_range(),
                refs@.len() == p,
                forall|i: int| 0 <= i < p ==> *(#[trigger] refs@[i]) == self@[i],
        {
            let at = self.indices[p];
            refs.push(&self.values[at]);
        }
        refs
    }
}

impl<T: PartialEq + Eq + Hash + Copy, const N: usize> IndexedVecXs<T, N> {
    /// The occurrences in order, each as a copy of its stored vector.
    pub fn to_vec(self) -> (vec: Vec<VecX<T, N>>)
        requires
            self.indices_in_range(),
        ensures
            vec@ == self@,
    {
        let mut vec: Vec<VecX<T, N>> = Vec::new();
        for p in 0..self.indices.len()
            invariant
                self.indices_in_range(),
                vec@.len() == p,
                forall|i: int| 0 <= i < p ==> (#[trigger] vec@[i]) == self@[i],
        {
            let at = self.indices[p];
            vec.push(self.values[at]);
        }
        assert(vec@ =~= self@);
        vec
    }
}

impl<T: PartialEq + Eq + Hash, const N: usize> vstd::std_specs::core::IndexSpecImpl<usize> for IndexedVecXs<T, N> {
    open spec fn index_req(&self, index: &usize) -> bool {
        &&& *index < self.indices@.len()
        &&& self.indices@[*index as int] < self.values@.len()
    }
}

impl<T: PartialEq + Eq + Hash, const N: usize> Index<usize> for IndexedVecXs<T, N> {
    type Output = VecX<T, N>;

    /// The vector of the occurrence at `index`.
    fn index(&self, index: usize) -> (value: &VecX<T, N>)
        ensures
            *value == self@[index as int],
    {
        let at = self.indices[index];
        &self.values[at]
    }
}

/// A cursor over the occurrences of a collection, from the first to the
/// last.
pub struct IndexedVecXIter<'a, T: PartialEq + Eq + Hash, const N: usize> {
    collection: &'a IndexedVecXs<T, N>,
    current_index: usize,
}

impl<'a, T: PartialEq + Eq + Hash, const N: usize> IndexedVecXIter<'a, T, N> {
    /// The collection that the cursor walks.
    pub closed spec fn collection(&self) -> IndexedVecXs<T, N> {
        *self.collection
    }

    /// How many occurrences the cursor has handed out.
    pub closed spec fn position(&self) -> nat {
        self.current_index as nat
    }

    /// Every index of the collection points into its values, and the
    /// cursor has not passed the end.
    pub closed spec fn well_formed(&self) -> bool {
        &&& self.collection.indices_in_range()
        &&& self.current_index <= self.collection.indices@.len()
    }

    /// A cursor before the first occurrence of `collection`.
    pub fn new(collection: &'a IndexedVecXs<T, N>) -> (iter: Self)
        requires
            collection.indices_in_range(),
        ensures
            iter.well_formed(),
            iter.collection() == *collection,
            iter.position() == 0,
    {
        Self { collection, current_index: 0 }
    }

    /// Hands out the next occurrence, or `None` after the last one.
    pub fn next(&mut self) -> (item: Option<&'a VecX<T, N>>)
        requires
            old(self).well_formed(),
        ensures
            final(self).well_formed(),
            final(self).collection() == old(self).collection(),
            old(self).position() < old(self).collection()@.len() ==> {
                &&& item == Some(&old(self).collection()@[old(self).position() as int])
                &&& final(self).position() == old(self).position() + 1
            },
            old(self).position() >= old(self).collection()@.len() ==> {
                &&& item.is_none()
                &&& final(self).position() == old(self).position()
            },
    {
        if self.current_index < self.collection.indices.len() {
            let at = self.collection.indices[self.current_index];
            self.current_index += 1;
            Some(&self.collection.values[at])
        } else {
            None
        }
    }
}

} // verus!
