use std::cmp::Ordering;

use vec_x::VecX;

#[test]
fn new_keeps_the_elements() {
    let v = VecX::new([1i32, 2, 3]);
    assert_eq!(v.data, [1, 2, 3]);
}

#[test]
fn new_with_repeats_the_value() {
    let v: VecX<i32, 3> = VecX::new_with(1);
    assert_eq!(v, VecX::new([1, 1, 1]));
    let none: VecX<u8, 0> = VecX::new_with(7);
    assert_eq!(none.data.len(), 0);
}

#[test]
fn default_is_all_defaults() {
    let v: VecX<u16, 4> = VecX::default();
    assert_eq!(v, VecX::new([0, 0, 0, 0]));
}

#[test]
fn clone_gives_an_equal_vector() {
    let v = VecX::new([String::from("a"), String::from("b")]);
    let w = v.clone();
    assert_eq!(v, w);
}

#[test]
fn elements_need_not_be_numbers() {
    let v = VecX::new(["a", "b", "c"]);
    assert_eq!(v[1], "b");
}

#[test]
fn into_widens_each_element() {
    let v: VecX<u8, 3> = VecX::new([1, 2, 255]);
    let w: VecX<u32, 3> = v.into();
    assert_eq!(w, VecX::new([1u32, 2, 255]));
    let f: VecX<f64, 3> = v.into();
    assert_eq!(f, VecX::new([1.0, 2.0, 255.0]));
}

#[test]
fn from_widens_each_element() {
    let v: VecX<i16, 3> = VecX::new([-1, 2, 3]);
    let w: VecX<i32, 3> = VecX::from(v);
    assert_eq!(w, VecX::new([-1i32, 2, 3]));
}

#[test]
fn fit_to_a_shorter_length_keeps_the_front() {
    let v = VecX::new([1i32, 2, 3]);
    assert_eq!(v.fit::<2>(), VecX::new([1, 2]));
    assert_eq!(v.fit::<0>(), VecX::new([]));
}

#[test]
fn fit_to_a_longer_length_fills_with_defaults() {
    let v = VecX::new([1i32, 2, 3]);
    assert_eq!(v.fit::<5>(), VecX::new([1, 2, 3, 0, 0]));
}

#[test]
fn fit_to_the_same_length_changes_nothing() {
    let v = VecX::new([7u8, 8, 9]);
    assert_eq!(v.fit::<3>(), v);
}

#[test]
fn batch_applies_the_function_to_each_element() {
    let v = VecX::new([1u32, 2, 3]);
    assert_eq!(v.batch(|x: u32| x.abs_diff(1)), VecX::new([0, 1, 2]));
}

#[test]
fn batch_may_change_the_element_type() {
    let v = VecX::new([1u8, 20, 3]);
    assert_eq!(v.batch(|x: u8| x > 2), VecX::new([false, true, true]));
}

#[test]
fn batch_with_applies_the_function_pairwise() {
    let a = VecX::new([1i32, 5, 3]);
    let b = VecX::new([4i32, 2, 6]);
    assert_eq!(a.batch_with(b, |x: i32, y: i32| x.min(y)), VecX::new([1, 2, 3]));
}

#[test]
fn batch_with_takes_two_element_types() {
    let a = VecX::new([1u8, 2, 3]);
    let b = VecX::new([10i64, 20, 30]);
    assert_eq!(a.batch_with(b, |x: u8, y: i64| y - i64::from(x)), VecX::new([9i64, 18, 27]));
}

#[test]
fn index_reads_an_element() {
    let v = VecX::new([10i32, 20, 30]);
    assert_eq!(v[0], 10);
    assert_eq!(v[2], 30);
}

#[test]
fn index_mut_writes_an_element() {
    let mut v = VecX::new([10i32, 20, 30]);
    *v.index_mut(1) = 21;
    assert_eq!(v, VecX::new([10, 21, 30]));
}

#[test]
fn equality_is_element_wise() {
    assert_eq!(VecX::new([1i32, 2, 3]), VecX::new([1, 2, 3]));
    assert_ne!(VecX::new([1i32, 2, 3]), VecX::new([1, 2, 2]));
    assert_ne!(VecX::new([0i32, 2, 3]), VecX::new([1, 2, 3]));
}

#[test]
fn equal_vectors_are_at_least_and_at_most_each_other() {
    let a = VecX::new([1i32, 2, 3]);
    let b = VecX::new([1i32, 2, 3]);
    assert_eq!(a.partial_cmp(&b), Some(Ordering::Equal));
    assert!(a <= b);
    assert!(a >= b);
    assert!(!(a < b));
    assert!(!(a > b));
}

#[test]
fn a_vector_below_everywhere_is_less() {
    let a = VecX::new([1i32, 2, 3]);
    let b = VecX::new([4i32, 5, 6]);
    assert_eq!(a.partial_cmp(&b), Some(Ordering::Less));
    assert!(a < b);
    assert!(!(a > b));
    assert_eq!(b.partial_cmp(&a), Some(Ordering::Greater));
}

#[test]
fn a_vector_above_somewhere_and_equal_elsewhere_is_greater() {
    let a = VecX::new([1i32, 2, 3]);
    let b = VecX::new([1i32, 2, 2]);
    assert_ne!(a, b);
    assert!(a > b);
    assert_eq!(a.partial_cmp(&b), Some(Ordering::Greater));
}

#[test]
fn vectors_above_and_below_are_incomparable() {
    let a = VecX::new([1i32, 2, 1]);
    let b = VecX::new([2i32, 1, 2]);
    assert_eq!(a.partial_cmp(&b), None);
    assert!(!(a < b));
    assert!(!(a > b));
    assert!(!(a == b));
    assert!(!(a <= b));
    assert!(!(a >= b));
}

#[test]
fn empty_vectors_compare_as_equal() {
    let a: VecX<i32, 0> = VecX::new([]);
    let b: VecX<i32, 0> = VecX::new([]);
    assert_eq!(a.partial_cmp(&b), Some(Ordering::Equal));
}
