use std::ops::{AddAssign, DivAssign, MulAssign, RemAssign, SubAssign};

use vec_x::VecX;

#[test]
fn vector_operators_work_element_by_element() {
    let a = VecX::new([1i32, 2, 3]);
    let b = VecX::new([4i32, 5, 6]);
    assert_eq!(a + b, VecX::new([5, 7, 9]));
    assert_eq!(a - b, VecX::new([-3, -3, -3]));
    assert_eq!(a * b, VecX::new([4, 10, 18]));
    assert_eq!(a / b, VecX::new([0, 0, 0]));
    assert_eq!(a % b, VecX::new([1, 2, 3]));
}

#[test]
fn vector_assignments_work_element_by_element() {
    let b = VecX::new([4i32, 5, 6]);
    let mut v = VecX::new([1i32, 2, 3]);
    v += b;
    assert_eq!(v, VecX::new([5, 7, 9]));
    let mut v = VecX::new([1i32, 2, 3]);
    v -= b;
    assert_eq!(v, VecX::new([-3, -3, -3]));
    let mut v = VecX::new([1i32, 2, 3]);
    v *= b;
    assert_eq!(v, VecX::new([4, 10, 18]));
    let mut v = VecX::new([1i32, 2, 3]);
    v /= b;
    assert_eq!(v, VecX::new([0, 0, 0]));
    let mut v = VecX::new([1i32, 2, 3]);
    v %= b;
    assert_eq!(v, VecX::new([1, 2, 3]));
}

#[test]
fn scalar_operators_apply_the_scalar_to_each_element() {
    let v = VecX::new([1i32, 2, 3]);
    assert_eq!(v + 1i32, VecX::new([2, 3, 4]));
    assert_eq!(v - 1i32, VecX::new([0, 1, 2]));
    assert_eq!(v * 2i32, VecX::new([2, 4, 6]));
    assert_eq!(v / 2i32, VecX::new([0, 1, 1]));
    assert_eq!(v % 2i32, VecX::new([1, 0, 1]));
}

#[test]
fn scalar_assignments_apply_the_scalar_to_each_element() {
    let mut v = VecX::new([1i32, 2, 3]);
    v += 1i32;
    assert_eq!(v, VecX::new([2, 3, 4]));
    let mut v = VecX::new([1i32, 2, 3]);
    v -= 1i32;
    assert_eq!(v, VecX::new([0, 1, 2]));
    let mut v = VecX::new([1i32, 2, 3]);
    v *= 2i32;
    assert_eq!(v, VecX::new([2, 4, 6]));
    let mut v = VecX::new([1i32, 2, 3]);
    v /= 2i32;
    assert_eq!(v, VecX::new([0, 1, 1]));
    let mut v = VecX::new([1i32, 2, 3]);
    v %= 2i32;
    assert_eq!(v, VecX::new([1, 0, 1]));
}

#[test]
fn assignment_methods_can_be_called_by_name() {
    let mut v = VecX::new([10u8, 20]);
    v.add_assign(VecX::new([1u8, 2]));
    v.sub_assign(1u8);
    v.mul_assign(2u8);
    v.div_assign(VecX::new([4u8, 6]));
    v.rem_assign(4u8);
    assert_eq!(v, VecX::new([1, 3]));
}

#[test]
fn the_right_hand_side_is_widened_to_the_left_element_type() {
    let a: VecX<i32, 3> = VecX::new([100_000, -2, 3]);
    let b: VecX<i8, 3> = VecX::new([-4, 5, 6]);
    assert_eq!(a + b, VecX::new([99_996, 3, 9]));
    assert_eq!(a * b, VecX::new([-400_000, -10, 18]));
    assert_eq!(a - 7u8, VecX::new([99_993, -9, -4]));
}

#[test]
fn float_vectors_take_integer_vectors() {
    let a: VecX<f32, 3> = VecX::new([1.0, 2.0, 3.0]);
    let b: VecX<u8, 3> = VecX::new([4, 5, 6]);
    assert_eq!(a + b, VecX::new([5.0, 7.0, 9.0]));
    assert_eq!(a * 2u8, VecX::new([2.0, 4.0, 6.0]));
}

#[test]
fn float_vectors_divide_without_truncation() {
    let a: VecX<f64, 2> = VecX::new([1.0, 3.0]);
    let b: VecX<f64, 2> = VecX::new([2.0, 4.0]);
    assert_eq!(a / b, VecX::new([0.5, 0.75]));
}

#[test]
fn integer_division_truncates_toward_zero() {
    let a = VecX::new([7i32, -7, 7, -7]);
    let b = VecX::new([2i32, 2, -2, -2]);
    assert_eq!(a / b, VecX::new([3, -3, -3, 3]));
    assert_eq!(a % b, VecX::new([1, -1, 1, -1]));
}

#[test]
fn subtraction_undoes_addition() {
    let a = VecX::new([1i64, -20, 300, i64::MAX - 5]);
    let b = VecX::new([7i64, 8, -9, 5]);
    assert_eq!((a + b) - b, a);
    let c = VecX::new([3u8, 4, 5, 6]);
    assert_eq!((a + c) - c, a);
}

#[test]
fn division_undoes_multiplication() {
    let a = VecX::new([1i32, -20, 300]);
    let b = VecX::new([7i32, -8, 9]);
    assert_eq!((a * b) / b, a);
}

#[test]
fn multiplication_undoes_division_without_remainder() {
    let a = VecX::new([14u32, 40, 81]);
    let b = VecX::new([7u32, 8, 9]);
    assert_eq!((a / b) * b, a);
}

#[test]
fn a_scalar_acts_as_the_vector_that_repeats_it() {
    let v = VecX::new([9i32, -8, 7]);
    let s = 3i16;
    let b: VecX<i16, 3> = VecX::new_with(s);
    assert_eq!(v + s, v + b);
    assert_eq!(v - s, v - b);
    assert_eq!(v * s, v * b);
    assert_eq!(v / s, v / b);
    assert_eq!(v % s, v % b);
}

#[test]
fn operators_on_empty_vectors_give_empty_vectors() {
    let a: VecX<u8, 0> = VecX::new([]);
    let b: VecX<u8, 0> = VecX::new([]);
    assert_eq!(a + b, a);
    assert_eq!(a / 0u8, a);
}
