use vec_x::{IndexedVecXIter, IndexedVecXs};
use vec_x::VecX;

fn colors() -> Vec<VecX<u8, 3>> {
    vec![
        VecX::new([255, 0, 0]),
        VecX::new([0, 255, 0]),
        VecX::new([255, 0, 0]),
        VecX::new([255, 0, 0]),
        VecX::new([0, 0, 255]),
        VecX::new([0, 255, 0]),
    ]
}

#[test]
fn empty_holds_nothing() {
    let c: IndexedVecXs<u8, 3> = IndexedVecXs::empty();
    assert_eq!(c.values.len(), 0);
    assert_eq!(c.indices.len(), 0);
    assert_eq!(c.to_vec(), vec![]);
}

#[test]
fn new_keeps_both_parts() {
    let values = vec![VecX::new([1i32, 2]), VecX::new([3, 4])];
    let c = IndexedVecXs::new(values.clone(), vec![1, 0, 1]);
    assert_eq!(c.values, values);
    assert_eq!(c.indices, vec![1, 0, 1]);
    assert_eq!(c[0], VecX::new([3, 4]));
}

#[test]
fn from_vec_stores_each_value_once_in_first_occurrence_order() {
    let IndexedVecXs { values, indices } = IndexedVecXs::from_vec(colors());
    assert_eq!(values.len(), 3);
    assert_eq!(values[0], VecX::new([255, 0, 0]));
    assert_eq!(values[1], VecX::new([0, 255, 0]));
    assert_eq!(values[2], VecX::new([0, 0, 255]));
    assert_eq!(indices.len(), 6);
    assert_eq!(indices, vec![0, 1, 0, 0, 2, 1]);
}

#[test]
fn from_vec_of_nothing_is_empty() {
    let c: IndexedVecXs<i64, 2> = IndexedVecXs::from_vec(Vec::new());
    assert_eq!(c.values.len(), 0);
    assert_eq!(c.indices.len(), 0);
}

#[test]
fn from_vec_gives_the_same_result_every_time() {
    let a = IndexedVecXs::from_vec(colors());
    let b = IndexedVecXs::from_vec(colors());
    assert_eq!(a.values, b.values);
    assert_eq!(a.indices, b.indices);
}

#[test]
fn to_vec_gives_the_source_back() {
    let c = IndexedVecXs::from_vec(colors());
    assert_eq!(c.to_vec(), colors());
}

#[test]
fn to_ref_vec_gives_the_source_back() {
    let c = IndexedVecXs::from_vec(colors());
    let refs = c.to_ref_vec();
    let source = colors();
    assert_eq!(refs.len(), source.len());
    for i in 0..source.len() {
        assert_eq!(*refs[i], source[i]);
    }
}

#[test]
fn iter_gives_the_source_back() {
    let c = IndexedVecXs::from_vec(colors());
    let source = colors();
    let seen: Vec<VecX<u8, 3>> = c.iter().into_iter().map(|v| *v).collect();
    assert_eq!(seen, source);
}

#[test]
fn index_resolves_an_occurrence() {
    let c = IndexedVecXs::from_vec(colors());
    assert_eq!(c[0], VecX::new([255, 0, 0]));
    assert_eq!(c[1], VecX::new([0, 255, 0]));
    assert_eq!(c[3], VecX::new([255, 0, 0]));
    assert_eq!(c[4], VecX::new([0, 0, 255]));
}

#[test]
fn insert_of_a_new_value_returns_true_and_grows_the_table() {
    let mut c = IndexedVecXs::from_vec(colors());
    assert!(c.insert(VecX::new([1, 2, 3])));
    assert_eq!(c.values.len(), 4);
    assert_eq!(c.values[3], VecX::new([1, 2, 3]));
    assert_eq!(c.indices, vec![0, 1, 0, 0, 2, 1, 3]);
}

#[test]
fn insert_of_a_known_value_returns_false_and_keeps_the_table() {
    let mut c = IndexedVecXs::from_vec(colors());
    assert!(!c.insert(VecX::new([0, 255, 0])));
    assert_eq!(c.values.len(), 3);
    assert_eq!(c.indices, vec![0, 1, 0, 0, 2, 1, 1]);
    assert_eq!(c[6], VecX::new([0, 255, 0]));
}

#[test]
fn inserting_one_by_one_is_building_from_the_sequence() {
    let mut c: IndexedVecXs<u8, 3> = IndexedVecXs::empty();
    let mut news = Vec::new();
    for color in colors() {
        news.push(c.insert(color));
    }
    let built = IndexedVecXs::from_vec(colors());
    assert_eq!(news, vec![true, true, false, false, true, false]);
    assert_eq!(c.values, built.values);
    assert_eq!(c.indices, built.indices);
}

#[test]
fn vectors_of_other_elements_can_be_indexed() {
    let words = vec![VecX::new(["a", "b"]), VecX::new(["a", "c"]), VecX::new(["a", "b"])];
    let c = IndexedVecXs::from_vec(words);
    assert_eq!(c.values, vec![VecX::new(["a", "b"]), VecX::new(["a", "c"])]);
    assert_eq!(c.indices, vec![0, 1, 0]);
}

#[test]
fn the_cursor_hands_out_every_occurrence_in_order() {
    let c = IndexedVecXs::from_vec(colors());
    let mut cursor = IndexedVecXIter::new(&c);
    let mut seen = Vec::new();
    while let Some(v) = cursor.next() {
        seen.push(*v);
    }
    assert_eq!(seen, colors());
    assert!(cursor.next().is_none());
}

#[test]
fn a_second_cursor_starts_again() {
    let c = IndexedVecXs::from_vec(colors());
    let mut first = IndexedVecXIter::new(&c);
    assert_eq!(first.next(), Some(&VecX::new([255, 0, 0])));
    assert_eq!(first.next(), Some(&VecX::new([0, 255, 0])));
    let mut second = IndexedVecXIter::new(&c);
    assert_eq!(second.next(), Some(&VecX::new([255, 0, 0])));
}

#[test]
fn the_cursor_of_an_empty_collection_is_done_at_once() {
    let c: IndexedVecXs<u8, 3> = IndexedVecXs::empty();
    let mut cursor = IndexedVecXIter::new(&c);
    assert!(cursor.next().is_none());
}
