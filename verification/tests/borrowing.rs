use equal_parts::EqualParts;

#[test]
fn simple_equal_parts() {
    let data: &[i32] = &[1, 2, 3, 4, 5, 6];
    let mut parts = data.equal_parts(3);
    assert_eq!(parts.next(), Some([1, 2].as_slice()));
    assert_eq!(parts.next(), Some([3, 4].as_slice()));
    assert_eq!(parts.next(), Some([5, 6].as_slice()));
    assert_eq!(parts.next(), None);
}

#[test]
fn uneven_equal_parts() {
    let data: &[i32] = &[1, 2, 3, 4, 5, 6, 7];
    let mut parts = data.equal_parts(3);
    assert_eq!(parts.next(), Some([1, 2, 3].as_slice()));
    assert_eq!(parts.next(), Some([4, 5].as_slice()));
    assert_eq!(parts.next(), Some([6, 7].as_slice()));
    assert_eq!(parts.next(), None);
}

#[test]
fn not_enough_parts() {
    let data: &[i32] = &[1, 2];
    let mut parts = data.equal_parts(3);
    assert_eq!(parts.next(), Some([1].as_slice()));
    assert_eq!(parts.next(), Some([2].as_slice()));
    assert_eq!(parts.next(), None);
}

#[test]
fn works_on_vec() {
    let data = vec![1, 2, 3, 4, 5, 6];
    let mut parts = data.equal_parts(3);
    assert_eq!(parts.next(), Some([1, 2].as_slice()));
    assert_eq!(parts.next(), Some([3, 4].as_slice()));
    assert_eq!(parts.next(), Some([5, 6].as_slice()));
    assert_eq!(parts.next(), None);
}

#[test]
fn empty_slice_yields_nothing() {
    let data: &[i32] = &[];
    let mut parts = data.equal_parts(3);
    assert_eq!(parts.next(), None);
    assert_eq!(parts.next(), None);
}

#[test]
fn single_element_single_part() {
    let data: &[i32] = &[42];
    let mut parts = data.equal_parts(5);
    assert_eq!(parts.next(), Some([42].as_slice()));
    assert_eq!(parts.next(), None);
}

#[test]
fn one_part_is_whole_slice() {
    let data: &[i32] = &[1, 2, 3, 4, 5];
    let mut parts = data.equal_parts(1);
    assert_eq!(parts.next(), Some([1, 2, 3, 4, 5].as_slice()));
    assert_eq!(parts.next(), None);
}

#[test]
fn exhausted_iterator_stays_exhausted() {
    let data: &[i32] = &[1, 2];
    let mut parts = data.equal_parts(2);
    assert_eq!(parts.next(), Some([1].as_slice()));
    assert_eq!(parts.next(), Some([2].as_slice()));
    for _ in 0..10 {
        assert_eq!(parts.next(), None);
    }
}

#[test]
fn views_share_storage_with_source() {
    let data: &[i32] = &[1, 2, 3, 4, 5, 6];
    let mut parts = data.equal_parts(3);
    let mut offset = 0;
    while let Some(part) = parts.next() {
        assert!(std::ptr::eq(part.as_ptr(), data[offset..].as_ptr()));
        offset += part.len();
    }
    assert_eq!(offset, data.len());
}
