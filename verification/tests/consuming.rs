use equal_parts::IntoEqualParts;

#[test]
fn into_simple_equal_parts() {
    let data = vec![1, 2, 3, 4, 5, 6];
    let mut parts = data.into_equal_parts(3);
    assert_eq!(parts.next(), Some(vec![1, 2]));
    assert_eq!(parts.next(), Some(vec![3, 4]));
    assert_eq!(parts.next(), Some(vec![5, 6]));
    assert_eq!(parts.next(), None);
}

#[test]
fn into_uneven_equal_parts() {
    let data = vec![1, 2, 3, 4, 5, 6, 7];
    let mut parts = data.into_equal_parts(3);
    assert_eq!(parts.next(), Some(vec![1, 2, 3]));
    assert_eq!(parts.next(), Some(vec![4, 5]));
    assert_eq!(parts.next(), Some(vec![6, 7]));
    assert_eq!(parts.next(), None);
}

#[test]
fn into_not_enough_parts() {
    let data = vec![1, 2];
    let mut parts = data.into_equal_parts(3);
    assert_eq!(parts.next(), Some(vec![1]));
    assert_eq!(parts.next(), Some(vec![2]));
    assert_eq!(parts.next(), None);
}

#[test]
fn into_empty_vec() {
    let data: Vec<i32> = vec![];
    let mut parts = data.into_equal_parts(3);
    assert_eq!(parts.next(), None);
}

#[test]
fn into_single_element() {
    let data = vec![42];
    let mut parts = data.into_equal_parts(3);
    assert_eq!(parts.next(), Some(vec![42]));
    assert_eq!(parts.next(), None);
}

#[test]
fn into_one_part() {
    let data = vec![1, 2, 3, 4, 5];
    let mut parts = data.into_equal_parts(1);
    assert_eq!(parts.next(), Some(vec![1, 2, 3, 4, 5]));
    assert_eq!(parts.next(), None);
}

#[test]
fn into_collect_all_parts() {
    let data = vec![1, 2, 3, 4, 5, 6, 7, 8, 9, 10];
    let mut iter = data.into_equal_parts(4);
    let mut parts: Vec<Vec<i32>> = Vec::new();
    while let Some(part) = iter.next() {
        parts.push(part);
    }
    assert_eq!(
        parts,
        vec![vec![1, 2, 3], vec![4, 5, 6], vec![7, 8], vec![9, 10]]
    );
}

#[test]
fn into_works_with_strings() {
    let data = vec![
        "a".to_string(),
        "b".to_string(),
        "c".to_string(),
        "d".to_string(),
    ];
    let mut iter = data.into_equal_parts(2);
    let mut parts: Vec<Vec<String>> = Vec::new();
    while let Some(part) = iter.next() {
        parts.push(part);
    }
    assert_eq!(
        parts,
        vec![
            vec!["a".to_string(), "b".to_string()],
            vec!["c".to_string(), "d".to_string()]
        ]
    );
}

#[test]
fn into_parts_are_independently_owned() {
    let data = vec![1, 2, 3, 4, 5, 6];
    let mut iter = data.into_equal_parts(3);
    let mut first = iter.next().unwrap();
    let second = iter.next().unwrap();
    // Mutating one emitted part leaves the others and the remainder intact.
    first.push(99);
    assert_eq!(first, vec![1, 2, 99]);
    assert_eq!(second, vec![3, 4]);
    assert_eq!(iter.next(), Some(vec![5, 6]));
    assert_eq!(iter.next(), None);
}

#[test]
fn into_exhausted_iterator_stays_exhausted() {
    let data = vec![1, 2, 3];
    let mut iter = data.into_equal_parts(2);
    assert_eq!(iter.next(), Some(vec![1, 2]));
    assert_eq!(iter.next(), Some(vec![3]));
    for _ in 0..10 {
        assert_eq!(iter.next(), None);
    }
}
