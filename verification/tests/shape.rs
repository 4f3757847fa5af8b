use neuronika::shape::{
    broadcast_shape, can_broadcast, checked_size, copy_shape, is_matrix_shape, is_scalar_shape,
    is_vector_shape, same_shape, source_offset,
};

fn some_shapes() -> Vec<Vec<usize>> {
    vec![
        vec![],
        vec![1],
        vec![3],
        vec![3, 1],
        vec![1, 3],
        vec![2, 3],
        vec![4, 1, 3],
        vec![2, 2],
    ]
}

#[test]
fn size_is_the_product_of_the_axes() {
    assert_eq!(checked_size(&vec![]), Some(1));
    assert_eq!(checked_size(&vec![7]), Some(7));
    assert_eq!(checked_size(&vec![2, 3, 4]), Some(24));
    assert_eq!(checked_size(&vec![1, 1, 1]), Some(1));
}

#[test]
fn size_of_a_shape_with_an_empty_axis_is_zero() {
    assert_eq!(checked_size(&vec![0]), Some(0));
    assert_eq!(checked_size(&vec![3, 0, 5]), Some(0));
    assert_eq!(checked_size(&vec![usize::MAX, usize::MAX, 0]), Some(0));
}

#[test]
fn size_that_cannot_be_counted_is_none() {
    assert_eq!(checked_size(&vec![usize::MAX, 2]), None);
    assert_eq!(checked_size(&vec![2, usize::MAX]), None);
    assert_eq!(checked_size(&vec![1 << 40, 1 << 40]), None);
    assert_eq!(checked_size(&vec![usize::MAX, 1]), Some(usize::MAX));
}

#[test]
fn equal_shapes_broadcast_to_themselves() {
    assert_eq!(broadcast_shape(&vec![3, 3], &vec![3, 3]), Some(vec![3, 3]));
    assert_eq!(broadcast_shape(&vec![], &vec![]), Some(vec![]));
}

#[test]
fn an_axis_of_one_is_stretched() {
    assert_eq!(broadcast_shape(&vec![3, 1], &vec![1, 4]), Some(vec![3, 4]));
    assert_eq!(broadcast_shape(&vec![1, 4], &vec![3, 1]), Some(vec![3, 4]));
    assert_eq!(broadcast_shape(&vec![1], &vec![5]), Some(vec![5]));
    assert_eq!(broadcast_shape(&vec![1], &vec![0]), Some(vec![0]));
}

#[test]
fn missing_leading_axes_are_added() {
    assert_eq!(broadcast_shape(&vec![3, 3], &vec![3]), Some(vec![3, 3]));
    assert_eq!(broadcast_shape(&vec![3], &vec![3, 3]), Some(vec![3, 3]));
    assert_eq!(broadcast_shape(&vec![], &vec![2, 5]), Some(vec![2, 5]));
    assert_eq!(broadcast_shape(&vec![1, 2, 4], &vec![7, 6, 2, 4]), Some(vec![7, 6, 2, 4]));
}

#[test]
fn unequal_axes_without_a_one_do_not_broadcast() {
    assert_eq!(broadcast_shape(&vec![2, 2], &vec![2, 4]), None);
    assert_eq!(broadcast_shape(&vec![3], &vec![4]), None);
    assert_eq!(broadcast_shape(&vec![2, 3], &vec![3, 2]), None);
    assert_eq!(broadcast_shape(&vec![0], &vec![2]), None);
}

#[test]
fn broadcast_shape_does_not_depend_on_the_order() {
    let shapes = some_shapes();
    for a in &shapes {
        for b in &shapes {
            assert_eq!(broadcast_shape(a, b), broadcast_shape(b, a));
        }
    }
}

#[test]
fn both_operands_broadcast_to_the_common_shape() {
    let shapes = some_shapes();
    for a in &shapes {
        for b in &shapes {
            if let Some(c) = broadcast_shape(a, b) {
                assert!(can_broadcast(a, &c));
                assert!(can_broadcast(b, &c));
            }
        }
    }
}

#[test]
fn only_the_smaller_side_is_stretched() {
    assert!(can_broadcast(&vec![1, 2, 4], &vec![7, 6, 2, 4]));
    assert!(can_broadcast(&vec![3], &vec![3, 3]));
    assert!(can_broadcast(&vec![], &vec![3, 3]));
    assert!(can_broadcast(&vec![3, 3], &vec![3, 3]));
    assert!(!can_broadcast(&vec![2, 2], &vec![2, 4]));
    assert!(!can_broadcast(&vec![3, 3], &vec![3]));
    assert!(!can_broadcast(&vec![3, 3], &vec![3, 1]));
    assert!(!can_broadcast(&vec![2], &vec![1]));
}

#[test]
fn source_of_an_element_in_its_own_shape_is_its_position() {
    for i in 0..24 {
        assert_eq!(source_offset(&vec![2, 3, 4], &vec![2, 3, 4], i), i);
    }
}

#[test]
fn source_in_a_row_that_is_repeated() {
    // Shape (3) in (3, 3): element (r, c) is read from c.
    let sources: Vec<usize> = (0..9).map(|i| source_offset(&vec![3], &vec![3, 3], i)).collect();
    assert_eq!(sources, vec![0, 1, 2, 0, 1, 2, 0, 1, 2]);
}

#[test]
fn source_in_a_column_that_is_repeated() {
    // Shape (3, 1) in (3, 3): element (r, c) is read from r.
    let sources: Vec<usize> = (0..9).map(|i| source_offset(&vec![3, 1], &vec![3, 3], i)).collect();
    assert_eq!(sources, vec![0, 0, 0, 1, 1, 1, 2, 2, 2]);
}

#[test]
fn source_in_a_single_element() {
    for i in 0..6 {
        assert_eq!(source_offset(&vec![], &vec![2, 3], i), 0);
        assert_eq!(source_offset(&vec![1, 1], &vec![2, 3], i), 0);
    }
}

#[test]
fn source_with_a_stretched_axis_in_the_middle() {
    // Shape (2, 1, 2) in (2, 3, 2): element (a, b, c) is read from (a, 0, c).
    let sources: Vec<usize> =
        (0..12).map(|i| source_offset(&vec![2, 1, 2], &vec![2, 3, 2], i)).collect();
    assert_eq!(sources, vec![0, 1, 0, 1, 0, 1, 2, 3, 2, 3, 2, 3]);
}

#[test]
fn shape_predicates() {
    assert!(same_shape(&vec![2, 3], &vec![2, 3]));
    assert!(!same_shape(&vec![2, 3], &vec![3, 2]));
    assert!(!same_shape(&vec![2, 3], &vec![2, 3, 1]));
    assert!(is_scalar_shape(&vec![]));
    assert!(!is_scalar_shape(&vec![1]));
    assert!(is_vector_shape(&vec![4], 4));
    assert!(!is_vector_shape(&vec![4], 3));
    assert!(!is_vector_shape(&vec![4, 1], 4));
    assert!(is_matrix_shape(&vec![4, 2], 4, 2));
    assert!(!is_matrix_shape(&vec![4, 2], 2, 4));
    assert!(!is_matrix_shape(&vec![4], 4, 1));
    assert_eq!(copy_shape(&vec![5, 6, 7]), vec![5, 6, 7]);
}
