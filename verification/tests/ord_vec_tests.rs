use ordered_vec::{OrdVec, OrdVecError};

#[test]
fn test_ord_vec_ascending() {
    let mut values: Vec<i32> = Vec::new();

    assert_eq!(values.push_ord_ascending(5), Ok(0));
    assert_eq!(values, [5]);

    assert_eq!(values.push_ord_ascending(3), Ok(0));
    assert_eq!(values, [3, 5]);

    assert_eq!(values.push_ord_ascending(7), Ok(2));
    assert_eq!(values, [3, 5, 7]);

    assert_eq!(values.push_ord_ascending(1), Ok(0));
    assert_eq!(values, [1, 3, 5, 7]);

    assert_eq!(values.push_ord_ascending(9), Ok(4));
    assert_eq!(values, [1, 3, 5, 7, 9]);

    assert_eq!(values.push_ord_ascending(8), Ok(4));
    assert_eq!(values, [1, 3, 5, 7, 8, 9]);

    assert_eq!(values.push_ord_ascending(100), Ok(6));
    assert_eq!(values, [1, 3, 5, 7, 8, 9, 100]);

    assert_eq!(values.push_ord_ascending(3), Ok(1));
    assert_eq!(values, [1, 3, 3, 5, 7, 8, 9, 100]);

    assert_eq!(values.push_ord_ascending(2), Ok(1));
    assert_eq!(values, [1, 2, 3, 3, 5, 7, 8, 9, 100]);

    assert_eq!(values.push_ord_ascending(0), Ok(0));
    assert_eq!(values, [0, 1, 2, 3, 3, 5, 7, 8, 9, 100]);
}

#[test]
fn test_ord_vec_descending() {
    let mut values: Vec<i32> = Vec::new();

    assert_eq!(values.push_ord_descending(5), Ok(0));
    assert_eq!(values, [5]);

    assert_eq!(values.push_ord_descending(3), Ok(1));
    assert_eq!(values, [5, 3]);

    assert_eq!(values.push_ord_descending(7), Ok(0));
    assert_eq!(values, [7, 5, 3]);

    assert_eq!(values.push_ord_descending(1), Ok(3));
    assert_eq!(values, [7, 5, 3, 1]);

    assert_eq!(values.push_ord_descending(9), Ok(0));
    assert_eq!(values, [9, 7, 5, 3, 1]);

    assert_eq!(values.push_ord_descending(8), Ok(1));
    assert_eq!(values, [9, 8, 7, 5, 3, 1]);

    assert_eq!(values.push_ord_descending(100), Ok(0));
    assert_eq!(values, [100, 9, 8, 7, 5, 3, 1]);

    assert_eq!(values.push_ord_descending(3), Ok(5));
    assert_eq!(values, [100, 9, 8, 7, 5, 3, 3, 1]);

    assert_eq!(values.push_ord_descending(2), Ok(7));
    assert_eq!(values, [100, 9, 8, 7, 5, 3, 3, 2, 1]);

    assert_eq!(values.push_ord_descending(0), Ok(9));
    assert_eq!(values, [100, 9, 8, 7, 5, 3, 3, 2, 1, 0]);
}

#[test]
fn test_push_keeps_sorted_strings() {
    let mut values: Vec<&str> = Vec::new();
    for word in ["pear", "apple", "quince", "banana", "apple"] {
        let index = values.push_ord_ascending(word).unwrap();
        assert_eq!(values[index], word);
    }
    assert_eq!(values, ["apple", "apple", "banana", "pear", "quince"]);
}

#[test]
fn test_push_length_changes_by_one_on_success() {
    let mut values: Vec<f64> = vec![1.0, 2.0, 3.0];
    assert_eq!(values.push_ord_ascending(2.5), Ok(2));
    assert_eq!(values.len(), 4);
    assert_eq!(values, [1.0, 2.0, 2.5, 3.0]);
}

#[test]
fn test_push_failure_leaves_vector_unchanged() {
    let mut values: Vec<f64> = vec![1.0, 2.0, 3.0];
    assert_eq!(values.push_ord_ascending(f64::NAN), Err(OrdVecError));
    assert_eq!(values, [1.0, 2.0, 3.0]);
    assert_eq!(values.len(), 3);

    let mut values: Vec<f64> = vec![3.0, 2.0, 1.0];
    assert_eq!(values.push_ord_descending(f64::NAN), Err(OrdVecError));
    assert_eq!(values, [3.0, 2.0, 1.0]);
}

#[test]
fn test_push_into_empty_is_index_zero() {
    let mut ascending: Vec<u8> = Vec::new();
    assert_eq!(ascending.push_ord_ascending(42), Ok(0));
    let mut descending: Vec<u8> = Vec::new();
    assert_eq!(descending.push_ord_descending(42), Ok(0));
    // An empty vector asks for no comparison at all, so even a value with no
    // defined order against anything lands at index 0.
    let mut floats: Vec<f64> = Vec::new();
    assert_eq!(floats.push_ord_ascending(f64::NAN), Ok(0));
}

#[test]
fn test_push_boundary_values() {
    let mut values: Vec<i64> = vec![10, 20, 30];
    assert_eq!(values.push_ord_ascending(-5), Ok(0));
    assert_eq!(values.push_ord_ascending(99), Ok(4));
    assert_eq!(values, [-5, 10, 20, 30, 99]);

    let mut values: Vec<i64> = vec![30, 20, 10];
    assert_eq!(values.push_ord_descending(99), Ok(0));
    assert_eq!(values.push_ord_descending(-5), Ok(4));
    assert_eq!(values, [99, 30, 20, 10, -5]);
}

#[test]
fn test_error_is_comparable_and_has_message() {
    assert_eq!(OrdVecError, OrdVecError);
    assert_eq!(OrdVecError.message(), "Failed to add item to vector");
    assert_eq!(format!("{:?}", OrdVecError), "OrdVecError");
}
