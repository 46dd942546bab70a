use serde_valid::ValidateMaxItems;

#[test]
fn test_validate_array_vec_type() {
    assert!(ValidateMaxItems::validate_max_items(&vec!['a', 'b', 'c'], 3).is_ok());
}

#[test]
fn test_validate_array_max_items_array_type() {
    assert!(ValidateMaxItems::validate_max_items(&['a', 'b', 'c'], 3).is_ok());
}

#[test]
fn test_validate_array_max_items_is_true() {
    assert!(ValidateMaxItems::validate_max_items(&[1, 2, 3], 3).is_ok());
}

#[test]
fn test_validate_array_max_items_is_false() {
    assert!(ValidateMaxItems::validate_max_items(&[1, 2, 3], 2).is_err());
}
