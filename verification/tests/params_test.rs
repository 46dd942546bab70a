use serde_valid::validation::params::Params;
use serde_valid::{
    ItemsErrorParams, MaxItemsErrorParams, MaxLengthErrorParams, MaxPropertiesErrorParams,
    MinItemsErrorParams, MinLengthErrorParams, MinPropertiesErrorParams, MultipleOfErrorParams,
    ToDefaultMessage, ValidateMaxItems, ValidateMinItems, ValidateMultipleOf,
};

#[test]
fn items_error_params_keep_what_they_are_made_of() {
    let params = ItemsErrorParams::new(&[1, 2, 3], Some(4), None);
    assert_eq!(params.items(), &vec!["1".to_string(), "2".to_string(), "3".to_string()]);
    assert_eq!(params.items_length(), 3);
    assert_eq!(params.min_items(), Some(4));
    assert_eq!(params.max_items(), None);
}

#[test]
fn items_are_written_as_their_debug_implementation_writes_them() {
    let params = ItemsErrorParams::new(&["a", "b"], None, Some(1));
    assert_eq!(params.items(), &vec!["\"a\"".to_string(), "\"b\"".to_string()]);
    let empty: [u8; 0] = [];
    assert_eq!(ItemsErrorParams::new(&empty, None, None).items().len(), 0);
}

#[test]
fn the_default_message_of_items_names_the_bounds_that_are_given() {
    assert_eq!(
        ItemsErrorParams::new(&[1, 2, 3], Some(4), Some(10)).to_default_message(),
        "items length of [1, 2, 3] must be in `4 <= length <= 10`, but `3`."
    );
    assert_eq!(
        ItemsErrorParams::new(&[1, 2, 3], Some(4), None).to_default_message(),
        "items length of [1, 2, 3] must be in `4 <= length`, but `3`."
    );
    assert_eq!(
        ItemsErrorParams::new(&['a', 'b'], None, Some(1)).to_default_message(),
        "items length of ['a', 'b'] must be in `length <= 1`, but `2`."
    );
    let empty: [u8; 0] = [];
    assert_eq!(
        ItemsErrorParams::new(&empty, None, None).to_default_message(),
        "items length of [] must be in `length`, but `0`."
    );
}

#[test]
fn the_default_messages_of_the_bounds() {
    assert_eq!(
        MaxItemsErrorParams::new(3).to_default_message(),
        "the length of the items must be `<= 3`."
    );
    assert_eq!(
        MinItemsErrorParams::new(12).to_default_message(),
        "the length of the items must be `>= 12`."
    );
    assert_eq!(
        MinPropertiesErrorParams::new(1).to_default_message(),
        "the size of the properties must be `>= 1`."
    );
    assert_eq!(
        MaxPropertiesErrorParams::new(0).to_default_message(),
        "the size of the properties must be `<= 0`."
    );
    assert_eq!(
        MinLengthErrorParams::new(5).to_default_message(),
        "the length of the value must be `>= 5`."
    );
    assert_eq!(
        MaxLengthErrorParams::new(3).to_default_message(),
        "the length of the value must be `<= 3`."
    );
    assert_eq!(Params::Minimum(-7).to_default_message(), "the number must be `>= -7`.");
    assert_eq!(Params::ExclusiveMinimum(0).to_default_message(), "the number must be `> 0`.");
    assert_eq!(Params::Maximum(0).to_default_message(), "the number must be `<= 0`.");
    assert_eq!(
        Params::ExclusiveMaximum(i128::MAX).to_default_message(),
        "the number must be `< 170141183460469231731687303715884105727`."
    );
    assert_eq!(
        Params::Minimum(i128::MIN).to_default_message(),
        "the number must be `>= -170141183460469231731687303715884105728`."
    );
}

#[test]
fn the_default_message_of_a_multiple() {
    assert_eq!(
        MultipleOfErrorParams::new(5).to_default_message(),
        "the value must be multiple of `5`."
    );
    assert_eq!(
        MultipleOfErrorParams::new(-12).to_default_message(),
        "the value must be multiple of `-12`."
    );
    assert_eq!(
        MultipleOfErrorParams::from_unsigned(u128::MAX).to_default_message(),
        "the value must be multiple of `340282366920938463463374607431768211455`."
    );
    assert_eq!(10.validate_multiple_of(3).unwrap_err(), MultipleOfErrorParams::new(3));
}

#[test]
fn multiples_of_every_integer_type() {
    assert!(10i8.validate_multiple_of(-5).is_ok());
    assert!((-128i8).validate_multiple_of(-1).is_ok());
    assert!((-128i8).validate_multiple_of(3).is_err());
    assert!(10i16.validate_multiple_of(4).is_err());
    assert!(i32::MIN.validate_multiple_of(-1).is_ok());
    assert!(i64::MIN.validate_multiple_of(2).is_ok());
    assert!(i128::MIN.validate_multiple_of(-1).is_ok());
    assert!((-9isize).validate_multiple_of(3).is_ok());
    assert!(9u8.validate_multiple_of(3).is_ok());
    assert!(9u16.validate_multiple_of(2).is_err());
    assert!(0u32.validate_multiple_of(7).is_ok());
    assert!(u64::MAX.validate_multiple_of(5).is_ok());
    assert!(u128::MAX.validate_multiple_of(2).is_err());
    assert!(8usize.validate_multiple_of(8).is_ok());
    // Only zero is a multiple of zero.
    assert!(0i32.validate_multiple_of(0).is_ok());
    assert!(1i32.validate_multiple_of(0).is_err());
    assert!(0u8.validate_multiple_of(0).is_ok());
    assert!(1u8.validate_multiple_of(0).is_err());
    assert_eq!(
        u128::MAX.validate_multiple_of(2).unwrap_err().to_default_message(),
        "the value must be multiple of `2`."
    );
}

#[test]
fn item_counts_of_vectors_and_arrays() {
    assert_eq!(vec![1, 2, 3].validate_max_items(2), Err(MaxItemsErrorParams { max_items: 2 }));
    assert_eq!(Vec::<u8>::new().validate_max_items(0), Ok(()));
    assert_eq!([1, 2, 3].validate_min_items(4), Err(MinItemsErrorParams { min_items: 4 }));
    assert_eq!([1, 2, 3].validate_min_items(3), Ok(()));
    assert_eq!(vec!['a'].validate_min_items(1), Ok(()));
    assert_eq!(vec!['a'].validate_min_items(2), Err(MinItemsErrorParams { min_items: 2 }));
}
