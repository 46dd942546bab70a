//! Declarative validation: constraint declarations are compiled into
//! validators, and validators applied to values report every violation in a
//! tree shaped like the value.

pub mod compile;
pub mod diagnostic;
pub mod error;
pub mod field;
pub mod syntax;
pub mod text;
pub mod types;
pub mod validation;
pub mod validator;

pub use compile::enumerate::extract_generic_enumerate_validator;
pub use compile::message::extract_message_fn_tokens;
pub use compile::meta::{extract_field_validators, extract_meta_validator, extract_validator_from_path};
pub use compile::meta_path::extract_validator_from_meta_path;
pub use compile::numeric::extract_multiples_validator;
pub use compile::rule::collect_rules_from_unnamed_struct;
pub use error::Error;
pub use field::{make_element_field, make_element_ident};
pub use types::{extract_element_type_from_array, extract_type_from_option};
pub use validation::apply::Validate;
pub use validation::array::{ValidateMaxItems, ValidateMinItems};
pub use validation::error::Errors;
pub use validation::numeric::ValidateMultipleOf;
pub use validation::params::{
    EnumerateErrorParams,
    ItemsErrorParams,
    MaxItemsErrorParams,
    MaxLengthErrorParams,
    MaxPropertiesErrorParams,
    MinItemsErrorParams,
    MinLengthErrorParams,
    MinPropertiesErrorParams,
    MultipleOfErrorParams,
    PatternErrorParams,
    ToDefaultMessage,
};
pub use validation::string::{ValidateMaxLength, ValidateMinLength, ValidatePattern};
