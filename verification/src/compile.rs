//! The declaration compiler: from the declarations on a field to validators.

pub mod enumerate;
pub mod length;
pub mod message;
pub mod meta;
pub mod meta_path;
pub mod numeric;
pub mod pattern;
pub mod rule;
