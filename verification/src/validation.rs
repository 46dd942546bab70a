//! Run-time validation: the checks, the violations they report, and the
//! tree that collects them.

pub mod apply;
pub mod array;
pub mod error;
pub mod numeric;
pub mod params;
pub mod record;
pub mod string;
pub mod value;
