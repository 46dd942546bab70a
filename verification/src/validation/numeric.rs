//! Checks on numbers.

use vstd::prelude::*;
use vstd::arithmetic::div_mod::{lemma_fundamental_div_mod, lemma_mod_multiples_basic};
use crate::validation::params::MultipleOfErrorParams;

verus! {

/// Multiple validation of the number.
pub trait ValidateMultipleOf<T> {
    /// Succeeds where the value is a multiple of `multiple_of`; fails with the divisor otherwise.
    fn validate_multiple_of(&self, multiple_of: T) -> Result<(), MultipleOfErrorParams>;
}

/// Whether `value` is a multiple of `multiple_of`: some integer times
/// `multiple_of` is `value`. So only zero is a multiple of zero.
pub open spec fn is_multiple_of(value: int, multiple_of: int) -> bool {
    exists|factor: int| value == #[trigger] (factor * multiple_of)
}

/// The distance of an integer from zero.
pub open spec fn magnitude_of(i: int) -> nat {
    if i < 0 {
        (-i) as nat
    } else {
        i as nat
    }
}

/// A multiple is told by the magnitudes: `value` is a multiple of a divisor
/// that is not zero exactly when the remainder of their magnitudes is zero.
pub proof fn lemma_multiple_by_magnitude(value: int, divisor: int)
    requires
        divisor != 0,
    ensures
        is_multiple_of(value, divisor) <==> magnitude_of(value) as int % magnitude_of(divisor) as int
            == 0,
{
    let v = magnitude_of(value) as int;
    let d = magnitude_of(divisor) as int;
    if v % d == 0 {
        lemma_fundamental_div_mod(v, d);
        let q = v / d;
        assert(v == d * q);
        let factor = if (value < 0) == (divisor < 0) {
            q
        } else {
            -q
        };
        assert(value == factor * divisor) by (nonlinear_arith)
            requires
                v == d * q,
                v == if value < 0 {
                    -value
                } else {
                    value
                },
                d == if divisor < 0 {
                    -divisor
                } else {
                    divisor
                },
                factor == if (value < 0) == (divisor < 0) {
                    q
                } else {
                    -q
                },
                divisor != 0,
        ;
    }
    if is_multiple_of(value, divisor) {
        let factor = choose|factor: int| value == #[trigger] (factor * divisor);
        let f = magnitude_of(factor) as int;
        assert(v == f * d) by (nonlinear_arith)
            requires
                value == factor * divisor,
                v == if value < 0 {
                    -value
                } else {
                    value
                },
                d == if divisor < 0 {
                    -divisor
                } else {
                    divisor
                },
                f == if factor < 0 {
                    -factor
                } else {
                    factor
                },
        ;
        lemma_mod_multiples_basic(f, d);
    }
}

/// Only zero is a multiple of zero.
pub proof fn lemma_multiple_of_zero(value: int)
    ensures
        is_multiple_of(value, 0) <==> value == 0,
{
    if value == 0 {
        assert(value == 0 * 0);
    }
    if is_multiple_of(value, 0) {
        let factor = choose|factor: int| value == #[trigger] (factor * 0);
        assert(factor * 0 == 0) by (nonlinear_arith);
    }
}

/// `num_traits::Zero::zero` for `u128`: zero.
#[verifier::external_body]
fn zero() -> (z: u128)
    ensures
        z == 0,
{
    num_traits::Zero::zero()
}

fn magnitude(i: i128) -> (m: u128)
    ensures
        m == magnitude_of(i as int),
{
    if i < 0 {
        (-(i + 1)) as u128 + 1
    } else {
        i as u128
    }
}

fn multiple(value: i128, multiple_of: i128) -> (yes: bool)
    ensures
        yes == is_multiple_of(value as int, multiple_of as int),
{
    if magnitude(multiple_of) == zero() {
        proof {
            lemma_multiple_of_zero(value as int);
        }
        magnitude(value) == zero()
    } else {
        proof {
            lemma_multiple_by_magnitude(value as int, multiple_of as int);
        }
        magnitude(value) % magnitude(multiple_of) == zero()
    }
}

fn unsigned_multiple(value: u128, multiple_of: u128) -> (yes: bool)
    ensures
        yes == is_multiple_of(value as int, multiple_of as int),
{
    if multiple_of == zero() {
        proof {
            lemma_multiple_of_zero(value as int);
        }
        value == zero()
    } else {
        proof {
            lemma_multiple_by_magnitude(value as int, multiple_of as int);
        }
        value % multiple_of == zero()
    }
}

impl ValidateMultipleOf<i8> for i8 {
    fn validate_multiple_of(&self, multiple_of: i8) -> (result: Result<(), MultipleOfErrorParams>)
        ensures
            result is Ok <==> is_multiple_of(*self as int, multiple_of as int),
            result matches Err(params) ==> params.multiple_of() == multiple_of,
    {
        if multiple(*self as i128, multiple_of as i128) {
            Ok(())
        } else {
            Err(MultipleOfErrorParams::new(multiple_of as i128))
        }
    }
}

impl ValidateMultipleOf<i16> for i16 {
    fn validate_multiple_of(&self, multiple_of: i16) -> (result: Result<(), MultipleOfErrorParams>)
        ensures
            result is Ok <==> is_multiple_of(*self as int, multiple_of as int),
            result matches Err(params) ==> params.multiple_of() == multiple_of,
    {
        if multiple(*self as i128, multiple_of as i128) {
            Ok(())
        } else {
            Err(MultipleOfErrorParams::new(multiple_of as i128))
        }
    }
}

impl ValidateMultipleOf<i32> for i32 {
    fn validate_multiple_of(&self, multiple_of: i32) -> (result: Result<(), MultipleOfErrorParams>)
        ensures
            result is Ok <==> is_multiple_of(*self as int, multiple_of as int),
            result matches Err(params) ==> params.multiple_of() == multiple_of,
    {
        if multiple(*self as i128, multiple_of as i128) {
            Ok(())
        } else {
            Err(MultipleOfErrorParams::new(multiple_of as i128))
        }
    }
}

impl ValidateMultipleOf<i64> for i64 {
    fn validate_multiple_of(&self, multiple_of: i64) -> (result: Result<(), MultipleOfErrorParams>)
        ensures
            result is Ok <==> is_multiple_of(*self as int, multiple_of as int),
            result matches Err(params) ==> params.multiple_of() == multiple_of,
    {
        if multiple(*self as i128, multiple_of as i128) {
            Ok(())
        } else {
            Err(MultipleOfErrorParams::new(multiple_of as i128))
        }
    }
}

impl ValidateMultipleOf<i128> for i128 {
    fn validate_multiple_of(&self, multiple_of: i128) -> (result: Result<(), MultipleOfErrorParams>)
        ensures
            result is Ok <==> is_multiple_of(*self as int, multiple_of as int),
            result matches Err(params) ==> params.multiple_of() == multiple_of,
    {
        if multiple(*self as i128, multiple_of as i128) {
            Ok(())
        } else {
            Err(MultipleOfErrorParams::new(multiple_of as i128))
        }
    }
}

impl ValidateMultipleOf<isize> for isize {
    fn validate_multiple_of(&self, multiple_of: isize) -> (result: Result<(), MultipleOfErrorParams>)
        ensures
            result is Ok <==> is_multiple_of(*self as int, multiple_of as int),
            result matches Err(params) ==> params.multiple_of() == multiple_of,
    {
        if multiple(*self as i128, multiple_of as i128) {
            Ok(())
        } else {
            Err(MultipleOfErrorParams::new(multiple_of as i128))
        }
    }
}

impl ValidateMultipleOf<u8> for u8 {
    fn validate_multiple_of(&self, multiple_of: u8) -> (result: Result<(), MultipleOfErrorParams>)
        ensures
            result is Ok <==> is_multiple_of(*self as int, multiple_of as int),
            result matches Err(params) ==> params.multiple_of() == multiple_of,
    {
        if unsigned_multiple(*self as u128, multiple_of as u128) {
            Ok(())
        } else {
            Err(MultipleOfErrorParams::from_unsigned(multiple_of as u128))
        }
    }
}

impl ValidateMultipleOf<u16> for u16 {
    fn validate_multiple_of(&self, multiple_of: u16) -> (result: Result<(), MultipleOfErrorParams>)
        ensures
            result is Ok <==> is_multiple_of(*self as int, multiple_of as int),
            result matches Err(params) ==> params.multiple_of() == multiple_of,
    {
        if unsigned_multiple(*self as u128, multiple_of as u128) {
            Ok(())
        } else {
            Err(MultipleOfErrorParams::from_unsigned(multiple_of as u128))
        }
    }
}

impl ValidateMultipleOf<u32> for u32 {
    fn validate_multiple_of(&self, multiple_of: u32) -> (result: Result<(), MultipleOfErrorParams>)
        ensures
            result is Ok <==> is_multiple_of(*self as int, multiple_of as int),
            result matches Err(params) ==> params.multiple_of() == multiple_of,
    {
        if unsigned_multiple(*self as u128, multiple_of as u128) {
            Ok(())
        } else {
            Err(MultipleOfErrorParams::from_unsigned(multiple_of as u128))
        }
    }
}

impl ValidateMultipleOf<u64> for u64 {
    fn validate_multiple_of(&self, multiple_of: u64) -> (result: Result<(), MultipleOfErrorParams>)
        ensures
            result is Ok <==> is_multiple_of(*self as int, multiple_of as int),
            result matches Err(params) ==> params.multiple_of() == multiple_of,
    {
        if unsigned_multiple(*self as u128, multiple_of as u128) {
            Ok(())
        } else {
            Err(MultipleOfErrorParams::from_unsigned(multiple_of as u128))
        }
    }
}

impl ValidateMultipleOf<u128> for u128 {
    fn validate_multiple_of(&self, multiple_of: u128) -> (result: Result<(), MultipleOfErrorParams>)
        ensures
            result is Ok <==> is_multiple_of(*self as int, multiple_of as int),
            result matches Err(params) ==> params.multiple_of() == multiple_of,
    {
        if unsigned_multiple(*self as u128, multiple_of as u128) {
            Ok(())
        } else {
            Err(MultipleOfErrorParams::from_unsigned(multiple_of as u128))
        }
    }
}

impl ValidateMultipleOf<usize> for usize {
    fn validate_multiple_of(&self, multiple_of: usize) -> (result: Result<(), MultipleOfErrorParams>)
        ensures
            result is Ok <==> is_multiple_of(*self as int, multiple_of as int),
            result matches Err(params) ==> params.multiple_of() == multiple_of,
    {
        if unsigned_multiple(*self as u128, multiple_of as u128) {
            Ok(())
        } else {
            Err(MultipleOfErrorParams::from_unsigned(multiple_of as u128))
        }
    }
}

} // verus!
