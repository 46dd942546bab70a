//! Checks on the number of items of a sequence.

use vstd::prelude::*;
use crate::validation::params::{MaxItemsErrorParams, MinItemsErrorParams};

verus! {

/// Max length validation of the array items.
pub trait ValidateMaxItems {
    /// Succeeds where there are at most `max_items` items; fails with the bound otherwise.
    fn validate_max_items(&self, max_items: usize) -> Result<(), MaxItemsErrorParams>;
}

impl<T> ValidateMaxItems for Vec<T> {
    fn validate_max_items(&self, max_items: usize) -> (result: Result<(), MaxItemsErrorParams>)
        ensures
            result is Ok <==> self@.len() <= max_items,
            result matches Err(params) ==> params.max_items == max_items,
    {
        if max_items >= self.len() {
            Ok(())
        } else {
            Err(MaxItemsErrorParams::new(max_items))
        }
    }
}

impl<T, const N: usize> ValidateMaxItems for [T; N] {
    fn validate_max_items(&self, max_items: usize) -> (result: Result<(), MaxItemsErrorParams>)
        ensures
            result is Ok <==> N <= max_items,
            result matches Err(params) ==> params.max_items == max_items,
    {
        if max_items >= N {
            Ok(())
        } else {
            Err(MaxItemsErrorParams::new(max_items))
        }
    }
}

/// Min length validation of the array items.
pub trait ValidateMinItems {
    /// Succeeds where there are at least `min_items` items; fails with the bound otherwise.
    fn validate_min_items(&self, min_items: usize) -> Result<(), MinItemsErrorParams>;
}

impl<T> ValidateMinItems for Vec<T> {
    fn validate_min_items(&self, min_items: usize) -> (result: Result<(), MinItemsErrorParams>)
        ensures
            result is Ok <==> self@.len() >= min_items,
            result matches Err(params) ==> params.min_items == min_items,
    {
        if min_items <= self.len() {
            Ok(())
        } else {
            Err(MinItemsErrorParams::new(min_items))
        }
    }
}

impl<T, const N: usize> ValidateMinItems for [T; N] {
    fn validate_min_items(&self, min_items: usize) -> (result: Result<(), MinItemsErrorParams>)
        ensures
            result is Ok <==> N >= min_items,
            result matches Err(params) ==> params.min_items == min_items,
    {
        if min_items <= N {
            Ok(())
        } else {
            Err(MinItemsErrorParams::new(min_items))
        }
    }
}

} // verus!
