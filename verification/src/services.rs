//! The domain services: the rules that hold across the stored records.

use crate::errors::CoreError;
use vstd::prelude::*;

pub mod block;
pub mod note;
pub mod user;
pub mod workspace;

verus! {

/// Turns the answer of a lookup into a result: a missing record is
/// `NotFound`.
pub fn require_found<T>(found: Option<T>) -> (r: Result<T, CoreError>)
    ensures
        r == match found {
            Some(value) => Ok::<T, CoreError>(value),
            None => Err::<T, CoreError>(CoreError::NotFound),
        },
{
    match found {
        Some(value) => Ok(value),
        None => Err(CoreError::NotFound),
    }
}

} // verus!
