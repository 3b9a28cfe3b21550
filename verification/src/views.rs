//! What the contracts see of a value that may be missing.

use vstd::prelude::*;

verus! {

/// The view of what is there, if anything is.
pub open spec fn given<T: View>(value: Option<T>) -> Option<T::V> {
    match value {
        Some(v) => Some(v@),
        None => None,
    }
}

/// The view of what was made, or why nothing was.
pub open spec fn made<T: View, E>(result: Result<T, E>) -> Result<T::V, E> {
    match result {
        Ok(v) => Ok(v@),
        Err(error) => Err(error),
    }
}

} // verus!
