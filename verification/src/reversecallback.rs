use vstd::prelude::*;
use crate::error::{Error, Result};

verus! {

/// The outcome of a producer that ran on a thread of its own, with an error
/// of the user's own kind wrapped as `Error::OtherError`.
pub fn lift_error<T, E>(r: core::result::Result<T, E>) -> (res: Result<T, E>)
    ensures
        match r {
            Ok(t) => res == Ok::<T, Error<E>>(t),
            Err(e) => res == Err::<T, Error<E>>(Error::OtherError(e)),
        },
{
    match r {
        Ok(t) => Ok(t),
        Err(e) => Err(Error::from(e)),
    }
}

} // verus!
