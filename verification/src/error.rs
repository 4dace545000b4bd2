use vstd::prelude::*;

verus! {

/// The error of every stage: either a failure of the channels and threads
/// that carry the calls, with a message, or an error of the user's own kind.
#[derive(Debug)]
pub enum Error<E> {
    ChannelledCallbackError(String),
    OtherError(E),
}

/// The result of finishing a stage.
pub type Result<T, E> = core::result::Result<T, Error<E>>;

impl<E> From<E> for Error<E> {
    fn from(e: E) -> (r: Self) {
        Error::OtherError(e)
    }
}

impl<E> vstd::std_specs::convert::FromSpecImpl<E> for Error<E> {
    open spec fn obeys_from_spec() -> bool {
        true
    }

    open spec fn from_spec(e: E) -> Self {
        Error::OtherError(e)
    }
}

} // verus!
