use vstd::prelude::*;
use crate::error::{Error, Result};

verus! {

/// The message given when a stage is finished a second time.
pub open spec fn already_finished_message() -> Seq<char> {
    "already called finish"@
}

/// The message given when the worker thread of a stage could not be joined,
/// after the description `detail` of what the thread panicked with.
pub open spec fn join_failed_message(detail: Seq<char>) -> Seq<char> {
    "failed to join "@ + detail
}

/// The outcome of finishing a stage whose work runs on a thread of its own.
/// `joined` is `None` where the thread was already joined by an earlier
/// `finish`; else it is what joining it gave: the thread's own outcome, or,
/// where the thread panicked, a description of the panic.
pub fn join_outcome<U, E>(joined: Option<core::result::Result<Result<U, E>, String>>) -> (r: Result<
    U,
    E,
>)
    ensures
        match joined {
            None => r matches Err(Error::ChannelledCallbackError(m)) && m@
                == already_finished_message(),
            Some(Err(d)) => r matches Err(Error::ChannelledCallbackError(m)) && m@
                == join_failed_message(d@),
            Some(Ok(p)) => r == p,
        },
{
    proof {
        reveal_strlit("already called finish");
        reveal_strlit("failed to join ");
    }
    match joined {
        Some(Ok(p)) => p,
        Some(Err(d)) => {
            let mut m = "failed to join ".to_owned();
            m.append(d.as_str());
            Err(Error::ChannelledCallbackError(m))
        },
        None => Err(Error::ChannelledCallbackError("already called finish".to_owned())),
    }
}

} // verus!
