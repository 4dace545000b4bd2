//! Building blocks for pipelines of callbacks. A stage takes values one at
//! a time through `CallFinish::call` and gives back a result through
//! `CallFinish::finish`; stages hand values on to one another, merge the
//! results of several stages, and record the time they take as `Timings`.
pub mod error;
pub mod callfinish;
pub mod timings;
pub mod mergetimings;
pub mod callbackmerge;
pub mod replacenonewithtimings;
pub mod callall;
pub mod callback;
pub mod callbacksync;
pub mod reversecallback;

pub use error::{Error, Result};
pub use callfinish::{CallFinish, CollectResult};
pub use timings::Timings;
pub use mergetimings::MergeTimings;
pub use callbackmerge::CallbackMerge;
pub use replacenonewithtimings::ReplaceNoneWithTimings;
pub use callall::CallAll;
