//! Log levels of the SDK's logging.
use vstd::prelude::*;

verus! {

/// How important a log line is.
#[derive(Clone, Copy, Debug, PartialEq, Eq, Structural)]
pub enum Level {
    Error,
    Warn,
    Info,
    Debug,
    Trace,
}

} // verus!
