//! Log messages as the core hands them to its host.

use vstd::prelude::*;

verus! {

/// How grave a log message is, from the least to the most.
#[derive(Debug, Clone, Copy, PartialEq, Eq, Structural)]
pub enum CoreLogLevel {
    Trace,
    Debug,
    Info,
    Warn,
    Error,
}

/// A log message that owns its text, so that it can pass from the thread
/// that logs to the thread that hands messages to the host.
#[derive(Debug, Clone, PartialEq, Eq)]
pub struct CoreLogMessageThreadSafe {
    pub level: CoreLogLevel,
    pub text: String,
    pub time: i64,
}

} // verus!
