//! Error taxonomy: framing faults of the wire codec and faults of a
//! session configuration. Socket-level faults live with the process
//! around the library, not here.

use vstd::prelude::*;

verus! {

/// A malformed or truncated wire payload.
#[derive(Clone, Copy, Debug, PartialEq, Eq, Structural)]
pub enum FramingError {
    /// A fixed-width field was cut short.
    Truncated,
    /// The leading control tag names no known message.
    BadTag,
    /// The declared string lengths do not sum to the trailing byte run.
    LengthMismatch,
}

/// A session configuration the scheduler cannot run.
#[derive(Clone, Copy, Debug, PartialEq, Eq, Structural)]
pub enum ConfigError {
    /// The iteration count is zero.
    ZeroIterations,
    /// Focus and rest spans are both zero, so a cycle has no length.
    ZeroCycle,
    /// Focus plus rest does not fit in a second counter.
    CycleTooLong,
    /// A configuration text that does not parse.
    Malformed,
}

impl FramingError {
    /// A short label for reporting, in place of a `Display` impl.
    pub fn describe(&self) -> (r: String)
        ensures
            self is Truncated ==> r@ == "truncated payload"@,
            self is BadTag ==> r@ == "unknown control tag"@,
            self is LengthMismatch ==> r@ == "string lengths do not match the payload"@,
    {
        match self {
            FramingError::Truncated => "truncated payload".to_owned(),
            FramingError::BadTag => "unknown control tag".to_owned(),
            FramingError::LengthMismatch => "string lengths do not match the payload".to_owned(),
        }
    }
}

impl ConfigError {
    /// A short label for reporting, in place of a `Display` impl.
    pub fn describe(&self) -> (r: String)
        ensures
            self is ZeroIterations ==> r@ == "iteration count is zero"@,
            self is ZeroCycle ==> r@ == "focus and rest are both zero"@,
            self is CycleTooLong ==> r@ == "focus plus rest is too long"@,
            self is Malformed ==> r@ == "configuration does not parse"@,
    {
        match self {
            ConfigError::ZeroIterations => "iteration count is zero".to_owned(),
            ConfigError::ZeroCycle => "focus and rest are both zero".to_owned(),
            ConfigError::CycleTooLong => "focus plus rest is too long".to_owned(),
            ConfigError::Malformed => "configuration does not parse".to_owned(),
        }
    }
}

} // verus!
