//! The command surface a client invocation carries, free of any
//! argument-parsing machinery: the process around the library maps its
//! own argument grammar onto these values.

use vstd::prelude::*;

verus! {

/// One client invocation: the command it carries.
#[derive(Debug)]
pub struct Cli {
    pub state: State,
}

/// The commands a client can issue. `Start` carries the focus and rest
/// spans in seconds, the cycle count, and a configuration file path
/// that overrides the three when non-empty.
#[derive(Debug)]
pub enum State {
    /// Launch the background daemon if it is not running.
    Init,
    /// Terminate the background daemon if it is running.
    Kill,
    Pause,
    Start { focus: u64, rest: u64, number: u8, config: String },
    Stop,
    Resume,
    Status,
    From,
}

} // verus!
