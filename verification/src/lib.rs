//! A pomodoro session daemon's core: the wire codec for start/control
//! messages, the session scheduler that turns wall-clock time plus
//! pause/resume bookkeeping into a phase, and the status text it reports.

pub mod cli;
pub mod codec;
pub mod config;
pub mod errors;
pub mod scheduler;
pub mod session;
pub mod status;
pub mod timefmt;
