//! The session data model: the immutable configuration of one run, the
//! clock that turns wall time and pause bookkeeping into elapsed time,
//! and the phase that a given elapsed time falls in.

use vstd::prelude::*;

use crate::errors::ConfigError;

verus! {

/// Where in a cycle the session stands: the focus span or the rest span.
#[derive(Clone, Copy, Debug, PartialEq, Eq, Structural)]
pub enum Phase {
    Focusing,
    Resting,
}

/// An out-of-band steering byte's meaning. `Pause`, `Resume` and `Stop`
/// travel on the control endpoint; `Kill` and `Start` tag command
/// messages.
#[derive(Clone, Copy, Debug, PartialEq, Eq, Structural)]
pub enum ControlSignal {
    Pause,
    Resume,
    Stop,
    Kill,
    Start,
}

/// The immutable configuration of one session run. Durations are whole
/// seconds; banner and path text travel as raw bytes, and an empty
/// audio path means no audio cue is configured.
#[derive(Debug)]
pub struct SessionConfig {
    pub iterations: u8,
    pub focus: u64,
    pub rest: u64,
    pub popup_notification: bool,
    pub sound_notification: bool,
    pub focus_banner: Vec<u8>,
    pub rest_banner: Vec<u8>,
    pub focus_audio_path: Vec<u8>,
    pub rest_audio_path: Vec<u8>,
}

/// The mathematical image of a `SessionConfig`.
#[verifier::ext_equal]
pub ghost struct SessionModel {
    pub iterations: u8,
    pub focus: u64,
    pub rest: u64,
    pub popup_notification: bool,
    pub sound_notification: bool,
    pub focus_banner: Seq<u8>,
    pub rest_banner: Seq<u8>,
    pub focus_audio_path: Seq<u8>,
    pub rest_audio_path: Seq<u8>,
}

impl View for SessionConfig {
    type V = SessionModel;

    open spec fn view(&self) -> SessionModel {
        SessionModel {
            iterations: self.iterations,
            focus: self.focus,
            rest: self.rest,
            popup_notification: self.popup_notification,
            sound_notification: self.sound_notification,
            focus_banner: self.focus_banner@,
            rest_banner: self.rest_banner@,
            focus_audio_path: self.focus_audio_path@,
            rest_audio_path: self.rest_audio_path@,
        }
    }
}

/// A configuration the scheduler can run: at least one iteration, a
/// cycle of positive length, and a cycle length that fits a second
/// counter.
pub open spec fn config_valid(m: SessionModel) -> bool {
    &&& m.iterations >= 1
    &&& m.focus + m.rest > 0
    &&& m.focus + m.rest <= u64::MAX
}

/// How a configuration fails validation, if it does: the first failing
/// check among iteration count, empty cycle, and cycle overflow.
pub open spec fn spec_validate(m: SessionModel) -> Result<(), ConfigError> {
    if m.iterations == 0 {
        Err(ConfigError::ZeroIterations)
    } else if m.focus + m.rest == 0 {
        Err(ConfigError::ZeroCycle)
    } else if m.focus + m.rest > u64::MAX {
        Err(ConfigError::CycleTooLong)
    } else {
        Ok(())
    }
}

impl SessionConfig {
    /// Checks that the scheduler can run this configuration, naming the
    /// first fault found as `spec_validate` orders them.
    pub fn validate(&self) -> (r: Result<(), ConfigError>)
        ensures
            r == spec_validate(self@),
            r is Ok <==> config_valid(self@),
    {
        if self.iterations == 0 {
            Err(ConfigError::ZeroIterations)
        } else if self.focus == 0 && self.rest == 0 {
            Err(ConfigError::ZeroCycle)
        } else {
            match self.focus.checked_add(self.rest) {
                Some(_) => Ok(()),
                None => Err(ConfigError::CycleTooLong),
            }
        }
    }
}

/// One cycle's length in seconds: the focus span plus the rest span.
pub open spec fn spec_cycle_len(m: SessionModel) -> int {
    m.focus + m.rest
}

/// Which cycle an elapsed time falls in, counting from zero.
pub open spec fn spec_cycle_index(m: SessionModel, elapsed: int) -> int
    recommends
        config_valid(m),
{
    elapsed / spec_cycle_len(m)
}

/// The position inside the current cycle.
pub open spec fn spec_offset(m: SessionModel, elapsed: int) -> int
    recommends
        config_valid(m),
{
    elapsed % spec_cycle_len(m)
}

/// The phase at an elapsed time: focusing strictly before the focus
/// span runs out, resting from the boundary on.
pub open spec fn spec_phase(m: SessionModel, elapsed: int) -> Phase
    recommends
        config_valid(m),
{
    if spec_offset(m, elapsed) < m.focus {
        Phase::Focusing
    } else {
        Phase::Resting
    }
}

/// Whether the session has run all its cycles at an elapsed time.
pub open spec fn spec_finished(m: SessionModel, elapsed: int) -> bool
    recommends
        config_valid(m),
{
    spec_cycle_index(m, elapsed) >= m.iterations
}

impl SessionConfig {
    /// The cycle an elapsed second count falls in.
    pub fn cycle_index(&self, elapsed: u64) -> (n: u64)
        requires
            config_valid(self@),
        ensures
            n == spec_cycle_index(self@, elapsed as int),
    {
        elapsed / (self.focus + self.rest)
    }

    /// The position of an elapsed second count inside its cycle.
    pub fn offset(&self, elapsed: u64) -> (t: u64)
        requires
            config_valid(self@),
        ensures
            t == spec_offset(self@, elapsed as int),
    {
        elapsed % (self.focus + self.rest)
    }

    /// The phase an elapsed second count falls in.
    pub fn phase_of(&self, elapsed: u64) -> (p: Phase)
        requires
            config_valid(self@),
        ensures
            p == spec_phase(self@, elapsed as int),
    {
        if self.offset(elapsed) < self.focus {
            Phase::Focusing
        } else {
            Phase::Resting
        }
    }

    /// Whether all iterations are behind an elapsed second count.
    pub fn is_finished(&self, elapsed: u64) -> (b: bool)
        requires
            config_valid(self@),
        ensures
            b == spec_finished(self@, elapsed as int),
    {
        self.cycle_index(elapsed) >= self.iterations as u64
    }
}

/// The boundary belongs to rest: an in-cycle offset exactly equal to
/// the focus span classifies as `Resting`, never `Focusing`.
pub proof fn lemma_focus_boundary(m: SessionModel, elapsed: int)
    requires
        config_valid(m),
        spec_offset(m, elapsed) == m.focus,
    ensures
        spec_phase(m, elapsed) == Phase::Resting,
{
}

/// The clock of a running session: its launch instant in epoch seconds,
/// the seconds it has spent paused, and, while paused, when the pause
/// began.
#[derive(Clone, Copy, Debug)]
pub struct SessionClock {
    pub start: u64,
    pub accumulated_paused: u64,
    pub pause_started_at: u64,
}

/// The scheduler's mutable per-run state.
#[derive(Clone, Copy, Debug)]
pub struct RunState {
    pub pausing: bool,
    pub stopping: bool,
    pub last_phase: Option<Phase>,
}

/// The clock invariant the scheduler maintains: elapsed time never goes
/// negative, and a pause that is under way began no earlier than the
/// elapsed time it froze.
pub open spec fn clock_wf(st: RunState, ck: SessionClock) -> bool {
    &&& ck.start + ck.accumulated_paused <= u64::MAX
    &&& st.pausing ==> ck.pause_started_at >= ck.start + ck.accumulated_paused
}

/// Elapsed session time at a wall instant: wall time since launch minus
/// the time spent paused.
pub open spec fn spec_elapsed(ck: SessionClock, now: u64) -> int {
    now - ck.start - ck.accumulated_paused
}

/// Elapsed time while a pause holds is frozen at the instant the pause
/// began.
pub open spec fn spec_frozen_elapsed(ck: SessionClock) -> int {
    ck.pause_started_at - ck.start - ck.accumulated_paused
}

/// The elapsed session time at `now`, for a clock that `now` has not
/// fallen behind.
pub fn elapsed_at(ck: &SessionClock, now: u64) -> (e: u64)
    requires
        now >= ck.start + ck.accumulated_paused,
    ensures
        e == spec_elapsed(*ck, now),
{
    now - ck.start - ck.accumulated_paused
}

/// A fresh run over a validated configuration, its clock anchored at
/// the client's launch instant.
pub fn start_session(cfg: &SessionConfig, launch: u64) -> (r: Result<
    (RunState, SessionClock),
    ConfigError,
>)
    ensures
        r is Ok <==> config_valid(cfg@),
        r matches Err(e) ==> spec_validate(cfg@) == Err::<(), ConfigError>(e),
        r matches Ok((st, ck)) ==> {
            &&& st == (RunState { pausing: false, stopping: false, last_phase: None })
            &&& ck == (SessionClock { start: launch, accumulated_paused: 0, pause_started_at: 0 })
            &&& clock_wf(st, ck)
        },
{
    match cfg.validate() {
        Ok(_) => Ok(
            (
                RunState { pausing: false, stopping: false, last_phase: None },
                SessionClock { start: launch, accumulated_paused: 0, pause_started_at: 0 },
            ),
        ),
        Err(e) => Err(e),
    }
}

} // verus!
