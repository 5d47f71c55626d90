//! The session scheduler: applying control signals to the run state and
//! clock, and the per-tick step that turns the drained signals and the
//! wall clock into a decision and the side effects to emit.

use vstd::prelude::*;

use crate::session::{
    clock_wf, config_valid, elapsed_at, spec_cycle_index, spec_elapsed, spec_finished,
    spec_frozen_elapsed, spec_phase, ControlSignal, Phase, RunState, SessionClock, SessionConfig,
    SessionModel,
};
use crate::status::{snapshot, spec_snapshot};
use crate::timefmt::{spec_dec_bytes, u64_to_dec_bytes};
use vstd::slice::slice_to_vec;

verus! {

/// How one control signal transforms the run state and clock.
///
/// A pause that is already under way is not restarted; a resume charges
/// the wall-clock gap since the pause began to the paused total; a stop
/// only raises the stopping flag. `Kill` and `Start` never reach a
/// running scheduler and change nothing.
pub open spec fn signal_step(
    st: RunState,
    ck: SessionClock,
    sig: ControlSignal,
    now: u64,
) -> (RunState, SessionClock) {
    match sig {
        ControlSignal::Pause => {
            if !st.pausing {
                (
                    RunState { pausing: true, ..st },
                    SessionClock { pause_started_at: now, ..ck },
                )
            } else {
                (st, ck)
            }
        },
        ControlSignal::Resume => {
            if st.pausing {
                let gap = if now >= ck.pause_started_at {
                    now - ck.pause_started_at
                } else {
                    0
                };
                let total = ck.accumulated_paused + gap;
                (
                    RunState { pausing: false, ..st },
                    SessionClock {
                        accumulated_paused: (if total <= u64::MAX {
                            total
                        } else {
                            u64::MAX as int
                        }) as u64,
                        ..ck
                    },
                )
            } else {
                (st, ck)
            }
        },
        ControlSignal::Stop => (RunState { stopping: true, ..st }, ck),
        _ => (st, ck),
    }
}

/// The well-formedness that each signal step needs of its inputs and
/// hands back: the clock invariant, and a `now` the clock has not
/// outrun.
pub open spec fn step_pre(st: RunState, ck: SessionClock, now: u64) -> bool {
    &&& clock_wf(st, ck)
    &&& now >= ck.start + ck.accumulated_paused
    &&& st.pausing ==> now >= ck.pause_started_at
}

/// Applies one control signal, exactly as `signal_step` states.
pub fn apply_signal(st: &mut RunState, ck: &mut SessionClock, sig: ControlSignal, now: u64)
    requires
        step_pre(*old(st), *old(ck), now),
    ensures
        (*final(st), *final(ck)) == signal_step(*old(st), *old(ck), sig, now),
        step_pre(*final(st), *final(ck), now),
{
    match sig {
        ControlSignal::Pause => {
            if !st.pausing {
                st.pausing = true;
                ck.pause_started_at = now;
            }
        },
        ControlSignal::Resume => {
            if st.pausing {
                st.pausing = false;
                ck.accumulated_paused = ck.accumulated_paused + (now - ck.pause_started_at);
            }
        },
        ControlSignal::Stop => {
            st.stopping = true;
        },
        _ => {},
    }
}

/// How a whole tick's drained signals, applied in arrival order at one
/// instant, transform the run state and clock.
pub open spec fn drain_steps(
    st: RunState,
    ck: SessionClock,
    sigs: Seq<ControlSignal>,
    now: u64,
) -> (RunState, SessionClock)
    decreases sigs.len(),
{
    if sigs.len() == 0 {
        (st, ck)
    } else {
        let (s1, c1) = signal_step(st, ck, sigs[0], now);
        drain_steps(s1, c1, sigs.subrange(1, sigs.len() as int), now)
    }
}

/// Applies a tick's drained signals in arrival order, exactly as
/// `drain_steps` states.
pub fn drain_signals(st: &mut RunState, ck: &mut SessionClock, sigs: &Vec<ControlSignal>, now: u64)
    requires
        step_pre(*old(st), *old(ck), now),
    ensures
        (*final(st), *final(ck)) == drain_steps(*old(st), *old(ck), sigs@, now),
        step_pre(*final(st), *final(ck), now),
{
    let ghost st0 = *st;
    let ghost ck0 = *ck;
    proof {
        assert(sigs@.subrange(0, sigs@.len() as int) =~= sigs@);
    }
    let mut i: usize = 0;
    while i < sigs.len()
        invariant
            0 <= i <= sigs.len(),
            step_pre(*st, *ck, now),
            drain_steps(st0, ck0, sigs@, now) == drain_steps(
                *st,
                *ck,
                sigs@.subrange(i as int, sigs@.len() as int),
                now,
            ),
        decreases sigs.len() - i,
    {
        apply_signal(st, ck, sigs[i], now);
        proof {
            let tail = sigs@.subrange(i as int, sigs@.len() as int);
            assert(tail[0] == sigs@[i as int]);
            assert(tail.subrange(1, tail.len() as int) == sigs@.subrange(
                i + 1,
                sigs@.len() as int,
            ));
        }
        i = i + 1;
    }
    proof {
        assert(sigs@.subrange(sigs@.len() as int, sigs@.len() as int) =~= Seq::<
            ControlSignal,
        >::empty());
    }
}

/// Drift correction: pausing and later resuming leaves the effective
/// elapsed time exactly what it was when the pause began — the paused
/// total absorbs the whole wall-clock gap.
pub proof fn lemma_pause_resume_drift(
    st: RunState,
    ck: SessionClock,
    pause_at: u64,
    resume_at: u64,
)
    requires
        step_pre(st, ck, pause_at),
        !st.pausing,
        resume_at >= pause_at,
    ensures
        ({
            let (s1, c1) = signal_step(st, ck, ControlSignal::Pause, pause_at);
            let (s2, c2) = signal_step(s1, c1, ControlSignal::Resume, resume_at);
            &&& spec_elapsed(c2, resume_at) == spec_elapsed(ck, pause_at)
            &&& !s2.pausing
        }),
{
}

/// A second pause without an intervening resume is a no-op: it moves
/// nothing, and a later resume charges the gap from the first pause
/// only, so the paused interval is never counted twice.
pub proof fn lemma_pause_idempotent(
    st: RunState,
    ck: SessionClock,
    first_at: u64,
    second_at: u64,
    resume_at: u64,
)
    requires
        step_pre(st, ck, first_at),
        !st.pausing,
        second_at >= first_at,
        resume_at >= second_at,
    ensures
        ({
            let (s1, c1) = signal_step(st, ck, ControlSignal::Pause, first_at);
            let (s2, c2) = signal_step(s1, c1, ControlSignal::Pause, second_at);
            let (s3, c3) = signal_step(s2, c2, ControlSignal::Resume, resume_at);
            &&& (s2, c2) == (s1, c1)
            &&& c3.accumulated_paused == ck.accumulated_paused + (resume_at - first_at)
        }),
{
}

/// A phase-entry banner with every `#` byte replaced by the decimal
/// rendering of the entered cycle's one-based number.
pub open spec fn spec_subst_banner(b: Seq<u8>, count: int) -> Seq<u8>
    decreases b.len(),
{
    if b.len() == 0 {
        Seq::empty()
    } else {
        (if b[0] == 35 {
            spec_dec_bytes(count)
        } else {
            seq![b[0]]
        }) + spec_subst_banner(b.subrange(1, b.len() as int), count)
    }
}

/// Substitutes the cycle number into a banner, as `spec_subst_banner`
/// states: each `#` byte becomes the decimal digits of `count`.
pub fn subst_banner(b: &Vec<u8>, count: u64) -> (r: Vec<u8>)
    ensures
        r@ == spec_subst_banner(b@, count as int),
{
    let mut out: Vec<u8> = Vec::new();
    let mut i: usize = 0;
    proof {
        assert(b@.subrange(0, b@.len() as int) =~= b@);
    }
    while i < b.len()
        invariant
            0 <= i <= b.len(),
            spec_subst_banner(b@, count as int) == out@ + spec_subst_banner(
                b@.subrange(i as int, b@.len() as int),
                count as int,
            ),
        decreases b.len() - i,
    {
        let ghost tail = b@.subrange(i as int, b@.len() as int);
        proof {
            assert(tail[0] == b@[i as int]);
            assert(tail.subrange(1, tail.len() as int) == b@.subrange(i + 1, b@.len() as int));
        }
        if b[i] == 35 {
            let mut digits = u64_to_dec_bytes(count);
            out.append(&mut digits);
        } else {
            out.push(b[i]);
        }
        i = i + 1;
    }
    proof {
        assert(b@.subrange(b@.len() as int, b@.len() as int) =~= Seq::<u8>::empty());
    }
    out
}

/// The bytes of the end-of-session banner, `End of Session!`.
pub open spec fn spec_end_banner() -> Seq<u8> {
    seq![69u8, 110u8, 100u8, 32u8, 111u8, 102u8, 32u8, 83u8, 101u8, 115u8, 115u8, 105u8, 111u8, 110u8, 33u8]
}

/// The end-of-session banner, as `spec_end_banner` spells it.
pub fn end_banner() -> (r: Vec<u8>)
    ensures
        r@ == spec_end_banner(),
{
    let mut v: Vec<u8> = Vec::new();
    v.push(69);
    v.push(110);
    v.push(100);
    v.push(32);
    v.push(111);
    v.push(102);
    v.push(32);
    v.push(83);
    v.push(101);
    v.push(115);
    v.push(115);
    v.push(105);
    v.push(111);
    v.push(110);
    v.push(33);
    proof {
        assert(v@ =~= spec_end_banner());
    }
    v
}

/// What one tick decided: the run goes on, holds still, or has ended.
#[derive(Clone, Copy, Debug, PartialEq, Eq, Structural)]
pub enum TickDecision {
    /// A stop signal ended the run.
    Stopped,
    /// A pause holds; the clock's elapsed time stands still.
    Paused,
    /// Every iteration has run to completion.
    Finished,
    /// The run goes on in some phase.
    Running,
}

/// Everything one tick asks of its surroundings: the decision, a popup
/// banner to show, an audio path to play, and a status text to push.
pub struct TickOutcome {
    pub decision: TickDecision,
    pub notification: Option<Vec<u8>>,
    pub audio_path: Option<Vec<u8>>,
    pub status: Option<String>,
}

/// The mathematical image of a `TickOutcome`.
#[verifier::ext_equal]
pub ghost struct TickModel {
    pub decision: TickDecision,
    pub notification: Option<Seq<u8>>,
    pub audio_path: Option<Seq<u8>>,
    pub status: Option<Seq<char>>,
}

impl View for TickOutcome {
    type V = TickModel;

    open spec fn view(&self) -> TickModel {
        TickModel {
            decision: self.decision,
            notification: match self.notification {
                Some(v) => Some(v@),
                None => None,
            },
            audio_path: match self.audio_path {
                Some(v) => Some(v@),
                None => None,
            },
            status: match self.status {
                Some(s) => Some(s@),
                None => None,
            },
        }
    }
}

/// The snapshot label and values for an elapsed time in a running,
/// unpaused session.
pub open spec fn spec_phase_snapshot(m: SessionModel, elapsed: int) -> Seq<char>
    recommends
        config_valid(m),
{
    if spec_phase(m, elapsed) == Phase::Focusing {
        spec_snapshot("focusing"@, m, elapsed)
    } else {
        spec_snapshot("resting"@, m, elapsed)
    }
}

/// One scheduler tick over an already-drained signal list.
///
/// The signals apply in arrival order; then stop wins over everything,
/// a holding pause freezes the clock and reports a paused snapshot, a
/// session past its last cycle ends with the end banner (popups
/// permitting) and the rest audio cue (sound permitting), and otherwise
/// the run goes on: entering a phase shows that phase's banner with the
/// cycle number substituted and plays the audio cue configured for the
/// phase being left.
pub open spec fn spec_tick(
    m: SessionModel,
    st: RunState,
    ck: SessionClock,
    sigs: Seq<ControlSignal>,
    now: u64,
) -> (RunState, SessionClock, TickModel)
    recommends
        config_valid(m),
        step_pre(st, ck, now),
{
    let (s, c) = drain_steps(st, ck, sigs, now);
    if s.stopping {
        let status = if s.pausing {
            spec_snapshot("Pause"@, m, spec_frozen_elapsed(c))
        } else {
            spec_phase_snapshot(m, spec_elapsed(c, now))
        };
        (
            s,
            c,
            TickModel {
                decision: TickDecision::Stopped,
                notification: None,
                audio_path: None,
                status: Some(status),
            },
        )
    } else if s.pausing {
        (
            s,
            c,
            TickModel {
                decision: TickDecision::Paused,
                notification: None,
                audio_path: None,
                status: Some(spec_snapshot("Pause"@, m, spec_frozen_elapsed(c))),
            },
        )
    } else {
        let e = spec_elapsed(c, now);
        if spec_finished(m, e) {
            (
                s,
                c,
                TickModel {
                    decision: TickDecision::Finished,
                    notification: if m.popup_notification {
                        Some(spec_end_banner())
                    } else {
                        None
                    },
                    audio_path: if m.sound_notification && m.rest_audio_path.len() > 0 {
                        Some(m.rest_audio_path)
                    } else {
                        None
                    },
                    status: None,
                },
            )
        } else {
            let ph = spec_phase(m, e);
            let entering = s.last_phase != Some(ph);
            let n = spec_cycle_index(m, e);
            let banner = if ph == Phase::Focusing {
                m.focus_banner
            } else {
                m.rest_banner
            };
            let prev_path = match s.last_phase {
                Some(Phase::Focusing) => m.focus_audio_path,
                Some(Phase::Resting) => m.rest_audio_path,
                None => Seq::empty(),
            };
            (
                RunState { last_phase: Some(ph), ..s },
                c,
                TickModel {
                    decision: TickDecision::Running,
                    notification: if entering && m.popup_notification {
                        Some(spec_subst_banner(banner, n + 1))
                    } else {
                        None
                    },
                    audio_path: if entering && m.sound_notification && s.last_phase is Some
                        && prev_path.len() > 0 {
                        Some(prev_path)
                    } else {
                        None
                    },
                    status: Some(spec_phase_snapshot(m, e)),
                },
            )
        }
    }
}

/// Runs one scheduler tick, exactly as `spec_tick` states it.
pub fn tick(
    cfg: &SessionConfig,
    st: &mut RunState,
    ck: &mut SessionClock,
    sigs: &Vec<ControlSignal>,
    now: u64,
) -> (out: TickOutcome)
    requires
        config_valid(cfg@),
        step_pre(*old(st), *old(ck), now),
    ensures
        ({
            let (s, c, t) = spec_tick(cfg@, *old(st), *old(ck), sigs@, now);
            &&& *final(st) == s
            &&& *final(ck) == c
            &&& out@ == t
            &&& step_pre(*final(st), *final(ck), now)
        }),
{
    drain_signals(st, ck, sigs, now);
    if st.stopping {
        let status = if st.pausing {
            let frozen = ck.pause_started_at - ck.start - ck.accumulated_paused;
            snapshot("Pause", cfg, frozen)
        } else {
            let e = elapsed_at(ck, now);
            match cfg.phase_of(e) {
                Phase::Focusing => snapshot("focusing", cfg, e),
                Phase::Resting => snapshot("resting", cfg, e),
            }
        };
        TickOutcome {
            decision: TickDecision::Stopped,
            notification: None,
            audio_path: None,
            status: Some(status),
        }
    } else if st.pausing {
        let frozen = ck.pause_started_at - ck.start - ck.accumulated_paused;
        let status = snapshot("Pause", cfg, frozen);
        TickOutcome {
            decision: TickDecision::Paused,
            notification: None,
            audio_path: None,
            status: Some(status),
        }
    } else {
        let e = elapsed_at(ck, now);
        if cfg.is_finished(e) {
            let notification = if cfg.popup_notification {
                Some(end_banner())
            } else {
                None
            };
            let audio_path = if cfg.sound_notification && cfg.rest_audio_path.len() > 0 {
                Some(slice_to_vec(cfg.rest_audio_path.as_slice()))
            } else {
                None
            };
            TickOutcome { decision: TickDecision::Finished, notification, audio_path, status: None }
        } else {
            let ph = cfg.phase_of(e);
            let entering = match st.last_phase {
                None => true,
                Some(p) => !(p == ph),
            };
            let n = cfg.cycle_index(e);
            let notification = if entering && cfg.popup_notification {
                let banner = match ph {
                    Phase::Focusing => &cfg.focus_banner,
                    Phase::Resting => &cfg.rest_banner,
                };
                Some(subst_banner(banner, n + 1))
            } else {
                None
            };
            let audio_path = if entering && cfg.sound_notification {
                match st.last_phase {
                    Some(Phase::Focusing) => {
                        if cfg.focus_audio_path.len() > 0 {
                            Some(slice_to_vec(cfg.focus_audio_path.as_slice()))
                        } else {
                            None
                        }
                    },
                    Some(Phase::Resting) => {
                        if cfg.rest_audio_path.len() > 0 {
                            Some(slice_to_vec(cfg.rest_audio_path.as_slice()))
                        } else {
                            None
                        }
                    },
                    None => None,
                }
            } else {
                None
            };
            let status = match ph {
                Phase::Focusing => snapshot("focusing", cfg, e),
                Phase::Resting => snapshot("resting", cfg, e),
            };
            st.last_phase = Some(ph);
            TickOutcome {
                decision: TickDecision::Running,
                notification,
                audio_path,
                status: Some(status),
            }
        }
    }
}

/// Stop takes precedence: however a tick's drained signals are ordered,
/// if one of them is `Stop` the tick ends the session, and no pause
/// bookkeeping can change that.
pub proof fn lemma_stop_precedence(
    m: SessionModel,
    st: RunState,
    ck: SessionClock,
    sigs: Seq<ControlSignal>,
    now: u64,
)
    requires
        sigs.contains(ControlSignal::Stop),
    ensures
        spec_tick(m, st, ck, sigs, now).2.decision == TickDecision::Stopped,
{
    lemma_stop_sticks(st, ck, sigs, now);
}

/// The stopping flag, once raised during a drain, stays raised, and any
/// drain whose signals include `Stop` ends with it raised.
pub proof fn lemma_stop_sticks(st: RunState, ck: SessionClock, sigs: Seq<ControlSignal>, now: u64)
    requires
        sigs.contains(ControlSignal::Stop) || st.stopping,
    ensures
        drain_steps(st, ck, sigs, now).0.stopping,
    decreases sigs.len(),
{
    if sigs.len() > 0 {
        let (s1, c1) = signal_step(st, ck, sigs[0], now);
        let tail = sigs.subrange(1, sigs.len() as int);
        if sigs[0] == ControlSignal::Stop || st.stopping {
            lemma_stop_sticks(s1, c1, tail, now);
        } else {
            assert(sigs.contains(ControlSignal::Stop));
            let i = choose|i: int| 0 <= i < sigs.len() && sigs[i] == ControlSignal::Stop;
            assert(tail[i - 1] == sigs[i]);
            assert(tail.contains(ControlSignal::Stop));
            lemma_stop_sticks(s1, c1, tail, now);
        }
    }
}

} // verus!
