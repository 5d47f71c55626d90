use comodoro::errors::ConfigError;
use comodoro::scheduler::{apply_signal, drain_signals, tick, TickDecision};
use comodoro::session::{
    elapsed_at, start_session, ControlSignal, Phase, RunState, SessionClock, SessionConfig,
};

fn config(iterations: u8, focus: u64, rest: u64) -> SessionConfig {
    SessionConfig {
        iterations,
        focus,
        rest,
        popup_notification: true,
        sound_notification: false,
        focus_banner: b"Start of Pomodoro #".to_vec(),
        rest_banner: b"Start of Rest #".to_vec(),
        focus_audio_path: Vec::new(),
        rest_audio_path: Vec::new(),
    }
}

fn fresh(cfg: &SessionConfig, launch: u64) -> (RunState, SessionClock) {
    start_session(cfg, launch).expect("a valid configuration")
}

#[test]
fn phase_correctness() {
    let cfg = config(4, 1500, 300);
    assert_eq!(cfg.phase_of(0), Phase::Focusing);
    assert_eq!(cfg.cycle_index(0), 0);
    assert_eq!(cfg.phase_of(1500), Phase::Resting);
    assert_eq!(cfg.cycle_index(1500), 0);
    assert_eq!(cfg.phase_of(1800), Phase::Focusing);
    assert_eq!(cfg.cycle_index(1800), 1);
    assert_eq!(cfg.cycle_index(7200), 4);
    assert!(cfg.is_finished(7200));
    assert!(!cfg.is_finished(7199));
}

#[test]
fn boundary_belongs_to_rest() {
    let cfg = config(4, 1500, 300);
    // offset exactly equal to the focus span classifies as resting
    assert_eq!(cfg.offset(1500), 1500);
    assert_eq!(cfg.phase_of(1500), Phase::Resting);
    let tiny = config(1, 5, 5);
    assert_eq!(tiny.phase_of(5), Phase::Resting);
    assert_eq!(tiny.phase_of(4), Phase::Focusing);
}

#[test]
fn pause_resume_drift() {
    let cfg = config(4, 1500, 300);
    let (mut st, mut ck) = fresh(&cfg, 1000);
    // pause at elapsed 100, resume 50 wall seconds later
    apply_signal(&mut st, &mut ck, ControlSignal::Pause, 1100);
    assert!(st.pausing);
    apply_signal(&mut st, &mut ck, ControlSignal::Resume, 1150);
    assert!(!st.pausing);
    assert_eq!(ck.accumulated_paused, 50);
    assert_eq!(elapsed_at(&ck, 1150), 100);
}

#[test]
fn idempotent_pause() {
    let cfg = config(4, 1500, 300);
    let (mut st, mut ck) = fresh(&cfg, 1000);
    apply_signal(&mut st, &mut ck, ControlSignal::Pause, 1100);
    let frozen_at = ck.pause_started_at;
    apply_signal(&mut st, &mut ck, ControlSignal::Pause, 1130);
    // the second pause moved nothing
    assert_eq!(ck.pause_started_at, frozen_at);
    assert_eq!(ck.accumulated_paused, 0);
    apply_signal(&mut st, &mut ck, ControlSignal::Resume, 1160);
    // the paused interval counts once, from the first pause
    assert_eq!(ck.accumulated_paused, 60);
    assert_eq!(elapsed_at(&ck, 1160), 100);
}

#[test]
fn resume_without_pause_is_noop() {
    let cfg = config(4, 1500, 300);
    let (mut st, mut ck) = fresh(&cfg, 1000);
    apply_signal(&mut st, &mut ck, ControlSignal::Resume, 1100);
    assert!(!st.pausing);
    assert_eq!(ck.accumulated_paused, 0);
}

#[test]
fn stop_precedence_either_order() {
    let cfg = config(4, 1500, 300);
    for signals in [
        vec![ControlSignal::Stop, ControlSignal::Pause],
        vec![ControlSignal::Pause, ControlSignal::Stop],
    ] {
        let (mut st, mut ck) = fresh(&cfg, 1000);
        let out = tick(&cfg, &mut st, &mut ck, &signals, 1010);
        assert_eq!(out.decision, TickDecision::Stopped);
        assert!(st.stopping);
        assert!(out.notification.is_none());
        assert!(out.audio_path.is_none());
        assert!(out.status.is_some());
    }
}

#[test]
fn drain_applies_in_arrival_order() {
    let cfg = config(4, 1500, 300);
    let (mut st, mut ck) = fresh(&cfg, 1000);
    // pause then resume in one drain: the pause is charged nothing
    let signals = vec![ControlSignal::Pause, ControlSignal::Resume];
    drain_signals(&mut st, &mut ck, &signals, 1100);
    assert!(!st.pausing);
    assert_eq!(ck.accumulated_paused, 0);
    // resume then pause leaves the session paused
    let signals = vec![ControlSignal::Resume, ControlSignal::Pause];
    drain_signals(&mut st, &mut ck, &signals, 1200);
    assert!(st.pausing);
    assert_eq!(ck.pause_started_at, 1200);
}

#[test]
fn first_tick_enters_focus() {
    let cfg = config(4, 90, 30);
    let (mut st, mut ck) = fresh(&cfg, 1000);
    let out = tick(&cfg, &mut st, &mut ck, &Vec::new(), 1000);
    assert_eq!(out.decision, TickDecision::Running);
    assert_eq!(st.last_phase, Some(Phase::Focusing));
    // the banner's `#` becomes the one-based cycle number
    assert_eq!(out.notification.unwrap(), b"Start of Pomodoro 1".to_vec());
    assert!(out.audio_path.is_none());
    let status = out.status.unwrap();
    assert_eq!(
        status,
        "status: focusing\r\niteration: 0/4\r\nfocus: 01:30/01:30\r\nrest: 00:30/00:30\r\n"
    );
}

#[test]
fn transition_into_rest_notifies_once() {
    let cfg = config(4, 90, 30);
    let (mut st, mut ck) = fresh(&cfg, 1000);
    tick(&cfg, &mut st, &mut ck, &Vec::new(), 1000);
    // still focusing: no fresh notification
    let out = tick(&cfg, &mut st, &mut ck, &Vec::new(), 1050);
    assert_eq!(out.decision, TickDecision::Running);
    assert!(out.notification.is_none());
    // the boundary into rest fires the rest banner
    let out = tick(&cfg, &mut st, &mut ck, &Vec::new(), 1090);
    assert_eq!(out.decision, TickDecision::Running);
    assert_eq!(st.last_phase, Some(Phase::Resting));
    assert_eq!(out.notification.unwrap(), b"Start of Rest 1".to_vec());
    let status = out.status.unwrap();
    assert_eq!(
        status,
        "status: resting\r\niteration: 0/4\r\nfocus: 00:00/01:30\r\nrest: 00:30/00:30\r\n"
    );
}

#[test]
fn entering_rest_plays_focus_audio() {
    // the audio cue fires for the phase being left: into rest, the
    // focus path plays; at session end, the rest path plays
    let mut cfg = config(1, 10, 10);
    cfg.sound_notification = true;
    cfg.focus_audio_path = b"/tmp/f.wav".to_vec();
    cfg.rest_audio_path = b"/tmp/r.wav".to_vec();
    let (mut st, mut ck) = fresh(&cfg, 1000);
    let out = tick(&cfg, &mut st, &mut ck, &Vec::new(), 1002);
    assert!(out.audio_path.is_none()); // first tick leaves no phase
    let out = tick(&cfg, &mut st, &mut ck, &Vec::new(), 1012);
    assert_eq!(st.last_phase, Some(Phase::Resting));
    assert_eq!(out.audio_path.unwrap(), b"/tmp/f.wav".to_vec());
    let out = tick(&cfg, &mut st, &mut ck, &Vec::new(), 1020);
    assert_eq!(out.decision, TickDecision::Finished);
    assert_eq!(out.audio_path.unwrap(), b"/tmp/r.wav".to_vec());
    assert_eq!(out.notification.unwrap(), b"End of Session!".to_vec());
    assert!(out.status.is_none());
}

#[test]
fn paused_tick_freezes_the_snapshot() {
    let cfg = config(4, 90, 30);
    let (mut st, mut ck) = fresh(&cfg, 1000);
    tick(&cfg, &mut st, &mut ck, &Vec::new(), 1000);
    let signals = vec![ControlSignal::Pause];
    // paused at elapsed 20; a much later tick still reports elapsed 20
    let out = tick(&cfg, &mut st, &mut ck, &signals, 1020);
    assert_eq!(out.decision, TickDecision::Paused);
    let status = out.status.unwrap();
    assert_eq!(
        status,
        "status: Pause\r\niteration: 0/4\r\nfocus: 01:10/01:30\r\nrest: 00:30/00:30\r\n"
    );
    let out = tick(&cfg, &mut st, &mut ck, &Vec::new(), 1500);
    assert_eq!(out.decision, TickDecision::Paused);
    assert_eq!(
        out.status.unwrap(),
        "status: Pause\r\niteration: 0/4\r\nfocus: 01:10/01:30\r\nrest: 00:30/00:30\r\n"
    );
    // resuming at 1500 absorbs the whole gap: still elapsed 20
    let signals = vec![ControlSignal::Resume];
    let out = tick(&cfg, &mut st, &mut ck, &signals, 1500);
    assert_eq!(out.decision, TickDecision::Running);
    assert_eq!(ck.accumulated_paused, 480);
    assert_eq!(
        out.status.unwrap(),
        "status: focusing\r\niteration: 0/4\r\nfocus: 01:10/01:30\r\nrest: 00:30/00:30\r\n"
    );
}

#[test]
fn end_to_end_scenario() {
    // start{focus: 5, rest: 5, iterations: 1} at launch 1000
    let cfg = config(1, 5, 5);
    let (mut st, mut ck) = fresh(&cfg, 1000);
    // a few seconds in, a snapshot reports focusing
    let out = tick(&cfg, &mut st, &mut ck, &Vec::new(), 1003);
    assert_eq!(out.decision, TickDecision::Running);
    assert!(out.status.unwrap().contains("focusing"));
    // past the focus span, a snapshot reports resting
    let out = tick(&cfg, &mut st, &mut ck, &Vec::new(), 1007);
    assert_eq!(out.decision, TickDecision::Running);
    assert!(out.status.unwrap().contains("resting"));
    // after about ten seconds the session is finished and no further
    // status is published
    let out = tick(&cfg, &mut st, &mut ck, &Vec::new(), 1010);
    assert_eq!(out.decision, TickDecision::Finished);
    assert!(out.status.is_none());
}

#[test]
fn zero_iterations_is_rejected() {
    let cfg = config(0, 1500, 300);
    match start_session(&cfg, 0) {
        Err(e) => assert_eq!(e, ConfigError::ZeroIterations),
        Ok(_) => panic!("expected a configuration error"),
    }
}

#[test]
fn zero_cycle_is_rejected() {
    let cfg = config(1, 0, 0);
    match start_session(&cfg, 0) {
        Err(e) => assert_eq!(e, ConfigError::ZeroCycle),
        Ok(_) => panic!("expected a configuration error"),
    }
}

#[test]
fn overlong_cycle_is_rejected() {
    let cfg = config(1, u64::MAX, 1);
    match start_session(&cfg, 0) {
        Err(e) => assert_eq!(e, ConfigError::CycleTooLong),
        Ok(_) => panic!("expected a configuration error"),
    }
}

#[test]
fn stopped_tick_publishes_a_final_status() {
    let cfg = config(4, 90, 30);
    let (mut st, mut ck) = fresh(&cfg, 1000);
    tick(&cfg, &mut st, &mut ck, &Vec::new(), 1000);
    let signals = vec![ControlSignal::Stop];
    let out = tick(&cfg, &mut st, &mut ck, &signals, 1020);
    assert_eq!(out.decision, TickDecision::Stopped);
    assert!(out.status.unwrap().contains("focusing"));
    assert!(out.notification.is_none());
}
