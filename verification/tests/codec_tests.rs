use comodoro::codec::{control_byte, decode_command, encode_kill, encode_start, signal_of_byte, Command};
use comodoro::errors::FramingError;
use comodoro::session::{ControlSignal, SessionConfig};

fn sample_config() -> SessionConfig {
    SessionConfig {
        iterations: 4,
        focus: 1500,
        rest: 300,
        popup_notification: true,
        sound_notification: true,
        focus_banner: b"Focus #".to_vec(),
        rest_banner: b"Rest #".to_vec(),
        focus_audio_path: b"/tmp/focus.wav".to_vec(),
        rest_audio_path: b"/tmp/rest.wav".to_vec(),
    }
}

fn expect_err(bytes: &Vec<u8>, want: FramingError) {
    match decode_command(bytes) {
        Err(e) => assert_eq!(e, want),
        Ok(_) => panic!("expected a framing error"),
    }
}

fn assert_config_eq(a: &SessionConfig, b: &SessionConfig) {
    assert_eq!(a.iterations, b.iterations);
    assert_eq!(a.focus, b.focus);
    assert_eq!(a.rest, b.rest);
    assert_eq!(a.popup_notification, b.popup_notification);
    assert_eq!(a.sound_notification, b.sound_notification);
    assert_eq!(a.focus_banner, b.focus_banner);
    assert_eq!(a.rest_banner, b.rest_banner);
    assert_eq!(a.focus_audio_path, b.focus_audio_path);
    assert_eq!(a.rest_audio_path, b.rest_audio_path);
}

#[test]
fn round_trip_full() {
    let cfg = sample_config();
    let bytes = encode_start(&cfg, 1_700_000_000);
    match decode_command(&bytes) {
        Ok(Command::Start(decoded, launch)) => {
            assert_eq!(launch, 1_700_000_000);
            assert_config_eq(&decoded, &cfg);
        }
        other => panic!("expected a start command, got {:?}", other.is_ok()),
    }
}

#[test]
fn round_trip_empty_strings() {
    let cfg = SessionConfig {
        iterations: 1,
        focus: 0,
        rest: 1,
        popup_notification: false,
        sound_notification: false,
        focus_banner: Vec::new(),
        rest_banner: Vec::new(),
        focus_audio_path: Vec::new(),
        rest_audio_path: Vec::new(),
    };
    let bytes = encode_start(&cfg, 0);
    assert_eq!(bytes.len(), 60);
    match decode_command(&bytes) {
        Ok(Command::Start(decoded, launch)) => {
            assert_eq!(launch, 0);
            assert_config_eq(&decoded, &cfg);
        }
        _ => panic!("expected a start command"),
    }
}

#[test]
fn encode_layout_exact() {
    let cfg = SessionConfig {
        iterations: 2,
        focus: 5,
        rest: 261,
        popup_notification: true,
        sound_notification: false,
        focus_banner: b"ab".to_vec(),
        rest_banner: b"c".to_vec(),
        focus_audio_path: Vec::new(),
        rest_audio_path: b"d".to_vec(),
    };
    let bytes = encode_start(&cfg, 0x0102030405060708);
    let mut expected: Vec<u8> = Vec::new();
    expected.push(0); // start tag
    expected.extend_from_slice(&[0, 0, 0, 0, 0, 0, 0, 5]); // focus
    expected.extend_from_slice(&[0, 0, 0, 0, 0, 0, 1, 5]); // rest = 261
    expected.push(2); // iterations
    expected.extend_from_slice(&[1, 2, 3, 4, 5, 6, 7, 8]); // launch
    expected.push(1); // popup
    expected.push(0); // sound
    expected.extend_from_slice(&[0, 0, 0, 0, 0, 0, 0, 2]); // focus banner len
    expected.extend_from_slice(&[0, 0, 0, 0, 0, 0, 0, 1]); // rest banner len
    expected.extend_from_slice(&[0, 0, 0, 0, 0, 0, 0, 0]); // focus path len
    expected.extend_from_slice(&[0, 0, 0, 0, 0, 0, 0, 1]); // rest path len
    expected.extend_from_slice(b"ab");
    expected.extend_from_slice(b"c");
    expected.extend_from_slice(b"d");
    assert_eq!(bytes, expected);
}

#[test]
fn kill_frame() {
    let bytes = encode_kill();
    assert_eq!(bytes, vec![4u8]);
    match decode_command(&bytes) {
        Ok(Command::Kill) => {}
        _ => panic!("expected a kill command"),
    }
}

#[test]
fn decode_empty_is_truncated() {
    let bytes: Vec<u8> = Vec::new();
    expect_err(&bytes, FramingError::Truncated);
}

#[test]
fn decode_short_header_is_truncated() {
    let mut bytes = vec![0u8];
    bytes.extend_from_slice(&[0u8; 58]); // 59 bytes in all, one short of a header
    assert_eq!(bytes.len(), 59);
    expect_err(&bytes, FramingError::Truncated);
}

#[test]
fn decode_unknown_tag() {
    let bytes = vec![7u8];
    expect_err(&bytes, FramingError::BadTag);
}

#[test]
fn malformed_lengths_then_next_command() {
    // a frame whose declared banner length overruns the trailing run
    let cfg = sample_config();
    let mut bytes = encode_start(&cfg, 42);
    // focus banner length field starts at offset 28; inflate it
    bytes[35] = bytes[35].wrapping_add(1);
    expect_err(&bytes, FramingError::LengthMismatch);
    // the decoder is unharmed: the next well-formed command still decodes
    let good = encode_start(&cfg, 42);
    match decode_command(&good) {
        Ok(Command::Start(decoded, launch)) => {
            assert_eq!(launch, 42);
            assert_config_eq(&decoded, &cfg);
        }
        _ => panic!("expected a start command"),
    }
}

#[test]
fn lengths_must_sum_exactly() {
    // a trailing run longer than the declared lengths also fails
    let cfg = sample_config();
    let mut bytes = encode_start(&cfg, 7);
    bytes.push(0);
    expect_err(&bytes, FramingError::LengthMismatch);
}

#[test]
fn control_byte_mapping() {
    assert_eq!(signal_of_byte(1), Some(ControlSignal::Pause));
    assert_eq!(signal_of_byte(2), Some(ControlSignal::Resume));
    assert_eq!(signal_of_byte(3), Some(ControlSignal::Stop));
    assert_eq!(signal_of_byte(0), None);
    assert_eq!(signal_of_byte(9), None);
    assert_eq!(control_byte(ControlSignal::Pause), 1);
    assert_eq!(control_byte(ControlSignal::Resume), 2);
    assert_eq!(control_byte(ControlSignal::Stop), 3);
    assert_eq!(control_byte(ControlSignal::Kill), 4);
    assert_eq!(control_byte(ControlSignal::Start), 0);
}
