//! The wire codec: the framed start-session payload that launches a
//! run, the kill tag, and the single control bytes that steer a run.
//!
//! A start frame is, in order: a zero tag byte; focus seconds, rest
//! seconds (8 bytes each, big-endian); the iteration count (1 byte);
//! the launch instant in epoch seconds (8 bytes); the popup and sound
//! flags (1 byte each); the byte lengths of the focus banner, rest
//! banner, focus audio path and rest audio path (8 bytes each); then
//! those four byte runs back to back. The four lengths must sum to
//! exactly the trailing run.

use vstd::prelude::*;
use vstd::slice::{slice_subrange, slice_to_vec};

use crate::errors::FramingError;
use crate::session::{ControlSignal, SessionConfig, SessionModel};

verus! {

/// The eight bytes of a second counter, most significant first.
pub open spec fn spec_be64(x: u64) -> Seq<u8> {
    seq![
        ((x >> 56) & 0xff) as u8,
        ((x >> 48) & 0xff) as u8,
        ((x >> 40) & 0xff) as u8,
        ((x >> 32) & 0xff) as u8,
        ((x >> 24) & 0xff) as u8,
        ((x >> 16) & 0xff) as u8,
        ((x >> 8) & 0xff) as u8,
        (x & 0xff) as u8,
    ]
}

/// The value eight big-endian bytes spell.
pub open spec fn spec_u64_of_be(s: Seq<u8>) -> u64
    recommends
        s.len() == 8,
{
    ((s[0] as u64) << 56) | ((s[1] as u64) << 48) | ((s[2] as u64) << 40) | ((s[3] as u64) << 32)
        | ((s[4] as u64) << 24) | ((s[5] as u64) << 16) | ((s[6] as u64) << 8) | (s[7] as u64)
}

/// Writing a second counter big-endian and reading it back yields the
/// counter.
pub proof fn lemma_be64_roundtrip(x: u64)
    ensures
        spec_u64_of_be(spec_be64(x)) == x,
{
    assert(((((x >> 56) & 0xff) as u8 as u64) << 56) | ((((x >> 48) & 0xff) as u8 as u64) << 48)
        | ((((x >> 40) & 0xff) as u8 as u64) << 40) | ((((x >> 32) & 0xff) as u8 as u64) << 32) | ((((x
        >> 24) & 0xff) as u8 as u64) << 24) | ((((x >> 16) & 0xff) as u8 as u64) << 16) | ((((x >> 8)
        & 0xff) as u8 as u64) << 8) | (((x & 0xff) as u8) as u64) == x) by (bit_vector);
}

/// One byte of a second counter, eight bits at a time.
fn byte_of(x: u64, sh: u64) -> (b: u8)
    requires
        sh < 64,
    ensures
        b == ((x >> sh) & 0xff) as u8,
{
    let v = (x >> sh) & 0xff;
    assert((x >> sh) & 0xff < 256) by (bit_vector);
    v as u8
}

/// Appends the eight big-endian bytes of `x`.
fn append_be64(out: &mut Vec<u8>, x: u64)
    ensures
        final(out)@ == old(out)@ + spec_be64(x),
{
    out.push(byte_of(x, 56));
    out.push(byte_of(x, 48));
    out.push(byte_of(x, 40));
    out.push(byte_of(x, 32));
    out.push(byte_of(x, 24));
    out.push(byte_of(x, 16));
    out.push(byte_of(x, 8));
    out.push(byte_of(x, 0));
    assert(final(out)@ =~= old(out)@ + spec_be64(x)) by {
        assert(x >> 0 == x) by (bit_vector);
    }
}

/// Reads the eight big-endian bytes at `off` as a second counter.
fn read_be64(bytes: &Vec<u8>, off: usize) -> (x: u64)
    requires
        off + 8 <= bytes@.len(),
    ensures
        x == spec_u64_of_be(bytes@.subrange(off as int, off as int + 8)),
{
    let n = bytes.len();
    assert(off + 8 <= n);
    let x = ((bytes[off] as u64) << 56) | ((bytes[off + 1] as u64) << 48) | ((bytes[off + 2] as u64)
        << 40) | ((bytes[off + 3] as u64) << 32) | ((bytes[off + 4] as u64) << 24) | ((bytes[off
        + 5] as u64) << 16) | ((bytes[off + 6] as u64) << 8) | (bytes[off + 7] as u64);
    proof {
        let s = bytes@.subrange(off as int, off as int + 8);
        assert(s[0] == bytes@[off as int]);
        assert(s[1] == bytes@[off as int + 1]);
        assert(s[2] == bytes@[off as int + 2]);
        assert(s[3] == bytes@[off as int + 3]);
        assert(s[4] == bytes@[off as int + 4]);
        assert(s[5] == bytes@[off as int + 5]);
        assert(s[6] == bytes@[off as int + 6]);
        assert(s[7] == bytes@[off as int + 7]);
    }
    x
}

/// A flag byte: one for set, zero for clear.
pub open spec fn spec_flag(b: bool) -> u8 {
    if b {
        1
    } else {
        0
    }
}

/// The bytes of a start frame for this configuration and launch
/// instant.
pub open spec fn spec_encode_start(m: SessionModel, launch: u64) -> Seq<u8> {
    seq![0u8] + spec_be64(m.focus) + spec_be64(m.rest) + seq![m.iterations] + spec_be64(launch)
        + seq![spec_flag(m.popup_notification), spec_flag(m.sound_notification)] + spec_be64(
        m.focus_banner.len() as u64,
    ) + spec_be64(m.rest_banner.len() as u64) + spec_be64(m.focus_audio_path.len() as u64)
        + spec_be64(m.rest_audio_path.len() as u64) + m.focus_banner + m.rest_banner
        + m.focus_audio_path + m.rest_audio_path
}

/// A configuration whose string lengths the wire's length fields can
/// carry.
pub open spec fn wire_encodable(m: SessionModel) -> bool {
    &&& m.focus_banner.len() <= u64::MAX
    &&& m.rest_banner.len() <= u64::MAX
    &&& m.focus_audio_path.len() <= u64::MAX
    &&& m.rest_audio_path.len() <= u64::MAX
}

/// Encodes a start frame, exactly as `spec_encode_start` lays it out.
pub fn encode_start(cfg: &SessionConfig, launch: u64) -> (r: Vec<u8>)
    ensures
        r@ == spec_encode_start(cfg@, launch),
{
    let mut out: Vec<u8> = Vec::new();
    out.push(0);
    append_be64(&mut out, cfg.focus);
    append_be64(&mut out, cfg.rest);
    out.push(cfg.iterations);
    append_be64(&mut out, launch);
    out.push(if cfg.popup_notification { 1 } else { 0 });
    out.push(if cfg.sound_notification { 1 } else { 0 });
    append_be64(&mut out, cfg.focus_banner.len() as u64);
    append_be64(&mut out, cfg.rest_banner.len() as u64);
    append_be64(&mut out, cfg.focus_audio_path.len() as u64);
    append_be64(&mut out, cfg.rest_audio_path.len() as u64);
    out.extend_from_slice(cfg.focus_banner.as_slice());
    out.extend_from_slice(cfg.rest_banner.as_slice());
    out.extend_from_slice(cfg.focus_audio_path.as_slice());
    out.extend_from_slice(cfg.rest_audio_path.as_slice());
    assert(out@ =~= spec_encode_start(cfg@, launch));
    out
}

/// The one-byte kill message for the command endpoint.
pub fn encode_kill() -> (r: Vec<u8>)
    ensures
        r@ == seq![4u8],
{
    let mut out: Vec<u8> = Vec::new();
    out.push(4);
    assert(out@ =~= seq![4u8]);
    out
}

/// A message of the command endpoint: kill the daemon, or start a
/// session with a configuration and the client's launch instant.
pub enum Command {
    Kill,
    Start(SessionConfig, u64),
}

/// The mathematical image of a `Command`.
pub ghost enum CommandModel {
    Kill,
    Start(SessionModel, u64),
}

impl View for Command {
    type V = CommandModel;

    open spec fn view(&self) -> CommandModel {
        match self {
            Command::Kill => CommandModel::Kill,
            Command::Start(cfg, launch) => CommandModel::Start(cfg@, *launch),
        }
    }
}

/// What a command message's bytes mean, field by field in wire order.
///
/// An empty message or one cut short in a fixed-width field is
/// truncated; a first byte that is neither the start nor the kill tag
/// names no message; declared string lengths that do not sum to the
/// trailing byte run are a length mismatch. A flag byte is set exactly
/// when it is non-zero.
pub open spec fn spec_decode_command(s: Seq<u8>) -> Result<CommandModel, FramingError> {
    if s.len() == 0 {
        Err(FramingError::Truncated)
    } else if s[0] == 4 {
        Ok(CommandModel::Kill)
    } else if s[0] != 0 {
        Err(FramingError::BadTag)
    } else if s.len() < 60 {
        Err(FramingError::Truncated)
    } else {
        let fbl = spec_u64_of_be(s.subrange(28, 36)) as int;
        let rbl = spec_u64_of_be(s.subrange(36, 44)) as int;
        let fpl = spec_u64_of_be(s.subrange(44, 52)) as int;
        let rpl = spec_u64_of_be(s.subrange(52, 60)) as int;
        if fbl + rbl + fpl + rpl != s.len() - 60 {
            Err(FramingError::LengthMismatch)
        } else {
            Ok(
                CommandModel::Start(
                    SessionModel {
                        iterations: s[17],
                        focus: spec_u64_of_be(s.subrange(1, 9)),
                        rest: spec_u64_of_be(s.subrange(9, 17)),
                        popup_notification: s[26] != 0,
                        sound_notification: s[27] != 0,
                        focus_banner: s.subrange(60, 60 + fbl),
                        rest_banner: s.subrange(60 + fbl, 60 + fbl + rbl),
                        focus_audio_path: s.subrange(60 + fbl + rbl, 60 + fbl + rbl + fpl),
                        rest_audio_path: s.subrange(60 + fbl + rbl + fpl, s.len() as int),
                    },
                    spec_u64_of_be(s.subrange(18, 26)),
                ),
            )
        }
    }
}

/// Decodes a command message, exactly as `spec_decode_command` states:
/// the result, success or failure, is what the bytes mean.
pub fn decode_command(bytes: &Vec<u8>) -> (r: Result<Command, FramingError>)
    ensures
        match r {
            Ok(c) => spec_decode_command(bytes@) == Ok::<CommandModel, FramingError>(c@),
            Err(e) => spec_decode_command(bytes@) == Err::<CommandModel, FramingError>(e),
        },
{
    if bytes.len() == 0 {
        return Err(FramingError::Truncated);
    }
    if bytes[0] == 4 {
        return Ok(Command::Kill);
    }
    if bytes[0] != 0 {
        return Err(FramingError::BadTag);
    }
    if bytes.len() < 60 {
        return Err(FramingError::Truncated);
    }
    let focus = read_be64(bytes, 1);
    let rest = read_be64(bytes, 9);
    let iterations = bytes[17];
    let launch = read_be64(bytes, 18);
    let popup_notification = bytes[26] != 0;
    let sound_notification = bytes[27] != 0;
    let fbl = read_be64(bytes, 28);
    let rbl = read_be64(bytes, 36);
    let fpl = read_be64(bytes, 44);
    let rpl = read_be64(bytes, 52);
    let trailing = bytes.len() - 60;
    let total = match fbl.checked_add(rbl) {
        Some(s1) => match s1.checked_add(fpl) {
            Some(s2) => match s2.checked_add(rpl) {
                Some(s3) => s3,
                None => {
                    return Err(FramingError::LengthMismatch);
                },
            },
            None => {
                return Err(FramingError::LengthMismatch);
            },
        },
        None => {
            return Err(FramingError::LengthMismatch);
        },
    };
    if total != trailing as u64 {
        return Err(FramingError::LengthMismatch);
    }
    let fbl_us = fbl as usize;
    let rbl_us = rbl as usize;
    let fpl_us = fpl as usize;
    let rpl_us = rpl as usize;
    let off1 = 60 + fbl_us;
    let off2 = off1 + rbl_us;
    let off3 = off2 + fpl_us;
    let focus_banner = slice_to_vec(slice_subrange(bytes.as_slice(), 60, off1));
    let rest_banner = slice_to_vec(slice_subrange(bytes.as_slice(), off1, off2));
    let focus_audio_path = slice_to_vec(slice_subrange(bytes.as_slice(), off2, off3));
    let rest_audio_path = slice_to_vec(slice_subrange(bytes.as_slice(), off3, bytes.len()));
    let cfg = SessionConfig {
        iterations,
        focus,
        rest,
        popup_notification,
        sound_notification,
        focus_banner,
        rest_banner,
        focus_audio_path,
        rest_audio_path,
    };
    Ok(Command::Start(cfg, launch))
}

/// Encoding a session start and decoding it yields the same
/// configuration and launch instant, empty banners and paths included.
pub proof fn lemma_start_round_trip(m: SessionModel, launch: u64)
    requires
        wire_encodable(m),
    ensures
        spec_decode_command(spec_encode_start(m, launch)) == Ok::<CommandModel, FramingError>(
            CommandModel::Start(m, launch),
        ),
{
    let s = spec_encode_start(m, launch);
    let fbl = m.focus_banner.len() as int;
    let rbl = m.rest_banner.len() as int;
    let fpl = m.focus_audio_path.len() as int;
    let rpl = m.rest_audio_path.len() as int;
    assert(s.len() == 60 + fbl + rbl + fpl + rpl);
    assert(s[0] == 0);
    assert(s.subrange(1, 9) =~= spec_be64(m.focus));
    assert(s.subrange(9, 17) =~= spec_be64(m.rest));
    assert(s[17] == m.iterations);
    assert(s.subrange(18, 26) =~= spec_be64(launch));
    assert(s[26] == spec_flag(m.popup_notification));
    assert(s[27] == spec_flag(m.sound_notification));
    assert(s.subrange(28, 36) =~= spec_be64(m.focus_banner.len() as u64));
    assert(s.subrange(36, 44) =~= spec_be64(m.rest_banner.len() as u64));
    assert(s.subrange(44, 52) =~= spec_be64(m.focus_audio_path.len() as u64));
    assert(s.subrange(52, 60) =~= spec_be64(m.rest_audio_path.len() as u64));
    lemma_be64_roundtrip(m.focus);
    lemma_be64_roundtrip(m.rest);
    lemma_be64_roundtrip(launch);
    lemma_be64_roundtrip(m.focus_banner.len() as u64);
    lemma_be64_roundtrip(m.rest_banner.len() as u64);
    lemma_be64_roundtrip(m.focus_audio_path.len() as u64);
    lemma_be64_roundtrip(m.rest_audio_path.len() as u64);
    assert(s.subrange(60, 60 + fbl) =~= m.focus_banner);
    assert(s.subrange(60 + fbl, 60 + fbl + rbl) =~= m.rest_banner);
    assert(s.subrange(60 + fbl + rbl, 60 + fbl + rbl + fpl) =~= m.focus_audio_path);
    assert(s.subrange(60 + fbl + rbl + fpl, s.len() as int) =~= m.rest_audio_path);
    let decoded = spec_decode_command(s);
    assert(decoded matches Ok(c) && c == CommandModel::Start(m, launch)) by {
        assert(spec_u64_of_be(s.subrange(28, 36)) == m.focus_banner.len());
        assert(spec_u64_of_be(s.subrange(36, 44)) == m.rest_banner.len());
        assert(spec_u64_of_be(s.subrange(44, 52)) == m.focus_audio_path.len());
        assert(spec_u64_of_be(s.subrange(52, 60)) == m.rest_audio_path.len());
        assert((s[26] != 0) == m.popup_notification);
        assert((s[27] != 0) == m.sound_notification);
    }
}

/// What a control endpoint byte means: pause, resume or stop; any
/// other byte means nothing and is ignored.
pub open spec fn spec_signal_of_byte(b: u8) -> Option<ControlSignal> {
    if b == 1 {
        Some(ControlSignal::Pause)
    } else if b == 2 {
        Some(ControlSignal::Resume)
    } else if b == 3 {
        Some(ControlSignal::Stop)
    } else {
        None
    }
}

/// Maps a control endpoint byte to its signal, exactly as
/// `spec_signal_of_byte` states.
pub fn signal_of_byte(b: u8) -> (r: Option<ControlSignal>)
    ensures
        r == spec_signal_of_byte(b),
{
    match b {
        1 => Some(ControlSignal::Pause),
        2 => Some(ControlSignal::Resume),
        3 => Some(ControlSignal::Stop),
        _ => None,
    }
}

/// The byte a client sends for each signal.
pub open spec fn spec_control_byte(sig: ControlSignal) -> u8 {
    match sig {
        ControlSignal::Start => 0,
        ControlSignal::Pause => 1,
        ControlSignal::Resume => 2,
        ControlSignal::Stop => 3,
        ControlSignal::Kill => 4,
    }
}

/// The byte a client sends for a signal; for the three control-channel
/// signals the daemon reads it back as the same signal.
pub fn control_byte(sig: ControlSignal) -> (b: u8)
    ensures
        b == spec_control_byte(sig),
        sig is Pause || sig is Resume || sig is Stop ==> spec_signal_of_byte(b) == Some(sig),
{
    match sig {
        ControlSignal::Start => 0,
        ControlSignal::Pause => 1,
        ControlSignal::Resume => 2,
        ControlSignal::Stop => 3,
        ControlSignal::Kill => 4,
    }
}

} // verus!
