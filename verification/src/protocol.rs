//! Shared BLE binary protocol for the micro:bit firmware and the web frontend.
//!
//! Frame format:
//! ```text
//! | SOF 0xAA | CMD 1B | LEN 1B | PAYLOAD 0..N bytes | CRC8 1B |
//! ```
//! - SOF: frame start 0xAA
//! - CMD: command code (see the `CMD_*` constants)
//! - LEN: payload length (0..=MAX_PAYLOAD)
//! - CRC8: polynomial 0x07, initial value 0x00, covers CMD + LEN + PAYLOAD
use crate::text::{decimal_text, hex_text, push_decimal, push_hex_pair};
use vstd::prelude::*;
use vstd::string::StringExecFns;

verus! {

// ===== Nordic UART Service (NUS) UUID =====
/// NUS Service UUID
pub const NUS_SERVICE: &'static str = "6e400001-b5a3-f393-e0a9-e50e24dcca9e";

/// NUS RX Characteristic UUID (Write: Browser -> Board)
pub const NUS_RX_CHAR: &'static str = "6e400002-b5a3-f393-e0a9-e50e24dcca9e";

/// NUS TX Characteristic UUID (Notify: Board -> Browser)
pub const NUS_TX_CHAR: &'static str = "6e400003-b5a3-f393-e0a9-e50e24dcca9e";

// ===== Frame constants =====
/// Frame start byte
pub const SOF: u8 = 0xAA;

/// Maximum payload length per frame (limited by ATT MTU, with margin)
pub const MAX_PAYLOAD: usize = 60;

/// Maximum total frame length = SOF(1) + CMD(1) + LEN(1) + PAYLOAD + CRC(1)
pub const MAX_FRAME_LEN: usize = 4 + MAX_PAYLOAD;

// ===== Command code constants =====
/// Ping request (no payload)
pub const CMD_PING: u8 = 0x01;

/// LED matrix set (payload: 25 bytes brightness, 0=off 1=on)
pub const CMD_LED_SET: u8 = 0x02;

/// LED clear (no payload)
pub const CMD_LED_CLEAR: u8 = 0x03;

/// Display a character (payload: 1 byte ASCII)
pub const CMD_LED_CHAR: u8 = 0x04;

/// Read chip temperature (no payload, responds with `CMD_TEMP_RESP`)
pub const CMD_TEMP_GET: u8 = 0x05;

/// Subscribe to button events (payload: 1 byte, 0=unsubscribe 1=subscribe)
pub const CMD_BTN_SUBSCRIBE: u8 = 0x06;

/// Echo (payload: arbitrary bytes, responds with `CMD_ECHO_RESP`)
pub const CMD_ECHO: u8 = 0x07;

/// Play a tone (payload: 2 bytes frequency LE + 2 bytes duration_ms LE)
pub const CMD_SOUND_PLAY: u8 = 0x08;

/// Stop playing tone (no payload)
pub const CMD_SOUND_STOP: u8 = 0x09;

/// Subscribe/unsubscribe accelerometer data (payload: 1 byte)
pub const CMD_ACCEL_SUBSCRIBE: u8 = 0x0A;

/// Subscribe/unsubscribe magnetometer data (payload: 1 byte)
pub const CMD_MAGNET_SUBSCRIBE: u8 = 0x0B;

/// Set LED brightness (payload: 25 bytes, each 0..255 grayscale)
pub const CMD_LED_BRIGHTNESS: u8 = 0x0C;

/// Scroll text on LED matrix (payload: ASCII string bytes)
pub const CMD_LED_SCROLL: u8 = 0x0D;

/// Subscribe/unsubscribe touch sensor events (payload: 1 byte)
pub const CMD_TOUCH_SUBSCRIBE: u8 = 0x0E;

/// Ping response (no payload)
pub const CMD_PONG: u8 = 0x81;

/// LED operation acknowledgement (payload: 1 byte status, 0=OK)
pub const CMD_LED_ACK: u8 = 0x82;

/// Temperature response (payload: 4 bytes i32 LE, unit 0.01 degC)
pub const CMD_TEMP_RESP: u8 = 0x85;

/// Echo response (payload: same as request)
pub const CMD_ECHO_RESP: u8 = 0x87;

/// Button event notification (payload: [btn_id, state], A=1 B=2)
pub const CMD_BTN_EVENT: u8 = 0x90;

/// Accelerometer data notification (payload: 3x i16 LE, unit 0.01g)
pub const CMD_ACCEL_DATA: u8 = 0x8A;

/// Magnetometer data notification (payload: 3x i16 LE, unit 0.1uT)
pub const CMD_MAGNET_DATA: u8 = 0x8B;

/// Sound operation acknowledgement (payload: 1 byte status, 0=OK)
pub const CMD_SOUND_ACK: u8 = 0x88;

/// LED brightness acknowledgement (payload: 1 byte status, 0=OK)
pub const CMD_LED_BRIGHTNESS_ACK: u8 = 0x8C;

/// LED scroll acknowledgement (payload: 1 byte status, 0=OK)
pub const CMD_LED_SCROLL_ACK: u8 = 0x8D;

/// Touch sensor event notification (payload: [touch_id, state])
pub const CMD_TOUCH_EVENT: u8 = 0x91;

/// Error response (payload: 1 byte error code)
pub const CMD_ERROR: u8 = 0xFF;

// ===== Error codes =====
pub const ERR_BAD_FRAME: u8 = 0x01;

pub const ERR_BAD_CRC: u8 = 0x02;

pub const ERR_UNKNOWN_CMD: u8 = 0x03;

pub const ERR_BAD_PAYLOAD: u8 = 0x04;

// ===== CRC-8 =====
/// One shift of the CRC-8 register (polynomial 0x07).
pub open spec fn crc_shift(c: u8) -> u8 {
    if c & 0x80 != 0 {
        (c << 1u8) ^ 0x07u8
    } else {
        c << 1u8
    }
}

/// `n` shifts of the CRC-8 register.
pub open spec fn crc_shifts(c: u8, n: nat) -> u8
    decreases n,
{
    if n == 0 {
        c
    } else {
        crc_shift(crc_shifts(c, (n - 1) as nat))
    }
}

/// Feeding one byte into the CRC-8 register.
pub open spec fn crc_update(crc: u8, b: u8) -> u8 {
    crc_shifts(crc ^ b, 8)
}

/// CRC-8 (polynomial 0x07, initial value 0x00) of a byte sequence.
pub open spec fn spec_crc8(data: Seq<u8>) -> u8
    decreases data.len(),
{
    if data.len() == 0 {
        0
    } else {
        crc_update(spec_crc8(data.drop_last()), data.last())
    }
}

/// Feed one byte into a CRC-8 register.
fn crc8_update(crc: u8, b: u8) -> (out: u8)
    ensures
        out == crc_update(crc, b),
{
    let mut c: u8 = crc ^ b;
    let mut i: u32 = 0;
    while i < 8
        invariant
            i <= 8,
            c == crc_shifts(crc ^ b, i as nat),
        decreases 8 - i,
    {
        if c & 0x80 != 0 {
            c = (c << 1u8) ^ 0x07;
        } else {
            c = c << 1u8;
        }
        i += 1;
    }
    c
}

/// Continue a CRC-8 computation over `prefix` with the bytes of `data`.
fn crc8_continue(crc: u8, data: &[u8], Ghost(prefix): Ghost<Seq<u8>>) -> (out: u8)
    requires
        crc == spec_crc8(prefix),
    ensures
        out == spec_crc8(prefix + data@),
{
    let mut crc: u8 = crc;
    let mut i: usize = 0;
    while i < data.len()
        invariant
            i <= data@.len(),
            crc == spec_crc8(prefix + data@.subrange(0, i as int)),
        decreases data@.len() - i,
    {
        proof {
            assert((prefix + data@.subrange(0, i + 1)).drop_last() =~= prefix + data@.subrange(
                0,
                i as int,
            ));
        }
        crc = crc8_update(crc, data[i]);
        i += 1;
    }
    proof {
        assert(data@.subrange(0, data@.len() as int) =~= data@);
    }
    crc
}

/// Calculate CRC-8 (polynomial 0x07, initial value 0x00)
pub fn crc8(data: &[u8]) -> (crc: u8)
    ensures
        crc == spec_crc8(data@),
{
    proof {
        assert(Seq::<u8>::empty() + data@ =~= data@);
    }
    let ghost empty = Seq::<u8>::empty();
    crc8_continue(0, data, Ghost(empty))
}

/// Calculate CRC8 over cmd + len + payload (the length byte is the payload
/// length modulo 256)
fn crc8_for_frame(cmd: u8, payload: &[u8]) -> (crc: u8)
    ensures
        crc == spec_crc8(seq![cmd, (payload@.len() % 256) as u8] + payload@),
{
    let len: u8 = (payload.len() % 256) as u8;
    let c0 = crc8_update(0, cmd);
    proof {
        assert(seq![cmd].drop_last() =~= Seq::<u8>::empty());
        assert(spec_crc8(Seq::<u8>::empty()) == 0);
        assert(seq![cmd].last() == cmd);
        assert(spec_crc8(seq![cmd]) == c0);
    }
    let c1 = crc8_update(c0, len);
    proof {
        assert(seq![cmd, len].drop_last() =~= seq![cmd]);
        assert(seq![cmd, len].last() == len);
        assert(spec_crc8(seq![cmd, len]) == c1);
    }
    let ghost header = seq![cmd, len];
    crc8_continue(c1, payload, Ghost(header))
}

// ===== Frames =====
/// The encoding of one frame: SOF, CMD, LEN, PAYLOAD, CRC8 over CMD + LEN + PAYLOAD.
pub open spec fn frame_bytes(cmd: u8, payload: Seq<u8>) -> Seq<u8> {
    seq![SOF, cmd, payload.len() as u8] + payload + seq![
        spec_crc8(seq![cmd, payload.len() as u8] + payload),
    ]
}

/// Parsed command frame (zero-copy reference to payload)
#[derive(Debug, Clone, Copy, PartialEq, Eq)]
pub struct Frame<'a> {
    pub cmd: u8,
    pub payload: &'a [u8],
}

/// Frame parse error
#[derive(Debug, Clone, Copy, PartialEq, Eq)]
pub enum ParseError {
    /// Frame too short to form a complete frame
    TooShort,
    /// Incorrect frame start byte
    BadSof,
    /// Length field exceeds MAX_PAYLOAD
    PayloadTooLong,
    /// CRC check failed
    BadCrc,
}

/// What `parse_frame` decides on a buffer: the command and payload of the frame
/// at its start (bytes after the frame are ignored), or the first check that fails.
pub open spec fn parse_result(buf: Seq<u8>) -> Result<(u8, Seq<u8>), ParseError> {
    if buf.len() < 4 {
        Err(ParseError::TooShort)
    } else if buf[0] != SOF {
        Err(ParseError::BadSof)
    } else if buf[2] > MAX_PAYLOAD {
        Err(ParseError::PayloadTooLong)
    } else if buf.len() < 4 + buf[2] {
        Err(ParseError::TooShort)
    } else if buf[3 + buf[2]] != spec_crc8(buf.subrange(1, 3 + buf[2])) {
        Err(ParseError::BadCrc)
    } else {
        Ok((buf[1], buf.subrange(3, 3 + buf[2])))
    }
}

/// Parse one frame. Returns `Frame` on success, `ParseError` on failure.
///
/// This is a zero-copy version that borrows from the input buffer.
pub fn parse_frame(buf: &[u8]) -> (r: Result<Frame<'_>, ParseError>)
    ensures
        match r {
            Ok(f) => parse_result(buf@) == Ok::<(u8, Seq<u8>), ParseError>((f.cmd, f.payload@)),
            Err(e) => parse_result(buf@) == Err::<(u8, Seq<u8>), ParseError>(e),
        },
{
    if buf.len() < 4 {
        return Err(ParseError::TooShort);
    }
    if buf[0] != SOF {
        return Err(ParseError::BadSof);
    }
    let cmd = buf[1];
    let len = buf[2] as usize;
    if len > MAX_PAYLOAD {
        return Err(ParseError::PayloadTooLong);
    }
    let total = 4 + len;
    if buf.len() < total {
        return Err(ParseError::TooShort);
    }
    let payload = &buf[3..3 + len];
    let received_crc = buf[3 + len];
    let calculated_crc = crc8_for_frame(cmd, payload);
    proof {
        assert(seq![cmd, payload@.len() as u8] + payload@ =~= buf@.subrange(1, 3 + len));
    }
    if received_crc != calculated_crc {
        return Err(ParseError::BadCrc);
    }
    Ok(Frame { cmd, payload })
}

/// Encode one frame into `out` buffer, return number of bytes written.
///
/// Returns `None` if payload is too long or out capacity is insufficient;
/// `out` is then left unchanged. Bytes of `out` after the frame are kept.
pub fn build_frame(cmd: u8, payload: &[u8], out: &mut [u8]) -> (r: Option<usize>)
    ensures
        payload@.len() > MAX_PAYLOAD || old(out)@.len() < 4 + payload@.len() ==> r is None
            && final(out)@ == old(out)@,
        payload@.len() <= MAX_PAYLOAD && old(out)@.len() >= 4 + payload@.len() ==> r == Some(
            (4 + payload@.len()) as usize,
        ) && final(out)@ == frame_bytes(cmd, payload@) + old(out)@.subrange(
            4 + payload@.len() as int,
            old(out)@.len() as int,
        ),
{
    if payload.len() > MAX_PAYLOAD {
        return None;
    }
    let total = 4 + payload.len();
    if out.len() < total {
        return None;
    }
    let ghost old_out = out@;
    out[0] = SOF;
    out[1] = cmd;
    out[2] = payload.len() as u8;
    let mut i: usize = 0;
    while i < payload.len()
        invariant
            i <= payload@.len() <= MAX_PAYLOAD,
            out@.len() == old_out.len() >= 4 + payload@.len(),
            out@[0] == SOF,
            out@[1] == cmd,
            out@[2] == payload@.len() as u8,
            forall|j: int| 0 <= j < i ==> out@[3 + j] == payload@[j],
            forall|j: int| 3 + payload@.len() <= j < out@.len() ==> out@[j] == old_out[j],
        decreases payload@.len() - i,
    {
        out[3 + i] = payload[i];
        i += 1;
    }
    let crc = crc8_for_frame(cmd, payload);
    out[3 + payload.len()] = crc;
    proof {
        assert(out@ =~= frame_bytes(cmd, payload@) + old_out.subrange(
            4 + payload@.len() as int,
            old_out.len() as int,
        ));
    }
    Some(total)
}

// ===== Vec-based APIs =====
/// The error text of `build_frame_vec` for a payload of `len` bytes.
pub open spec fn too_long_message(len: nat) -> Seq<char> {
    "Payload too long: "@ + decimal_text(len) + " > "@ + decimal_text(MAX_PAYLOAD as nat)
}

/// Build a data frame, returning a `Vec<u8>`.
///
/// Returns `Err(String)` if payload is too long.
pub fn build_frame_vec(cmd: u8, payload: &[u8]) -> (r: Result<Vec<u8>, String>)
    ensures
        payload@.len() <= MAX_PAYLOAD <==> r is Ok,
        r matches Ok(frame) ==> frame@ == frame_bytes(cmd, payload@),
        r matches Err(msg) ==> msg@ == too_long_message(payload@.len()),
{
    if payload.len() > MAX_PAYLOAD {
        let mut msg = String::from_str("Payload too long: ");
        push_decimal(&mut msg, payload.len());
        msg.append(" > ");
        push_decimal(&mut msg, MAX_PAYLOAD);
        return Err(msg);
    }
    let len = payload.len() as u8;
    let mut frame: Vec<u8> = Vec::with_capacity(4 + payload.len());
    frame.push(SOF);
    frame.push(cmd);
    frame.push(len);
    push_all(&mut frame, payload);

    // CRC covers CMD + LEN + PAYLOAD
    let mut crc_input: Vec<u8> = Vec::with_capacity(2 + payload.len());
    crc_input.push(cmd);
    crc_input.push(len);
    push_all(&mut crc_input, payload);
    let crc = crc8(crc_input.as_slice());
    frame.push(crc);
    proof {
        assert(crc_input@ =~= seq![cmd, len] + payload@);
        assert(frame@ =~= frame_bytes(cmd, payload@));
    }
    Ok(frame)
}

/// Append all bytes of `data` to `v`.
fn push_all(v: &mut Vec<u8>, data: &[u8])
    ensures
        final(v)@ == old(v)@ + data@,
{
    let mut i: usize = 0;
    while i < data.len()
        invariant
            i <= data@.len(),
            v@ == old(v)@ + data@.subrange(0, i as int),
        decreases data@.len() - i,
    {
        v.push(data[i]);
        i += 1;
        assert(v@ =~= old(v)@ + data@.subrange(0, i as int));
    }
    assert(data@.subrange(0, data@.len() as int) =~= data@);
}

/// What `parse_frame_vec` decides on a buffer. Unlike `parse_result` it does not
/// bound the length field by `MAX_PAYLOAD`.
pub open spec fn parse_vec_result(bytes: Seq<u8>) -> Option<(u8, Seq<u8>)> {
    if bytes.len() < 4 || bytes[0] != SOF || bytes.len() < 4 + bytes[2] {
        None
    } else if spec_crc8(bytes.subrange(1, 3 + bytes[2])) != bytes[3 + bytes[2]] {
        None
    } else {
        Some((bytes[1], bytes.subrange(3, 3 + bytes[2])))
    }
}

/// Parse a received data frame, returning `Some((cmd, payload))` or `None`.
pub fn parse_frame_vec(bytes: &[u8]) -> (r: Option<(u8, Vec<u8>)>)
    ensures
        match r {
            Some((cmd, payload)) => parse_vec_result(bytes@) == Some((cmd, payload@)),
            None => parse_vec_result(bytes@) is None,
        },
{
    if bytes.len() < 4 {
        return None;
    }
    if bytes[0] != SOF {
        return None;
    }
    let cmd = bytes[1];
    let len = bytes[2] as usize;
    if bytes.len() < 4 + len {
        return None;
    }
    let payload = vstd::slice::slice_to_vec(&bytes[3..3 + len]);
    let recv_crc = bytes[3 + len];

    // Recalculate CRC
    let mut crc_input: Vec<u8> = Vec::with_capacity(2 + len);
    crc_input.push(cmd);
    crc_input.push(len as u8);
    push_all(&mut crc_input, payload.as_slice());
    proof {
        assert(crc_input@ =~= bytes@.subrange(1, 3 + len));
    }
    if crc8(crc_input.as_slice()) != recv_crc {
        return None;
    }
    Some((cmd, payload))
}

// ===== Command codes =====
/// Command enum with `TryFrom<u8>` conversion.
#[derive(Clone, Copy, Debug, PartialEq, Eq)]
pub enum Command {
    // Host -> Device
    Ping,
    LedSet,
    LedClear,
    LedChar,
    TempGet,
    BtnSubscribe,
    Echo,
    SoundPlay,
    SoundStop,
    AccelSubscribe,
    MagnetSubscribe,
    LedBrightness,
    LedScroll,
    TouchSubscribe,
    // Device -> Host
    Pong,
    LedAck,
    TempResp,
    SoundAck,
    EchoResp,
    AccelData,
    MagnetData,
    LedBrightnessAck,
    LedScrollAck,
    BtnEvent,
    TouchEvent,
    Error,
}

/// The byte that stands for each command on the wire.
pub open spec fn command_code(c: Command) -> u8 {
    match c {
        Command::Ping => CMD_PING,
        Command::LedSet => CMD_LED_SET,
        Command::LedClear => CMD_LED_CLEAR,
        Command::LedChar => CMD_LED_CHAR,
        Command::TempGet => CMD_TEMP_GET,
        Command::BtnSubscribe => CMD_BTN_SUBSCRIBE,
        Command::Echo => CMD_ECHO,
        Command::SoundPlay => CMD_SOUND_PLAY,
        Command::SoundStop => CMD_SOUND_STOP,
        Command::AccelSubscribe => CMD_ACCEL_SUBSCRIBE,
        Command::MagnetSubscribe => CMD_MAGNET_SUBSCRIBE,
        Command::LedBrightness => CMD_LED_BRIGHTNESS,
        Command::LedScroll => CMD_LED_SCROLL,
        Command::TouchSubscribe => CMD_TOUCH_SUBSCRIBE,
        Command::Pong => CMD_PONG,
        Command::LedAck => CMD_LED_ACK,
        Command::TempResp => CMD_TEMP_RESP,
        Command::SoundAck => CMD_SOUND_ACK,
        Command::EchoResp => CMD_ECHO_RESP,
        Command::AccelData => CMD_ACCEL_DATA,
        Command::MagnetData => CMD_MAGNET_DATA,
        Command::LedBrightnessAck => CMD_LED_BRIGHTNESS_ACK,
        Command::LedScrollAck => CMD_LED_SCROLL_ACK,
        Command::BtnEvent => CMD_BTN_EVENT,
        Command::TouchEvent => CMD_TOUCH_EVENT,
        Command::Error => CMD_ERROR,
    }
}

/// The command a byte stands for, or the error text for an unknown byte.
pub open spec fn command_from_byte(value: u8) -> Result<Command, &'static str> {
    if value == CMD_PING {
        Ok(Command::Ping)
    } else if value == CMD_LED_SET {
        Ok(Command::LedSet)
    } else if value == CMD_LED_CLEAR {
        Ok(Command::LedClear)
    } else if value == CMD_LED_CHAR {
        Ok(Command::LedChar)
    } else if value == CMD_TEMP_GET {
        Ok(Command::TempGet)
    } else if value == CMD_BTN_SUBSCRIBE {
        Ok(Command::BtnSubscribe)
    } else if value == CMD_ECHO {
        Ok(Command::Echo)
    } else if value == CMD_SOUND_PLAY {
        Ok(Command::SoundPlay)
    } else if value == CMD_SOUND_STOP {
        Ok(Command::SoundStop)
    } else if value == CMD_ACCEL_SUBSCRIBE {
        Ok(Command::AccelSubscribe)
    } else if value == CMD_MAGNET_SUBSCRIBE {
        Ok(Command::MagnetSubscribe)
    } else if value == CMD_LED_BRIGHTNESS {
        Ok(Command::LedBrightness)
    } else if value == CMD_LED_SCROLL {
        Ok(Command::LedScroll)
    } else if value == CMD_TOUCH_SUBSCRIBE {
        Ok(Command::TouchSubscribe)
    } else if value == CMD_PONG {
        Ok(Command::Pong)
    } else if value == CMD_LED_ACK {
        Ok(Command::LedAck)
    } else if value == CMD_TEMP_RESP {
        Ok(Command::TempResp)
    } else if value == CMD_SOUND_ACK {
        Ok(Command::SoundAck)
    } else if value == CMD_ECHO_RESP {
        Ok(Command::EchoResp)
    } else if value == CMD_ACCEL_DATA {
        Ok(Command::AccelData)
    } else if value == CMD_MAGNET_DATA {
        Ok(Command::MagnetData)
    } else if value == CMD_LED_BRIGHTNESS_ACK {
        Ok(Command::LedBrightnessAck)
    } else if value == CMD_LED_SCROLL_ACK {
        Ok(Command::LedScrollAck)
    } else if value == CMD_BTN_EVENT {
        Ok(Command::BtnEvent)
    } else if value == CMD_TOUCH_EVENT {
        Ok(Command::TouchEvent)
    } else if value == CMD_ERROR {
        Ok(Command::Error)
    } else {
        Err("Unknown command")
    }
}

impl Command {
    /// The byte of this command on the wire.
    pub fn code(self) -> (b: u8)
        ensures
            b == command_code(self),
    {
        match self {
            Command::Ping => CMD_PING,
            Command::LedSet => CMD_LED_SET,
            Command::LedClear => CMD_LED_CLEAR,
            Command::LedChar => CMD_LED_CHAR,
            Command::TempGet => CMD_TEMP_GET,
            Command::BtnSubscribe => CMD_BTN_SUBSCRIBE,
            Command::Echo => CMD_ECHO,
            Command::SoundPlay => CMD_SOUND_PLAY,
            Command::SoundStop => CMD_SOUND_STOP,
            Command::AccelSubscribe => CMD_ACCEL_SUBSCRIBE,
            Command::MagnetSubscribe => CMD_MAGNET_SUBSCRIBE,
            Command::LedBrightness => CMD_LED_BRIGHTNESS,
            Command::LedScroll => CMD_LED_SCROLL,
            Command::TouchSubscribe => CMD_TOUCH_SUBSCRIBE,
            Command::Pong => CMD_PONG,
            Command::LedAck => CMD_LED_ACK,
            Command::TempResp => CMD_TEMP_RESP,
            Command::SoundAck => CMD_SOUND_ACK,
            Command::EchoResp => CMD_ECHO_RESP,
            Command::AccelData => CMD_ACCEL_DATA,
            Command::MagnetData => CMD_MAGNET_DATA,
            Command::LedBrightnessAck => CMD_LED_BRIGHTNESS_ACK,
            Command::LedScrollAck => CMD_LED_SCROLL_ACK,
            Command::BtnEvent => CMD_BTN_EVENT,
            Command::TouchEvent => CMD_TOUCH_EVENT,
            Command::Error => CMD_ERROR,
        }
    }
}

impl TryFrom<u8> for Command {
    type Error = &'static str;

    fn try_from(value: u8) -> (r: Result<Self, &'static str>) {
        match value {
            0x01 => Ok(Command::Ping),
            0x02 => Ok(Command::LedSet),
            0x03 => Ok(Command::LedClear),
            0x04 => Ok(Command::LedChar),
            0x05 => Ok(Command::TempGet),
            0x06 => Ok(Command::BtnSubscribe),
            0x07 => Ok(Command::Echo),
            0x08 => Ok(Command::SoundPlay),
            0x09 => Ok(Command::SoundStop),
            0x0A => Ok(Command::AccelSubscribe),
            0x0B => Ok(Command::MagnetSubscribe),
            0x0C => Ok(Command::LedBrightness),
            0x0D => Ok(Command::LedScroll),
            0x0E => Ok(Command::TouchSubscribe),
            0x81 => Ok(Command::Pong),
            0x82 => Ok(Command::LedAck),
            0x85 => Ok(Command::TempResp),
            0x88 => Ok(Command::SoundAck),
            0x87 => Ok(Command::EchoResp),
            0x8A => Ok(Command::AccelData),
            0x8B => Ok(Command::MagnetData),
            0x8C => Ok(Command::LedBrightnessAck),
            0x8D => Ok(Command::LedScrollAck),
            0x90 => Ok(Command::BtnEvent),
            0x91 => Ok(Command::TouchEvent),
            0xFF => Ok(Command::Error),
            _ => Err("Unknown command"),
        }
    }
}

impl vstd::std_specs::convert::TryFromSpecImpl<u8> for Command {
    open spec fn obeys_try_from_spec() -> bool {
        true
    }

    open spec fn try_from_spec(v: u8) -> Result<Command, &'static str> {
        command_from_byte(v)
    }
}

// ===== Hex text =====
/// Convert byte array to hex string (two lowercase digits per byte, space separated)
pub fn to_hex(bytes: &[u8]) -> (s: String)
    ensures
        s@ == hex_text(bytes@),
{
    let mut s = String::new();
    let mut i: usize = 0;
    while i < bytes.len()
        invariant
            i <= bytes@.len(),
            s@ == hex_text(bytes@.subrange(0, i as int)),
        decreases bytes@.len() - i,
    {
        if i > 0 {
            s.append(" ");
        }
        push_hex_pair(&mut s, bytes[i]);
        proof {
            reveal_strlit(" ");
            let t = bytes@.subrange(0, i + 1);
            assert(t.drop_last() =~= bytes@.subrange(0, i as int));
            if i == 0 {
                assert(s@ =~= hex_text(t));
            } else {
                assert(s@ =~= hex_text(t));
            }
        }
        i += 1;
    }
    assert(bytes@.subrange(0, bytes@.len() as int) =~= bytes@);
    s
}

// ===== Laws =====
/// A built frame is at most `MAX_FRAME_LEN` bytes long: four framing bytes
/// around a payload of at most `MAX_PAYLOAD` bytes.
pub proof fn lemma_frame_len(cmd: u8, payload: Seq<u8>)
    requires
        payload.len() <= MAX_PAYLOAD,
    ensures
        frame_bytes(cmd, payload).len() == 4 + payload.len(),
        frame_bytes(cmd, payload).len() <= MAX_FRAME_LEN,
{
}

/// Parsing a built frame gives back its command and payload, whatever bytes
/// follow the frame in the buffer (such as the zero padding of a NUS write);
/// both parsers agree on it.
pub proof fn lemma_frame_roundtrip(cmd: u8, payload: Seq<u8>, rest: Seq<u8>)
    requires
        payload.len() <= MAX_PAYLOAD,
    ensures
        parse_result(frame_bytes(cmd, payload) + rest) == Ok::<(u8, Seq<u8>), ParseError>(
            (cmd, payload),
        ),
        parse_vec_result(frame_bytes(cmd, payload) + rest) == Some((cmd, payload)),
{
    let buf = frame_bytes(cmd, payload) + rest;
    let n = payload.len() as int;
    assert(buf[2] == n);
    assert(buf.subrange(1, 3 + n) =~= seq![cmd, payload.len() as u8] + payload);
    assert(buf.subrange(3, 3 + n) =~= payload);
}

/// A buffer that parses starts with exactly the encoding of the frame that the
/// parser returns: the parsers accept nothing but built frames (plus trailing bytes).
pub proof fn lemma_parsed_is_built(buf: Seq<u8>)
    ensures
        parse_result(buf) matches Ok((cmd, payload)) ==> payload.len() <= MAX_PAYLOAD
            && buf.len() >= 4 + payload.len() && buf.subrange(0, 4 + payload.len() as int)
            == frame_bytes(cmd, payload),
        parse_vec_result(buf) matches Some((cmd, payload)) ==> buf.len() >= 4 + payload.len()
            && buf.subrange(0, 4 + payload.len() as int) == frame_bytes(cmd, payload),
{
    if buf.len() >= 4 && buf[0] == SOF && buf.len() >= 4 + buf[2] && spec_crc8(
        buf.subrange(1, 3 + buf[2]),
    ) == buf[3 + buf[2]] {
        let n = buf[2] as int;
        let p = buf.subrange(3, 3 + n);
        assert(seq![buf[1], p.len() as u8] + p =~= buf.subrange(1, 3 + n));
        assert(buf.subrange(0, 4 + n) =~= frame_bytes(buf[1], p));
    }
}

/// `parse_frame` is the stricter parser: whatever it accepts, `parse_frame_vec`
/// accepts with the same result, and on a length field within `MAX_PAYLOAD`
/// the two agree on acceptance.
pub proof fn lemma_parsers_agree(buf: Seq<u8>)
    ensures
        parse_result(buf) matches Ok(r) ==> parse_vec_result(buf) == Some(r),
        buf.len() >= 3 && buf[2] <= MAX_PAYLOAD ==> (parse_result(buf) is Ok
            <==> parse_vec_result(buf) is Some),
{
}

/// Changing the CRC byte of a built frame to any other value makes both
/// parsers reject it (`parse_frame` with `BadCrc`).
pub proof fn lemma_corrupt_crc_rejected(cmd: u8, payload: Seq<u8>, bad: u8)
    requires
        payload.len() <= MAX_PAYLOAD,
        bad != spec_crc8(seq![cmd, payload.len() as u8] + payload),
    ensures
        parse_result(frame_bytes(cmd, payload).update(3 + payload.len() as int, bad)) == Err::<
            (u8, Seq<u8>),
            ParseError,
        >(ParseError::BadCrc),
        parse_vec_result(frame_bytes(cmd, payload).update(3 + payload.len() as int, bad)) is None,
{
    let n = payload.len() as int;
    let buf = frame_bytes(cmd, payload).update(3 + n, bad);
    assert(buf[2] == n);
    assert(buf.subrange(1, 3 + n) =~= seq![cmd, payload.len() as u8] + payload);
}

/// Every command survives the trip through its byte: `Command::try_from(c.code())`
/// gives back `c`, and a byte that converts to a command is that command's code.
pub proof fn lemma_command_code_roundtrip(c: Command, v: u8)
    ensures
        command_from_byte(command_code(c)) == Ok::<Command, &'static str>(c),
        command_from_byte(v) matches Ok(d) ==> command_code(d) == v,
{
}

} // verus!
