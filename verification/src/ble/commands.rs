//! Command dispatch: parse binary frames received on NUS RX, apply them to the
//! device state and construct the response frame to write back via TX.
use vstd::prelude::*;

use super::buttons::{self, ButtonEvent};
use super::led_matrix::{
    self, led_on, lemma_lit_mask_bits, matrix_clear, matrix_scroll, matrix_set_brightness,
    matrix_set_frame, matrix_show_char,
};
use super::motion::{self, AccelData, MagnetData};
use super::sound::{self, ToneCommand};
use super::touch::{self, TouchEvent};
use super::{DeviceState, DeviceView};
use crate::protocol::{
    self, frame_bytes, lemma_frame_roundtrip, parse_result, parse_vec_result, ParseError,
    CMD_ACCEL_DATA, CMD_ACCEL_SUBSCRIBE, CMD_BTN_EVENT, CMD_BTN_SUBSCRIBE, CMD_ECHO, CMD_ECHO_RESP,
    CMD_ERROR, CMD_LED_ACK, CMD_LED_BRIGHTNESS, CMD_LED_CHAR, CMD_LED_CLEAR, CMD_LED_SCROLL,
    CMD_LED_SET, CMD_MAGNET_DATA, CMD_MAGNET_SUBSCRIBE, CMD_PING, CMD_PONG, CMD_SOUND_ACK,
    CMD_SOUND_PLAY, CMD_SOUND_STOP,
    CMD_TEMP_GET, CMD_TEMP_RESP, CMD_TOUCH_EVENT, CMD_TOUCH_SUBSCRIBE, ERR_BAD_CRC, ERR_BAD_FRAME,
    ERR_BAD_PAYLOAD, ERR_UNKNOWN_CMD, MAX_FRAME_LEN, MAX_PAYLOAD,
};

verus! {

/// Error code answered when the chip temperature cannot be read.
pub const ERR_TEMP_READ: u8 = 0xFE;

/// Processing result: encoded response frame (at most one frame)
pub struct Response {
    buf: [u8; 64],
    len: usize,
}

impl Response {
    #[verifier::type_invariant]
    spec fn inv(self) -> bool {
        self.len <= MAX_FRAME_LEN
    }

    /// The bytes of the response.
    pub closed spec fn view(self) -> Seq<u8> {
        self.buf@.subrange(0, self.len as int)
    }

    /// An empty response.
    pub fn new() -> (r: Self)
        ensures
            r.view() == Seq::<u8>::empty(),
    {
        let r = Response { buf: [0u8; 64], len: 0 };
        assert(r.view() =~= Seq::<u8>::empty());
        r
    }

    /// The response holding one frame; `None` when the payload is too long.
    pub fn build(cmd: u8, payload: &[u8]) -> (r: Option<Self>)
        ensures
            payload@.len() <= MAX_PAYLOAD <==> r is Some,
            r matches Some(resp) ==> resp.view() == frame_bytes(cmd, payload@),
    {
        let mut buf = [0u8; 64];
        match protocol::build_frame(cmd, payload, &mut buf) {
            Some(n) => {
                let r = Response { buf, len: n };
                assert(r.view() =~= frame_bytes(cmd, payload@));
                Some(r)
            },
            None => None,
        }
    }

    /// The bytes to send.
    pub fn as_slice(&self) -> (s: &[u8])
        ensures
            s@ == self.view(),
    {
        proof {
            use_type_invariant(self);
        }
        &self.buf[0..self.len]
    }
}

/// The two little-endian bytes of a signed 16-bit value.
pub open spec fn le16(x: i16) -> Seq<u8> {
    seq![((x as u16) % 256) as u8, ((x as u16) / 256) as u8]
}

/// The four little-endian bytes of a signed 32-bit value.
pub open spec fn le32(x: i32) -> Seq<u8> {
    let u = x as u32;
    seq![(u % 256) as u8, ((u / 256) % 256) as u8, ((u / 65536) % 256) as u8, (u / 16777216) as u8]
}

fn push_le16(v: &mut Vec<u8>, x: i16)
    ensures
        final(v)@ == old(v)@ + le16(x),
{
    let u = x as u16;
    v.push((u % 256) as u8);
    v.push((u / 256) as u8);
    assert(final(v)@ =~= old(v)@ + le16(x));
}

/// Encode button event into a frame
pub fn encode_button_event(evt: ButtonEvent) -> (r: Option<Response>)
    ensures
        r matches Some(resp) && resp.view() == frame_bytes(
            CMD_BTN_EVENT,
            seq![evt.id.spec_code(), evt.pressed as u8],
        ),
{
    let payload = [evt.id.code(), evt.pressed as u8];
    assert(payload@ =~= seq![evt.id.spec_code(), evt.pressed as u8]);
    Response::build(CMD_BTN_EVENT, &payload)
}

/// Encode touch event into a frame
pub fn encode_touch_event(evt: TouchEvent) -> (r: Option<Response>)
    ensures
        r matches Some(resp) && resp.view() == frame_bytes(
            CMD_TOUCH_EVENT,
            seq![evt.id.spec_code(), evt.pressed as u8],
        ),
{
    let payload = [evt.id.code(), evt.pressed as u8];
    assert(payload@ =~= seq![evt.id.spec_code(), evt.pressed as u8]);
    Response::build(CMD_TOUCH_EVENT, &payload)
}

/// Encode accelerometer data into a frame
pub fn encode_accel_data(data: AccelData) -> (r: Option<Response>)
    ensures
        r matches Some(resp) && resp.view() == frame_bytes(
            CMD_ACCEL_DATA,
            le16(data.x) + le16(data.y) + le16(data.z),
        ),
{
    let mut payload: Vec<u8> = Vec::with_capacity(6);
    push_le16(&mut payload, data.x);
    push_le16(&mut payload, data.y);
    push_le16(&mut payload, data.z);
    assert(payload@ =~= le16(data.x) + le16(data.y) + le16(data.z));
    Response::build(CMD_ACCEL_DATA, payload.as_slice())
}

/// Encode magnetometer data into a frame
pub fn encode_magnet_data(data: MagnetData) -> (r: Option<Response>)
    ensures
        r matches Some(resp) && resp.view() == frame_bytes(
            CMD_MAGNET_DATA,
            le16(data.x) + le16(data.y) + le16(data.z),
        ),
{
    let mut payload: Vec<u8> = Vec::with_capacity(6);
    push_le16(&mut payload, data.x);
    push_le16(&mut payload, data.y);
    push_le16(&mut payload, data.z);
    assert(payload@ =~= le16(data.x) + le16(data.y) + le16(data.z));
    Response::build(CMD_MAGNET_DATA, payload.as_slice())
}

// ===== Dispatch =====
/// What the device answers to one RX write.
pub enum RxPlan {
    /// Answer with the frame of this command and payload.
    Reply(u8, Seq<u8>),
    /// Read the chip temperature first; `temperature_response` gives the answer.
    ReadTemperature,
}

/// The outcome of `handle_rx`.
pub enum RxOutcome {
    /// The response to write back (if any)
    Reply(Option<Response>),
    /// The command asks for the chip temperature: read it and pass the reading
    /// to `temperature_response`.
    ReadTemperature,
}

/// The acknowledgement `[0]` with the given command.
pub open spec fn ack(cmd: u8) -> RxPlan {
    RxPlan::Reply(cmd, seq![0u8])
}

/// The error reply for a payload of the wrong length.
pub open spec fn bad_payload() -> RxPlan {
    RxPlan::Reply(CMD_ERROR, seq![ERR_BAD_PAYLOAD])
}

/// The answer to a well-formed frame.
pub open spec fn command_reply(cmd: u8, p: Seq<u8>) -> RxPlan {
    if cmd == CMD_PING {
        RxPlan::Reply(CMD_PONG, Seq::empty())
    } else if cmd == CMD_LED_SET || cmd == CMD_LED_BRIGHTNESS {
        if p.len() != 25 {
            bad_payload()
        } else {
            ack(CMD_LED_ACK)
        }
    } else if cmd == CMD_LED_CLEAR {
        ack(CMD_LED_ACK)
    } else if cmd == CMD_LED_CHAR || cmd == CMD_BTN_SUBSCRIBE || cmd == CMD_TOUCH_SUBSCRIBE || cmd
        == CMD_ACCEL_SUBSCRIBE || cmd == CMD_MAGNET_SUBSCRIBE {
        if p.len() != 1 {
            bad_payload()
        } else {
            ack(CMD_LED_ACK)
        }
    } else if cmd == CMD_TEMP_GET {
        RxPlan::ReadTemperature
    } else if cmd == CMD_SOUND_PLAY {
        if p.len() != 4 {
            bad_payload()
        } else {
            ack(CMD_SOUND_ACK)
        }
    } else if cmd == CMD_SOUND_STOP {
        ack(CMD_SOUND_ACK)
    } else if cmd == CMD_LED_SCROLL {
        if p.len() == 0 {
            bad_payload()
        } else {
            ack(CMD_LED_ACK)
        }
    } else if cmd == CMD_ECHO {
        RxPlan::Reply(CMD_ECHO_RESP, p)
    } else {
        RxPlan::Reply(CMD_ERROR, seq![ERR_UNKNOWN_CMD])
    }
}

/// The answer to one RX write: frame errors are answered with `ERR_BAD_CRC`
/// or `ERR_BAD_FRAME`, well-formed frames by their command.
pub open spec fn rx_plan(data: Seq<u8>) -> RxPlan {
    match parse_result(data) {
        Err(e) => RxPlan::Reply(
            CMD_ERROR,
            seq![
                if e == ParseError::BadCrc {
                    ERR_BAD_CRC
                } else {
                    ERR_BAD_FRAME
                },
            ],
        ),
        Ok((cmd, p)) => command_reply(cmd, p),
    }
}

/// The unsigned 16-bit value of two little-endian bytes.
pub open spec fn le_u16(lo: u8, hi: u8) -> u16 {
    (lo as int + 256 * (hi as int)) as u16
}

/// What a well-formed frame does to the device state.
pub open spec fn command_effect(d: DeviceView, cmd: u8, p: Seq<u8>) -> DeviceView {
    if cmd == CMD_LED_SET && p.len() == 25 {
        DeviceView { matrix: matrix_set_frame(d.matrix, p), ..d }
    } else if cmd == CMD_LED_CLEAR {
        DeviceView { matrix: matrix_clear(d.matrix), ..d }
    } else if cmd == CMD_LED_CHAR && p.len() == 1 {
        DeviceView { matrix: matrix_show_char(d.matrix, p[0]), ..d }
    } else if cmd == CMD_BTN_SUBSCRIBE && p.len() == 1 {
        DeviceView { buttons_subscribed: p[0] != 0, ..d }
    } else if cmd == CMD_TOUCH_SUBSCRIBE && p.len() == 1 {
        DeviceView { touch_subscribed: p[0] != 0, ..d }
    } else if cmd == CMD_SOUND_PLAY && p.len() == 4 {
        DeviceView {
            tone_request: Some(
                ToneCommand::Play {
                    freq_hz: le_u16(p[0], p[1]),
                    duration_ms: le_u16(p[2], p[3]),
                },
            ),
            ..d
        }
    } else if cmd == CMD_SOUND_STOP {
        DeviceView { tone_request: Some(ToneCommand::Stop), ..d }
    } else if cmd == CMD_ACCEL_SUBSCRIBE && p.len() == 1 {
        DeviceView { accel_subscribed: p[0] != 0, ..d }
    } else if cmd == CMD_MAGNET_SUBSCRIBE && p.len() == 1 {
        DeviceView { magnet_subscribed: p[0] != 0, ..d }
    } else if cmd == CMD_LED_BRIGHTNESS && p.len() == 25 {
        DeviceView { matrix: matrix_set_brightness(d.matrix, p), ..d }
    } else if cmd == CMD_LED_SCROLL && p.len() > 0 {
        DeviceView { matrix: matrix_scroll(d.matrix, p), ..d }
    } else {
        d
    }
}

/// What one RX write does to the device state: frames that do not parse change nothing.
pub open spec fn rx_effect(d: DeviceView, data: Seq<u8>) -> DeviceView {
    match parse_result(data) {
        Err(_) => d,
        Ok((cmd, p)) => command_effect(d, cmd, p),
    }
}

/// Whether an outcome carries exactly the planned answer.
pub open spec fn outcome_matches(r: RxOutcome, plan: RxPlan) -> bool {
    match (r, plan) {
        (RxOutcome::Reply(Some(resp)), RxPlan::Reply(cmd, p)) => resp.view() == frame_bytes(cmd, p),
        (RxOutcome::ReadTemperature, RxPlan::ReadTemperature) => true,
        _ => false,
    }
}

/// The reply with an empty payload.
fn reply_empty(cmd: u8) -> (r: RxOutcome)
    ensures
        outcome_matches(r, RxPlan::Reply(cmd, Seq::empty())),
{
    let payload: [u8; 0] = [];
    assert(payload@ =~= Seq::<u8>::empty());
    reply(cmd, &payload)
}

/// The reply with a one-byte payload.
fn reply_byte(cmd: u8, b: u8) -> (r: RxOutcome)
    ensures
        outcome_matches(r, RxPlan::Reply(cmd, seq![b])),
{
    let payload = [b];
    assert(payload@ =~= seq![b]);
    reply(cmd, &payload)
}

fn reply(cmd: u8, payload: &[u8]) -> (r: RxOutcome)
    requires
        payload@.len() <= MAX_PAYLOAD,
    ensures
        outcome_matches(r, RxPlan::Reply(cmd, payload@)),
{
    RxOutcome::Reply(Response::build(cmd, payload))
}

/// Process one NUS RX write: apply the command to the device state and return
/// the response to write back, or ask for a temperature reading.
pub fn handle_rx(dev: &mut DeviceState, data: &[u8]) -> (r: RxOutcome)
    ensures
        final(dev).view() == rx_effect(old(dev).view(), data@),
        outcome_matches(r, rx_plan(data@)),
{
    let frame = match protocol::parse_frame(data) {
        Ok(f) => f,
        Err(e) => {
            let code = match e {
                ParseError::BadCrc => ERR_BAD_CRC,
                _ => ERR_BAD_FRAME,
            };
            return reply_byte(CMD_ERROR, code);
        },
    };
    let cmd = frame.cmd;
    let p = frame.payload;
    proof {
        assert(p@.len() <= MAX_PAYLOAD);
    }
    if cmd == CMD_PING {
        reply_empty(CMD_PONG)
    } else if cmd == CMD_LED_SET {
        if p.len() != 25 {
            return reply_byte(CMD_ERROR, ERR_BAD_PAYLOAD);
        }
        led_matrix::set_frame_from_bytes(&mut dev.matrix, p);
        reply_byte(CMD_LED_ACK, 0)
    } else if cmd == CMD_LED_CLEAR {
        led_matrix::clear_frame(&mut dev.matrix);
        reply_byte(CMD_LED_ACK, 0)
    } else if cmd == CMD_LED_CHAR {
        if p.len() != 1 {
            return reply_byte(CMD_ERROR, ERR_BAD_PAYLOAD);
        }
        led_matrix::show_char(&mut dev.matrix, p[0]);
        reply_byte(CMD_LED_ACK, 0)
    } else if cmd == CMD_TEMP_GET {
        RxOutcome::ReadTemperature
    } else if cmd == CMD_BTN_SUBSCRIBE {
        if p.len() != 1 {
            return reply_byte(CMD_ERROR, ERR_BAD_PAYLOAD);
        }
        buttons::set_subscribed(dev, p[0] != 0);
        reply_byte(CMD_LED_ACK, 0)
    } else if cmd == CMD_TOUCH_SUBSCRIBE {
        if p.len() != 1 {
            return reply_byte(CMD_ERROR, ERR_BAD_PAYLOAD);
        }
        touch::set_subscribed(dev, p[0] != 0);
        reply_byte(CMD_LED_ACK, 0)
    } else if cmd == CMD_SOUND_PLAY {
        if p.len() != 4 {
            return reply_byte(CMD_ERROR, ERR_BAD_PAYLOAD);
        }
        let freq = p[0] as u16 + (p[1] as u16) * 256;
        let duration = p[2] as u16 + (p[3] as u16) * 256;
        sound::play_tone(dev, freq, duration);
        reply_byte(CMD_SOUND_ACK, 0)
    } else if cmd == CMD_SOUND_STOP {
        sound::stop_tone(dev);
        reply_byte(CMD_SOUND_ACK, 0)
    } else if cmd == CMD_ACCEL_SUBSCRIBE {
        if p.len() != 1 {
            return reply_byte(CMD_ERROR, ERR_BAD_PAYLOAD);
        }
        motion::set_accel_subscribed(dev, p[0] != 0);
        reply_byte(CMD_LED_ACK, 0)
    } else if cmd == CMD_MAGNET_SUBSCRIBE {
        if p.len() != 1 {
            return reply_byte(CMD_ERROR, ERR_BAD_PAYLOAD);
        }
        motion::set_magnet_subscribed(dev, p[0] != 0);
        reply_byte(CMD_LED_ACK, 0)
    } else if cmd == CMD_LED_BRIGHTNESS {
        if p.len() != 25 {
            return reply_byte(CMD_ERROR, ERR_BAD_PAYLOAD);
        }
        led_matrix::set_brightness_from_bytes(&mut dev.matrix, p);
        reply_byte(CMD_LED_ACK, 0)
    } else if cmd == CMD_LED_SCROLL {
        if p.len() == 0 {
            return reply_byte(CMD_ERROR, ERR_BAD_PAYLOAD);
        }
        led_matrix::scroll_text(&mut dev.matrix, p);
        reply_byte(CMD_LED_ACK, 0)
    } else if cmd == CMD_ECHO {
        reply(CMD_ECHO_RESP, p)
    } else {
        reply_byte(CMD_ERROR, ERR_UNKNOWN_CMD)
    }
}

/// The answer to `CMD_TEMP_GET` once the temperature was read: the reading in
/// quarter degrees (the I30F2 bits) becomes hundredths of a degree as 4 bytes
/// little endian; a failed reading is answered with error `0xFE`.
pub fn temperature_response(quarters: Option<i32>) -> (r: Option<Response>)
    requires
        quarters matches Some(q) ==> -85_899_345 <= q <= 85_899_345,
    ensures
        quarters matches Some(q) ==> (r matches Some(resp) && resp.view() == frame_bytes(
            CMD_TEMP_RESP,
            le32((q * 25) as i32),
        )),
        quarters is None ==> (r matches Some(resp) && resp.view() == frame_bytes(
            CMD_ERROR,
            seq![ERR_TEMP_READ],
        )),
{
    match quarters {
        Some(q) => {
            // I30F2: 30 integer bits + 2 fractional bits (each LSB = 0.25 degC)
            let hundredths: i32 = q * 25;
            let u = hundredths as u32;
            let payload = [
                (u % 256) as u8,
                ((u / 256) % 256) as u8,
                ((u / 65536) % 256) as u8,
                (u / 16777216) as u8,
            ];
            assert(payload@ =~= le32(hundredths));
            Response::build(CMD_TEMP_RESP, &payload)
        },
        None => {
            let payload = [ERR_TEMP_READ];
            assert(payload@ =~= seq![ERR_TEMP_READ]);
            Response::build(CMD_ERROR, &payload)
        },
    }
}

// ===== Laws =====
/// A write that is not a well-formed frame changes nothing and is answered with
/// `CMD_ERROR`: `ERR_BAD_CRC` for a CRC mismatch, `ERR_BAD_FRAME` otherwise.
pub proof fn lemma_rejected_write(d: DeviceView, data: Seq<u8>)
    requires
        parse_result(data) is Err,
    ensures
        rx_effect(d, data) == d,
        parse_result(data) == Err::<(u8, Seq<u8>), ParseError>(ParseError::BadCrc) ==> rx_plan(data)
            == RxPlan::Reply(CMD_ERROR, seq![ERR_BAD_CRC]),
        parse_result(data) != Err::<(u8, Seq<u8>), ParseError>(ParseError::BadCrc) ==> rx_plan(
            data,
        ) == RxPlan::Reply(CMD_ERROR, seq![ERR_BAD_FRAME]),
{
}

/// Every answer fits in one frame: its payload is at most `MAX_PAYLOAD` bytes,
/// so the response is at most `MAX_FRAME_LEN` bytes.
pub proof fn lemma_reply_fits(data: Seq<u8>)
    ensures
        rx_plan(data) matches RxPlan::Reply(_, p) ==> p.len() <= MAX_PAYLOAD,
{
}

/// Every answer the firmware sends is read back by the console's parser as
/// exactly the planned command and payload, whatever padding follows it.
pub proof fn lemma_replies_parse(data: Seq<u8>, rest: Seq<u8>)
    ensures
        rx_plan(data) matches RxPlan::Reply(c, p) ==> parse_vec_result(frame_bytes(c, p) + rest)
            == Some((c, p)),
{
    if let RxPlan::Reply(c, p) = rx_plan(data) {
        lemma_reply_fits(data);
        lemma_frame_roundtrip(c, p, rest);
    }
}

/// A command byte the firmware does not know is answered with
/// `ERR_UNKNOWN_CMD` and changes nothing.
pub proof fn lemma_unknown_command(d: DeviceView, cmd: u8, p: Seq<u8>)
    requires
        cmd != CMD_PING && cmd != CMD_LED_SET && cmd != CMD_LED_CLEAR && cmd != CMD_LED_CHAR && cmd
            != CMD_TEMP_GET && cmd != CMD_BTN_SUBSCRIBE && cmd != CMD_TOUCH_SUBSCRIBE && cmd
            != CMD_SOUND_PLAY && cmd != CMD_SOUND_STOP && cmd != CMD_ACCEL_SUBSCRIBE && cmd
            != CMD_MAGNET_SUBSCRIBE && cmd != CMD_LED_BRIGHTNESS && cmd != CMD_LED_SCROLL && cmd
            != CMD_ECHO,
    ensures
        command_reply(cmd, p) == RxPlan::Reply(CMD_ERROR, seq![ERR_UNKNOWN_CMD]),
        command_effect(d, cmd, p) == d,
{
}

/// Echo: an echo frame built by the host is answered with an echo response
/// carrying the same payload, whatever padding follows it, and changes nothing.
pub proof fn lemma_echo(d: DeviceView, payload: Seq<u8>, rest: Seq<u8>)
    requires
        payload.len() <= MAX_PAYLOAD,
    ensures
        rx_plan(frame_bytes(CMD_ECHO, payload) + rest) == RxPlan::Reply(CMD_ECHO_RESP, payload),
        rx_effect(d, frame_bytes(CMD_ECHO, payload) + rest) == d,
{
    lemma_frame_roundtrip(CMD_ECHO, payload, rest);
}

/// LED set: after a `CMD_LED_SET` frame with 25 bytes, LED `i` is lit exactly
/// when byte `i` is non-zero (LEDs 25..32 stay off), in binary mode, and the
/// write is acknowledged.
pub proof fn lemma_led_set(d: DeviceView, payload: Seq<u8>, i: u32)
    requires
        payload.len() == 25,
        i < 32,
    ensures
        ({
            let e = rx_effect(d, frame_bytes(CMD_LED_SET, payload));
            &&& led_on(e.matrix.frame, i) <==> (i < 25 && payload[i as int] != 0)
            &&& !e.matrix.brightness_mode
            &&& e.matrix.brightness == d.matrix.brightness
        }),
        rx_plan(frame_bytes(CMD_LED_SET, payload)) == RxPlan::Reply(CMD_LED_ACK, seq![0u8]),
{
    lemma_frame_roundtrip(CMD_LED_SET, payload, Seq::empty());
    assert(frame_bytes(CMD_LED_SET, payload) + Seq::<u8>::empty() =~= frame_bytes(
        CMD_LED_SET,
        payload,
    ));
    lemma_lit_mask_bits(payload, 25, i);
}

/// LED brightness: after a `CMD_LED_BRIGHTNESS` frame with 25 bytes, the
/// brightness values are the payload, brightness mode is on, and the binary
/// frame lights exactly the LEDs with non-zero brightness.
pub proof fn lemma_led_brightness(d: DeviceView, payload: Seq<u8>, i: u32)
    requires
        payload.len() == 25,
        d.matrix.brightness.len() == 25,
        i < 32,
    ensures
        ({
            let e = rx_effect(d, frame_bytes(CMD_LED_BRIGHTNESS, payload));
            &&& e.matrix.brightness == payload
            &&& e.matrix.brightness_mode
            &&& led_on(e.matrix.frame, i) <==> (i < 25 && payload[i as int] > 0)
        }),
{
    lemma_frame_roundtrip(CMD_LED_BRIGHTNESS, payload, Seq::empty());
    assert(frame_bytes(CMD_LED_BRIGHTNESS, payload) + Seq::<u8>::empty() =~= frame_bytes(
        CMD_LED_BRIGHTNESS,
        payload,
    ));
    let b = payload.subrange(0, 25) + d.matrix.brightness.subrange(25, 25);
    assert(b =~= payload);
    lemma_lit_mask_bits(payload, 25, i);
}

/// LED clear: after a `CMD_LED_CLEAR` frame (whatever its payload), from any
/// device state, the matrix is in binary mode with an empty frame and every
/// brightness 0, so no LED is driven in any time slot; the scroll state and
/// the rest of the device are unchanged, and the write is acknowledged.
pub proof fn lemma_led_clear(d: DeviceView, payload: Seq<u8>)
    requires
        payload.len() <= MAX_PAYLOAD,
    ensures
        ({
            let e = rx_effect(d, frame_bytes(CMD_LED_CLEAR, payload));
            &&& !e.matrix.brightness_mode
            &&& e.matrix.frame == 0
            &&& e.matrix.brightness.len() == 25
            &&& forall|i: int| 0 <= i < 25 ==> e.matrix.brightness[i] == 0
            &&& forall|row: int, col: int, slot: int|
                0 <= row < 5 && 0 <= col < 5 && 0 <= slot < 8 ==> !led_matrix::led_driven(
                    e.matrix,
                    row,
                    col,
                    slot,
                )
            &&& e.matrix.scroll_text == d.matrix.scroll_text
            &&& e.matrix.scroll_requested == d.matrix.scroll_requested
            &&& e.matrix.scrolling == d.matrix.scrolling
            &&& e.buttons_subscribed == d.buttons_subscribed
            &&& e.touch_subscribed == d.touch_subscribed
            &&& e.accel_subscribed == d.accel_subscribed
            &&& e.magnet_subscribed == d.magnet_subscribed
            &&& e.tone_request == d.tone_request
            &&& e.playing == d.playing
        }),
        rx_plan(frame_bytes(CMD_LED_CLEAR, payload)) == RxPlan::Reply(CMD_LED_ACK, seq![0u8]),
{
    lemma_frame_roundtrip(CMD_LED_CLEAR, payload, Seq::empty());
    assert(frame_bytes(CMD_LED_CLEAR, payload) + Seq::<u8>::empty() =~= frame_bytes(
        CMD_LED_CLEAR,
        payload,
    ));
    assert forall|i: u32| i < 32 implies !led_on(0u32, i) by {
        assert((0u32 >> i) & 1u32 == 0u32) by (bit_vector);
    }
    let e = rx_effect(d, frame_bytes(CMD_LED_CLEAR, payload));
    assert forall|row: int, col: int, slot: int|
        0 <= row < 5 && 0 <= col < 5 && 0 <= slot < 8 implies !led_matrix::led_driven(
        e.matrix,
        row,
        col,
        slot,
    ) by {
        assert(!led_on(0u32, (row * 5 + col) as u32));
    }
}

/// Subscriptions: a subscribe frame `[v]` for buttons, touch, accelerometer or
/// magnetometer turns that subscription on exactly when `v` is non-zero, and
/// changes nothing else.
pub proof fn lemma_subscribe(d: DeviceView, v: u8)
    ensures
        rx_effect(d, frame_bytes(CMD_BTN_SUBSCRIBE, seq![v])) == (DeviceView {
            buttons_subscribed: v != 0,
            ..d
        }),
        rx_effect(d, frame_bytes(CMD_TOUCH_SUBSCRIBE, seq![v])) == (DeviceView {
            touch_subscribed: v != 0,
            ..d
        }),
        rx_effect(d, frame_bytes(CMD_ACCEL_SUBSCRIBE, seq![v])) == (DeviceView {
            accel_subscribed: v != 0,
            ..d
        }),
        rx_effect(d, frame_bytes(CMD_MAGNET_SUBSCRIBE, seq![v])) == (DeviceView {
            magnet_subscribed: v != 0,
            ..d
        }),
{
    lemma_frame_roundtrip(CMD_BTN_SUBSCRIBE, seq![v], Seq::empty());
    lemma_frame_roundtrip(CMD_TOUCH_SUBSCRIBE, seq![v], Seq::empty());
    lemma_frame_roundtrip(CMD_ACCEL_SUBSCRIBE, seq![v], Seq::empty());
    lemma_frame_roundtrip(CMD_MAGNET_SUBSCRIBE, seq![v], Seq::empty());
    assert(frame_bytes(CMD_BTN_SUBSCRIBE, seq![v]) + Seq::<u8>::empty() =~= frame_bytes(
        CMD_BTN_SUBSCRIBE,
        seq![v],
    ));
    assert(frame_bytes(CMD_TOUCH_SUBSCRIBE, seq![v]) + Seq::<u8>::empty() =~= frame_bytes(
        CMD_TOUCH_SUBSCRIBE,
        seq![v],
    ));
    assert(frame_bytes(CMD_ACCEL_SUBSCRIBE, seq![v]) + Seq::<u8>::empty() =~= frame_bytes(
        CMD_ACCEL_SUBSCRIBE,
        seq![v],
    ));
    assert(frame_bytes(CMD_MAGNET_SUBSCRIBE, seq![v]) + Seq::<u8>::empty() =~= frame_bytes(
        CMD_MAGNET_SUBSCRIBE,
        seq![v],
    ));
}

} // verus!
