//! Decisions of the console's panels: the LED matrix editor, the requests the
//! sound panel sends, and how the sensor and motion panels read received frames.
use vstd::prelude::*;

use crate::ble::buttons::{ButtonEvent, ButtonId};
use crate::ble::commands::le32;
use crate::text::{hex_digits, hex_encode};
use vstd::string::StringExecFns;
use vstd::utf8::{decode_utf8, valid_utf8};
use crate::protocol::{
    CMD_ACCEL_DATA, CMD_BTN_EVENT, CMD_ECHO, CMD_LED_BRIGHTNESS, CMD_LED_CHAR, CMD_LED_CLEAR,
    CMD_LED_SCROLL, CMD_LED_SET, CMD_MAGNET_DATA, CMD_PONG, CMD_SOUND_PLAY, CMD_TEMP_RESP,
    MAX_PAYLOAD,
};

verus! {

// ===== LED matrix editor =====
/// The editor state of the LED 5x5 matrix card.
#[derive(Clone, Copy)]
pub struct LedEditor {
    /// On/off state of the 25 LEDs (binary mode)
    pub led_state: [bool; 25],
    /// Grayscale brightness mode
    pub brightness_mode: bool,
    /// Brightness used when an LED is switched on in brightness mode
    pub brightness_level: u8,
    /// Per-LED brightness (brightness mode)
    pub led_brightness: [u8; 25],
}

/// A request to the device: command byte and payload.
pub struct Request {
    pub cmd: u8,
    pub payload: Vec<u8>,
}

impl LedEditor {
    /// All LEDs off, binary mode, brightness level 128.
    pub fn new() -> (e: Self)
        ensures
            forall|i: int| 0 <= i < 25 ==> !e.led_state@[i] && e.led_brightness@[i] == 0,
            !e.brightness_mode,
            e.brightness_level == 128,
    {
        LedEditor {
            led_state: [false; 25],
            brightness_mode: false,
            brightness_level: 128,
            led_brightness: [0u8; 25],
        }
    }

    /// Toggle brightness mode, carrying the LEDs over: entering it, lit LEDs get
    /// the brightness level; leaving it, LEDs with non-zero brightness are lit.
    pub fn toggle_brightness_mode(&mut self)
        ensures
            final(self).brightness_mode == !old(self).brightness_mode,
            final(self).brightness_level == old(self).brightness_level,
            final(self).brightness_mode ==> final(self).led_state@ == old(self).led_state@
                && final(self).led_brightness@ == old(self).led_state@.map_values(
                |on: bool| if on {
                    old(self).brightness_level
                } else {
                    0u8
                },
            ),
            !final(self).brightness_mode ==> final(self).led_brightness@ == old(
                self,
            ).led_brightness@ && final(self).led_state@ == old(self).led_brightness@.map_values(
                |v: u8| v > 0,
            ),
    {
        let new_mode = !self.brightness_mode;
        self.brightness_mode = new_mode;
        if new_mode {
            let level = self.brightness_level;
            let mut b = [0u8; 25];
            let mut i: usize = 0;
            while i < 25
                invariant
                    i <= 25,
                    b@.len() == 25,
                    forall|j: int|
                        0 <= j < i ==> b@[j] == if self.led_state@[j] {
                            level
                        } else {
                            0u8
                        },
                decreases 25 - i,
            {
                b[i] = if self.led_state[i] {
                    level
                } else {
                    0
                };
                i += 1;
            }
            self.led_brightness = b;
            assert(self.led_brightness@ =~= old(self).led_state@.map_values(
                |on: bool| if on {
                    level
                } else {
                    0u8
                },
            ));
        } else {
            let mut st = [false; 25];
            let mut i: usize = 0;
            while i < 25
                invariant
                    i <= 25,
                    st@.len() == 25,
                    forall|j: int| 0 <= j < i ==> st@[j] == (self.led_brightness@[j] > 0),
                decreases 25 - i,
            {
                st[i] = self.led_brightness[i] > 0;
                i += 1;
            }
            self.led_state = st;
            assert(self.led_state@ =~= old(self).led_brightness@.map_values(|v: u8| v > 0));
        }
    }

    /// Toggle one LED: in brightness mode between off and the brightness level,
    /// otherwise between off and on.
    pub fn toggle_led(&mut self, index: usize)
        requires
            index < 25,
        ensures
            final(self).brightness_mode == old(self).brightness_mode,
            final(self).brightness_level == old(self).brightness_level,
            old(self).brightness_mode ==> final(self).led_state@ == old(self).led_state@
                && final(self).led_brightness@ == old(self).led_brightness@.update(
                index as int,
                if old(self).led_brightness@[index as int] > 0 {
                    0u8
                } else {
                    old(self).brightness_level
                },
            ),
            !old(self).brightness_mode ==> final(self).led_brightness@ == old(
                self,
            ).led_brightness@ && final(self).led_state@ == old(self).led_state@.update(
                index as int,
                !old(self).led_state@[index as int],
            ),
    {
        if self.brightness_mode {
            let v = if self.led_brightness[index] > 0 {
                0
            } else {
                self.brightness_level
            };
            self.led_brightness[index] = v;
        } else {
            let v = !self.led_state[index];
            self.led_state[index] = v;
        }
    }

    /// Set the brightness level used for switched-on LEDs.
    pub fn set_brightness_level(&mut self, level: u8)
        ensures
            final(self).brightness_level == level,
            final(self).brightness_mode == old(self).brightness_mode,
            final(self).led_state@ == old(self).led_state@,
            final(self).led_brightness@ == old(self).led_brightness@,
    {
        self.brightness_level = level;
    }

    /// Clear all LEDs of the current mode; the request clears the device display.
    pub fn clear_all(&mut self) -> (r: Request)
        ensures
            r.cmd == CMD_LED_CLEAR,
            r.payload@ == Seq::<u8>::empty(),
            final(self).brightness_mode == old(self).brightness_mode,
            final(self).brightness_level == old(self).brightness_level,
            old(self).brightness_mode ==> final(self).led_brightness@ == Seq::new(
                25,
                |i: int| 0u8,
            ) && final(self).led_state@ == old(self).led_state@,
            !old(self).brightness_mode ==> final(self).led_state@ == Seq::new(25, |i: int| false)
                && final(self).led_brightness@ == old(self).led_brightness@,
    {
        if self.brightness_mode {
            self.led_brightness = [0u8; 25];
            assert(self.led_brightness@ =~= Seq::new(25, |i: int| 0u8));
        } else {
            self.led_state = [false; 25];
            assert(self.led_state@ =~= Seq::new(25, |i: int| false));
        }
        Request { cmd: CMD_LED_CLEAR, payload: Vec::new() }
    }

    /// Turn all LEDs on: in brightness mode at the brightness level (sent as
    /// `LedBrightness`), otherwise on (sent as `LedSet` with 25 ones).
    pub fn all_on(&mut self) -> (r: Request)
        ensures
            final(self).brightness_mode == old(self).brightness_mode,
            final(self).brightness_level == old(self).brightness_level,
            old(self).brightness_mode ==> final(self).led_brightness@ == Seq::new(
                25,
                |i: int| old(self).brightness_level,
            ) && final(self).led_state@ == old(self).led_state@ && r.cmd == CMD_LED_BRIGHTNESS
                && r.payload@ == Seq::new(25, |i: int| old(self).brightness_level),
            !old(self).brightness_mode ==> final(self).led_state@ == Seq::new(25, |i: int| true)
                && final(self).led_brightness@ == old(self).led_brightness@ && r.cmd
                == CMD_LED_SET && r.payload@ == Seq::new(25, |i: int| 1u8),
    {
        if self.brightness_mode {
            let level = self.brightness_level;
            self.led_brightness = [level; 25];
            assert(self.led_brightness@ =~= Seq::new(25, |i: int| level));
            let payload = filled(level, 25);
            Request { cmd: CMD_LED_BRIGHTNESS, payload }
        } else {
            self.led_state = [true; 25];
            assert(self.led_state@ =~= Seq::new(25, |i: int| true));
            let payload = filled(1, 25);
            Request { cmd: CMD_LED_SET, payload }
        }
    }

    /// The request that applies the editor to the device: the brightness values
    /// as `LedBrightness` in brightness mode, otherwise the on/off state (1/0) as `LedSet`.
    pub fn apply_request(&self) -> (r: Request)
        ensures
            self.brightness_mode ==> r.cmd == CMD_LED_BRIGHTNESS && r.payload@
                == self.led_brightness@,
            !self.brightness_mode ==> r.cmd == CMD_LED_SET && r.payload@
                == self.led_state@.map_values(
                |on: bool| if on {
                    1u8
                } else {
                    0u8
                },
            ),
    {
        if self.brightness_mode {
            let payload = vstd::slice::slice_to_vec(self.led_brightness.as_slice());
            Request { cmd: CMD_LED_BRIGHTNESS, payload }
        } else {
            let mut payload: Vec<u8> = Vec::with_capacity(25);
            let mut i: usize = 0;
            while i < 25
                invariant
                    i <= 25,
                    payload@ == self.led_state@.subrange(0, i as int).map_values(
                        |on: bool| if on {
                            1u8
                        } else {
                            0u8
                        },
                    ),
                decreases 25 - i,
            {
                payload.push(
                    if self.led_state[i] {
                        1
                    } else {
                        0
                    },
                );
                i += 1;
                assert(payload@ =~= self.led_state@.subrange(0, i as int).map_values(
                    |on: bool| if on {
                        1u8
                    } else {
                        0u8
                    },
                ));
            }
            assert(self.led_state@.subrange(0, 25) =~= self.led_state@);
            Request { cmd: CMD_LED_SET, payload }
        }
    }
}

/// `n` copies of `v`.
fn filled(v: u8, n: usize) -> (r: Vec<u8>)
    ensures
        r@ == Seq::new(n as nat, |i: int| v),
{
    let mut r: Vec<u8> = Vec::with_capacity(n);
    let mut i: usize = 0;
    while i < n
        invariant
            i <= n,
            r@ == Seq::new(i as nat, |j: int| v),
        decreases n - i,
    {
        r.push(v);
        i += 1;
        assert(r@ =~= Seq::new(i as nat, |j: int| v));
    }
    r
}

/// The request that shows a character: its low byte as `LedChar`.
pub fn char_request(c: char) -> (r: Request)
    ensures
        r.cmd == CMD_LED_CHAR,
        r.payload@ == seq![c as u8],
{
    let mut payload: Vec<u8> = Vec::new();
    payload.push(c as u8);
    assert(payload@ =~= seq![c as u8]);
    Request { cmd: CMD_LED_CHAR, payload }
}

/// The request that scrolls text: at most the first `MAX_PAYLOAD` bytes as
/// `LedScroll`; `None` for empty text.
pub fn scroll_request(text: &[u8]) -> (r: Option<Request>)
    ensures
        text@.len() == 0 <==> r is None,
        r matches Some(req) ==> req.cmd == CMD_LED_SCROLL && req.payload@ == text@.subrange(
            0,
            if text@.len() < MAX_PAYLOAD {
                text@.len() as int
            } else {
                MAX_PAYLOAD as int
            },
        ),
{
    if text.len() == 0 {
        return None;
    }
    let n = if text.len() < MAX_PAYLOAD {
        text.len()
    } else {
        MAX_PAYLOAD
    };
    let payload = vstd::slice::slice_to_vec(&text[0..n]);
    Some(Request { cmd: CMD_LED_SCROLL, payload })
}

/// The echo test request: the text's bytes as `Echo`; `None` for empty text.
pub fn echo_request(text: &[u8]) -> (r: Option<Request>)
    ensures
        text@.len() == 0 <==> r is None,
        r matches Some(req) ==> req.cmd == CMD_ECHO && req.payload@ == text@,
{
    if text.len() == 0 {
        return None;
    }
    Some(Request { cmd: CMD_ECHO, payload: vstd::slice::slice_to_vec(text) })
}

// ===== Sound panel =====
/// Frequencies (Hz) of the 13 notes C4..C5 of the piano keys.
pub open spec fn note_freq_spec(index: int) -> u16 {
    if 0 <= index < 13 {
        seq![262u16, 277, 294, 311, 330, 349, 370, 392, 415, 440, 466, 494, 523][index]
    } else {
        440
    }
}

/// The frequency of a note of the piano keys (C4..C5); 440 Hz for an index
/// past the table.
pub fn note_freq(index: usize) -> (f: u16)
    ensures
        f == note_freq_spec(index as int),
{
    let table: [u16; 13] = [262, 277, 294, 311, 330, 349, 370, 392, 415, 440, 466, 494, 523];
    assert(table@ =~= seq![262u16, 277, 294, 311, 330, 349, 370, 392, 415, 440, 466, 494, 523]);
    if index < 13 {
        table[index]
    } else {
        440
    }
}

/// The request that plays a tone: frequency and duration as 2 bytes little
/// endian each, as `SoundPlay`.
pub fn tone_request(freq: u16, duration_ms: u16) -> (r: Request)
    ensures
        r.cmd == CMD_SOUND_PLAY,
        r.payload@ == seq![
            (freq % 256) as u8,
            (freq / 256) as u8,
            (duration_ms % 256) as u8,
            (duration_ms / 256) as u8,
        ],
{
    let mut payload: Vec<u8> = Vec::with_capacity(4);
    payload.push((freq % 256) as u8);
    payload.push((freq / 256) as u8);
    payload.push((duration_ms % 256) as u8);
    payload.push((duration_ms / 256) as u8);
    assert(payload@ =~= seq![
        (freq % 256) as u8,
        (freq / 256) as u8,
        (duration_ms % 256) as u8,
        (duration_ms / 256) as u8,
    ]);
    Request { cmd: CMD_SOUND_PLAY, payload }
}

/// One scheduled note of a melody.
#[derive(Clone, Copy, Debug, PartialEq, Eq)]
pub struct ScheduledNote {
    /// Delay from the start of the melody (ms)
    pub delay_ms: u32,
    pub freq: u16,
    pub duration_ms: u16,
}

/// Note `i` of a melody `(note_index, duration_ms)` starts after `i` times its
/// own duration plus an 80ms gap, at the frequency of its note.
pub open spec fn scheduled(i: int, note: (usize, u16)) -> ScheduledNote {
    ScheduledNote {
        delay_ms: (i * (note.1 + 80)) as u32,
        freq: note_freq_spec(note.0 as int),
        duration_ms: note.1,
    }
}

/// The schedule of a melody: when and what each of its notes plays.
pub fn melody_schedule(melody: &[(usize, u16)]) -> (s: Vec<ScheduledNote>)
    requires
        forall|i: int| 0 <= i < melody@.len() ==> #[trigger] (i * (melody@[i].1 + 80)) <= u32::MAX,
    ensures
        s@.len() == melody@.len(),
        forall|i: int| 0 <= i < melody@.len() ==> s@[i] == scheduled(i, melody@[i]),
{
    let mut s: Vec<ScheduledNote> = Vec::new();
    let mut i: usize = 0;
    while i < melody.len()
        invariant
            i <= melody@.len(),
            forall|j: int| 0 <= j < melody@.len() ==> #[trigger] (j * (melody@[j].1 + 80)) <= u32::MAX,
            s@.len() == i,
            forall|j: int| 0 <= j < i ==> s@[j] == scheduled(j, melody@[j]),
        decreases melody@.len() - i,
    {
        let (note_idx, dur) = melody[i];
        let total_delay: u32 = dur as u32 + 80;
        let ghost gi: int = i as int;
        assert(gi * (melody@[gi].1 + 80) <= u32::MAX);
        assert(i <= u32::MAX) by (nonlinear_arith)
            requires
                gi * total_delay <= u32::MAX,
                total_delay >= 80,
                gi == i,
        ;
        let delay = i as u32 * total_delay;
        s.push(ScheduledNote { delay_ms: delay, freq: note_freq(note_idx), duration_ms: dur });
        i += 1;
    }
    s
}

// ===== Echo panel =====
/// `String::from_utf8` (std): the bytes as a `String` when they are valid UTF-8.
/// Contract: `Some` exactly for valid UTF-8 (std documents the error for any
/// invalid sequence), holding the decoded characters.
#[verifier::external_body]
fn string_from_utf8(bytes: Vec<u8>) -> (r: Option<String>)
    ensures
        r is Some <==> valid_utf8(bytes@),
        r matches Some(s) ==> s@ == decode_utf8(bytes@),
{
    match String::from_utf8(bytes) {
        Ok(s) => Some(s),
        Err(_) => None,
    }
}

/// How the echo panel shows a reply: the text when the payload is valid UTF-8,
/// otherwise `(hex) ` and the payload in lowercase hexadecimal.
pub open spec fn echo_text_spec(p: Seq<u8>) -> Seq<char> {
    if valid_utf8(p) {
        decode_utf8(p)
    } else {
        seq!['(', 'h', 'e', 'x', ')', ' '] + hex_digits(p)
    }
}

/// The text the echo panel shows for an echo reply's payload.
pub fn echo_text(payload: &[u8]) -> (s: String)
    ensures
        s@ == echo_text_spec(payload@),
{
    let mut bytes: Vec<u8> = Vec::new();
    let mut i: usize = 0;
    while i < payload.len()
        invariant
            i <= payload@.len(),
            bytes@ == payload@.subrange(0, i as int),
        decreases payload@.len() - i,
    {
        bytes.push(payload[i]);
        i += 1;
        assert(bytes@ =~= payload@.subrange(0, i as int));
    }
    assert(bytes@ =~= payload@);
    match string_from_utf8(bytes) {
        Some(text) => text,
        None => {
            let mut s = String::new();
            proof {
                reveal_strlit("(hex) ");
            }
            s.append("(hex) ");
            let digits = hex_encode(payload);
            s.append(digits.as_str());
            assert(s@ =~= echo_text_spec(payload@));
            s
        },
    }
}

// ===== Sensor and motion panels =====
/// What the sensor panel takes from a received frame.
#[derive(Clone, Copy, Debug, PartialEq, Eq)]
pub enum SensorUpdate {
    /// A ping answer
    Pong,
    /// Temperature in hundredths of a degree: a 4-byte `i32`, or a shorter
    /// 2-byte `i16` reply
    TemperatureHundredths(i32),
    /// Temperature in whole degrees (payload of 1 byte)
    TemperatureWhole(i8),
    /// Button A pressed or released
    ButtonA(bool),
    /// Button B pressed or released
    ButtonB(bool),
    /// Nothing for this panel
    Ignored,
}

/// The signed value of two little-endian bytes.
pub open spec fn le_i16(lo: u8, hi: u8) -> i16 {
    (lo as int + 256 * (hi as int)) as i16
}

fn read_i16(lo: u8, hi: u8) -> (v: i16)
    ensures
        v == le_i16(lo, hi),
{
    (lo as u16 + (hi as u16) * 256) as i16
}

/// The signed value of four little-endian bytes.
pub open spec fn le_i32(b0: u8, b1: u8, b2: u8, b3: u8) -> i32 {
    (b0 as int + 256 * (b1 as int) + 65536 * (b2 as int) + 16777216 * (b3 as int)) as i32
}

fn read_i32(b0: u8, b1: u8, b2: u8, b3: u8) -> (v: i32)
    ensures
        v == le_i32(b0, b1, b2, b3),
{
    let u: u32 = b0 as u32 + (b1 as u32) * 256 + (b2 as u32) * 65536 + (b3 as u32) * 16777216;
    u as i32
}

/// How the sensor panel reads a frame: a pong; a temperature response (four
/// bytes as an `i32` of hundredths, two or three bytes as an `i16` of hundredths,
/// one byte as whole degrees); a button event `[id, state]` for A (1) or B (2).
pub open spec fn sensor_update_spec(cmd: u8, p: Seq<u8>) -> SensorUpdate {
    if cmd == CMD_PONG {
        SensorUpdate::Pong
    } else if cmd == CMD_TEMP_RESP {
        if p.len() >= 4 {
            SensorUpdate::TemperatureHundredths(le_i32(p[0], p[1], p[2], p[3]))
        } else if p.len() >= 2 {
            SensorUpdate::TemperatureHundredths(le_i16(p[0], p[1]) as i32)
        } else if p.len() == 1 {
            SensorUpdate::TemperatureWhole(p[0] as i8)
        } else {
            SensorUpdate::Ignored
        }
    } else if cmd == CMD_BTN_EVENT && p.len() >= 2 {
        if p[0] == 1 {
            SensorUpdate::ButtonA(p[1] != 0)
        } else if p[0] == 2 {
            SensorUpdate::ButtonB(p[1] != 0)
        } else {
            SensorUpdate::Ignored
        }
    } else {
        SensorUpdate::Ignored
    }
}

/// A temperature reply as the firmware encodes it (four little-endian bytes of
/// hundredths) is read by the sensor panel as the same number of hundredths.
pub proof fn lemma_temperature_read_back(hundredths: i32)
    ensures
        sensor_update_spec(CMD_TEMP_RESP, le32(hundredths)) == SensorUpdate::TemperatureHundredths(
            hundredths,
        ),
{
    let u = hundredths as u32;
    let b0 = (u % 256) as u8;
    let b1 = ((u / 256) % 256) as u8;
    let b2 = ((u / 65536) % 256) as u8;
    let b3 = (u / 16777216) as u8;
    assert(b0 as int + 256 * (b1 as int) + 65536 * (b2 as int) + 16777216 * (b3 as int) == u as int)
        by (nonlinear_arith)
        requires
            b0 == u % 256,
            b1 == (u / 256) % 256,
            b2 == (u / 65536) % 256,
            b3 == u / 16777216,
    ;
    assert((u as int) as i32 == hundredths) by (bit_vector)
        requires
            u == hundredths as u32,
    ;
}

/// Button events: for every state byte `s` (and whatever bytes follow), a
/// button event `[1, s]` reads as button A and `[2, s]` as button B, pressed
/// exactly when `s` is non-zero; other button ids and shorter payloads are
/// ignored. In particular the event the firmware sends for a button is read
/// back as that button with the same pressed state.
pub proof fn lemma_button_read(id: u8, s: u8, rest: Seq<u8>, evt: ButtonEvent)
    ensures
        sensor_update_spec(CMD_BTN_EVENT, seq![1u8, s] + rest) == SensorUpdate::ButtonA(s != 0),
        sensor_update_spec(CMD_BTN_EVENT, seq![2u8, s] + rest) == SensorUpdate::ButtonB(s != 0),
        id != 1 && id != 2 ==> sensor_update_spec(CMD_BTN_EVENT, seq![id, s] + rest)
            == SensorUpdate::Ignored,
        sensor_update_spec(CMD_BTN_EVENT, seq![id]) == SensorUpdate::Ignored,
        sensor_update_spec(CMD_BTN_EVENT, seq![evt.id.spec_code(), evt.pressed as u8])
            == match evt.id {
            ButtonId::A => SensorUpdate::ButtonA(evt.pressed),
            ButtonId::B => SensorUpdate::ButtonB(evt.pressed),
        },
{
    assert((seq![1u8, s] + rest)[0] == 1u8 && (seq![1u8, s] + rest)[1] == s);
    assert((seq![2u8, s] + rest)[0] == 2u8 && (seq![2u8, s] + rest)[1] == s);
    assert((seq![id, s] + rest)[0] == id && (seq![id, s] + rest)[1] == s);
}

/// Read a received frame for the sensor panel.
pub fn sensor_update(cmd: u8, payload: &[u8]) -> (u: SensorUpdate)
    ensures
        u == sensor_update_spec(cmd, payload@),
{
    if cmd == CMD_PONG {
        SensorUpdate::Pong
    } else if cmd == CMD_TEMP_RESP {
        if payload.len() >= 4 {
            SensorUpdate::TemperatureHundredths(
                read_i32(payload[0], payload[1], payload[2], payload[3]),
            )
        } else if payload.len() >= 2 {
            SensorUpdate::TemperatureHundredths(read_i16(payload[0], payload[1]) as i32)
        } else if payload.len() == 1 {
            SensorUpdate::TemperatureWhole(payload[0] as i8)
        } else {
            SensorUpdate::Ignored
        }
    } else if cmd == CMD_BTN_EVENT && payload.len() >= 2 {
        if payload[0] == 1 {
            SensorUpdate::ButtonA(payload[1] != 0)
        } else if payload[0] == 2 {
            SensorUpdate::ButtonB(payload[1] != 0)
        } else {
            SensorUpdate::Ignored
        }
    } else {
        SensorUpdate::Ignored
    }
}

/// What the motion panel takes from a received frame: raw axes (x, y, z).
#[derive(Clone, Copy, Debug, PartialEq, Eq)]
pub enum MotionUpdate {
    /// Accelerometer axes in 0.01g
    Accel(i16, i16, i16),
    /// Magnetometer axes in 0.1uT
    Magnet(i16, i16, i16),
    /// Nothing for this panel
    Ignored,
}

/// How the motion panel reads a frame: accelerometer or magnetometer data with
/// at least 6 bytes, as 3 little-endian `i16`.
pub open spec fn motion_update_spec(cmd: u8, p: Seq<u8>) -> MotionUpdate {
    if cmd == CMD_ACCEL_DATA && p.len() >= 6 {
        MotionUpdate::Accel(le_i16(p[0], p[1]), le_i16(p[2], p[3]), le_i16(p[4], p[5]))
    } else if cmd == CMD_MAGNET_DATA && p.len() >= 6 {
        MotionUpdate::Magnet(le_i16(p[0], p[1]), le_i16(p[2], p[3]), le_i16(p[4], p[5]))
    } else {
        MotionUpdate::Ignored
    }
}

/// Read a received frame for the motion panel.
pub fn motion_update(cmd: u8, payload: &[u8]) -> (u: MotionUpdate)
    ensures
        u == motion_update_spec(cmd, payload@),
{
    if payload.len() < 6 {
        return MotionUpdate::Ignored;
    }
    let x = read_i16(payload[0], payload[1]);
    let y = read_i16(payload[2], payload[3]);
    let z = read_i16(payload[4], payload[5]);
    if cmd == CMD_ACCEL_DATA {
        MotionUpdate::Accel(x, y, z)
    } else if cmd == CMD_MAGNET_DATA {
        MotionUpdate::Magnet(x, y, z)
    } else {
        MotionUpdate::Ignored
    }
}

} // verus!
