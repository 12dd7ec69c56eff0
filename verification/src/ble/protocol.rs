//! Binary protocol encode/decode as built into the firmware (no heap allocation).
//!
//! Frame format: `[SOF 0xAA, CMD, LEN, ...PAYLOAD, CRC8]`, CRC-8 (poly 0x07,
//! init 0x00) over CMD + LEN + PAYLOAD. The decisions are those of
//! `crate::protocol`, whose specification this module shares.
use vstd::prelude::*;

use crate::protocol as shared;
use crate::protocol::{frame_bytes, parse_result, spec_crc8};
/// Maximum payload length
pub use crate::protocol::MAX_PAYLOAD;

verus! {

/// Frame start byte
pub const SOF: u8 = 0xAA;

/// Maximum total frame length = SOF(1) + CMD(1) + LEN(1) + PAYLOAD + CRC(1)
pub const MAX_FRAME_LEN: usize = 64;

/// Ping request (no payload)
pub const CMD_PING: u8 = 0x01;

/// LED matrix set (payload: 25 bytes brightness, 0=off 1=on)
pub const CMD_LED_SET: u8 = 0x02;

/// LED clear (no payload)
pub const CMD_LED_CLEAR: u8 = 0x03;

/// Display a character (payload: 1 byte ASCII)
pub const CMD_LED_CHAR: u8 = 0x04;

/// Read chip temperature (no payload, responds with `CMD_TEMP_RESP`)
pub const CMD_TEMP_GET: u8 = 0x05;

/// Subscribe to button events (payload: 1 byte, 0=unsubscribe 1=subscribe)
pub const CMD_BTN_SUBSCRIBE: u8 = 0x06;

/// Echo (payload: arbitrary bytes, responds with `CMD_ECHO_RESP`)
pub const CMD_ECHO: u8 = 0x07;

/// Ping response (no payload)
pub const CMD_PONG: u8 = 0x81;

/// LED operation acknowledgement (payload: 1 byte status, 0=OK)
pub const CMD_LED_ACK: u8 = 0x82;

/// Temperature response (payload: 4 bytes i32 LE, unit 0.01 degC)
pub const CMD_TEMP_RESP: u8 = 0x85;

/// Echo response (payload: same as request)
pub const CMD_ECHO_RESP: u8 = 0x87;

/// Button event notification (payload: [btn_id, state])
pub const CMD_BTN_EVENT: u8 = 0x90;

/// Error response (payload: 1 byte error code)
pub const CMD_ERROR: u8 = 0xFF;

pub const ERR_BAD_FRAME: u8 = 0x01;

pub const ERR_BAD_CRC: u8 = 0x02;

pub const ERR_UNKNOWN_CMD: u8 = 0x03;

pub const ERR_BAD_PAYLOAD: u8 = 0x04;

/// Parsed command frame (zero-copy reference to payload)
#[derive(Debug, Clone, Copy, PartialEq, Eq)]
pub struct Frame<'a> {
    pub cmd: u8,
    pub payload: &'a [u8],
}

/// Frame parse error
#[derive(Debug, Clone, Copy, PartialEq, Eq)]
pub enum ParseError {
    /// Frame too short to form a complete frame
    TooShort,
    /// Incorrect frame start byte
    BadSof,
    /// Length field exceeds MAX_PAYLOAD
    PayloadTooLong,
    /// CRC check failed
    BadCrc,
}

/// The firmware's error for each error of the shared parser.
pub open spec fn local_error(e: shared::ParseError) -> ParseError {
    match e {
        shared::ParseError::TooShort => ParseError::TooShort,
        shared::ParseError::BadSof => ParseError::BadSof,
        shared::ParseError::PayloadTooLong => ParseError::PayloadTooLong,
        shared::ParseError::BadCrc => ParseError::BadCrc,
    }
}

/// Calculate CRC-8 (polynomial 0x07, initial value 0x00)
pub fn crc8(data: &[u8]) -> (crc: u8)
    ensures
        crc == spec_crc8(data@),
{
    shared::crc8(data)
}

/// Parse one frame. Returns `Frame` on success, `ParseError` on failure
pub fn parse_frame(buf: &[u8]) -> (r: Result<Frame<'_>, ParseError>)
    ensures
        match r {
            Ok(f) => parse_result(buf@) == Ok::<(u8, Seq<u8>), shared::ParseError>(
                (f.cmd, f.payload@),
            ),
            Err(e) => parse_result(buf@) matches Err(se) && e == local_error(se),
        },
{
    match shared::parse_frame(buf) {
        Ok(f) => Ok(Frame { cmd: f.cmd, payload: f.payload }),
        Err(e) => Err(
            match e {
                shared::ParseError::TooShort => ParseError::TooShort,
                shared::ParseError::BadSof => ParseError::BadSof,
                shared::ParseError::PayloadTooLong => ParseError::PayloadTooLong,
                shared::ParseError::BadCrc => ParseError::BadCrc,
            },
        ),
    }
}

/// Encode one frame into `out` buffer, return number of bytes written
///
/// Returns None if payload is too long or out capacity is insufficient.
pub fn build_frame(cmd: u8, payload: &[u8], out: &mut [u8]) -> (r: Option<usize>)
    ensures
        payload@.len() > MAX_PAYLOAD || old(out)@.len() < 4 + payload@.len() ==> r is None
            && final(out)@ == old(out)@,
        payload@.len() <= MAX_PAYLOAD && old(out)@.len() >= 4 + payload@.len() ==> r == Some(
            (4 + payload@.len()) as usize,
        ) && final(out)@ == frame_bytes(cmd, payload@) + old(out)@.subrange(
            4 + payload@.len() as int,
            old(out)@.len() as int,
        ),
{
    shared::build_frame(cmd, payload, out)
}

} // verus!
