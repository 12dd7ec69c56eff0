//! Utility module of the web console: protocol constants, CRC calculation,
//! frame encoding/decoding. Exactly consistent with the firmware's protocol.
use vstd::prelude::*;

use crate::protocol::{self as shared, frame_bytes, parse_vec_result, spec_crc8, too_long_message};
use crate::text::hex_text;

verus! {

// Nordic UART Service (NUS) UUID
pub const NUS_SERVICE: &'static str = "6e400001-b5a3-f393-e0a9-e50e24dcca9e";

/// Write direction (Browser -> Board)
pub const NUS_RX_CHAR: &'static str = "6e400002-b5a3-f393-e0a9-e50e24dcca9e";

/// Notify direction (Board -> Browser)
pub const NUS_TX_CHAR: &'static str = "6e400003-b5a3-f393-e0a9-e50e24dcca9e";

/// Command bytes
#[derive(Clone, Copy, Debug, PartialEq, Eq)]
pub enum Command {
    // Host -> Device
    Ping,
    LedSet,
    LedClear,
    LedChar,
    TempGet,
    BtnSubscribe,
    Echo,
    // Device -> Host
    Pong,
    LedAck,
    TempResp,
    EchoResp,
    BtnEvent,
    Error,
}

/// The byte that stands for each command on the wire.
pub open spec fn command_code(c: Command) -> u8 {
    match c {
        Command::Ping => 0x01,
        Command::LedSet => 0x02,
        Command::LedClear => 0x03,
        Command::LedChar => 0x04,
        Command::TempGet => 0x05,
        Command::BtnSubscribe => 0x06,
        Command::Echo => 0x07,
        Command::Pong => 0x81,
        Command::LedAck => 0x82,
        Command::TempResp => 0x85,
        Command::EchoResp => 0x87,
        Command::BtnEvent => 0x90,
        Command::Error => 0xFF,
    }
}

/// The command a byte stands for, or the error text for an unknown byte.
pub open spec fn command_from_byte(value: u8) -> Result<Command, &'static str> {
    if value == 0x01 {
        Ok(Command::Ping)
    } else if value == 0x02 {
        Ok(Command::LedSet)
    } else if value == 0x03 {
        Ok(Command::LedClear)
    } else if value == 0x04 {
        Ok(Command::LedChar)
    } else if value == 0x05 {
        Ok(Command::TempGet)
    } else if value == 0x06 {
        Ok(Command::BtnSubscribe)
    } else if value == 0x07 {
        Ok(Command::Echo)
    } else if value == 0x81 {
        Ok(Command::Pong)
    } else if value == 0x82 {
        Ok(Command::LedAck)
    } else if value == 0x85 {
        Ok(Command::TempResp)
    } else if value == 0x87 {
        Ok(Command::EchoResp)
    } else if value == 0x90 {
        Ok(Command::BtnEvent)
    } else if value == 0xFF {
        Ok(Command::Error)
    } else {
        Err("Unknown command")
    }
}

impl Command {
    /// The byte of this command on the wire.
    pub fn code(self) -> (b: u8)
        ensures
            b == command_code(self),
    {
        match self {
            Command::Ping => 0x01,
            Command::LedSet => 0x02,
            Command::LedClear => 0x03,
            Command::LedChar => 0x04,
            Command::TempGet => 0x05,
            Command::BtnSubscribe => 0x06,
            Command::Echo => 0x07,
            Command::Pong => 0x81,
            Command::LedAck => 0x82,
            Command::TempResp => 0x85,
            Command::EchoResp => 0x87,
            Command::BtnEvent => 0x90,
            Command::Error => 0xFF,
        }
    }
}

impl TryFrom<u8> for Command {
    type Error = &'static str;

    fn try_from(value: u8) -> (r: Result<Self, &'static str>) {
        match value {
            0x01 => Ok(Command::Ping),
            0x02 => Ok(Command::LedSet),
            0x03 => Ok(Command::LedClear),
            0x04 => Ok(Command::LedChar),
            0x05 => Ok(Command::TempGet),
            0x06 => Ok(Command::BtnSubscribe),
            0x07 => Ok(Command::Echo),
            0x81 => Ok(Command::Pong),
            0x82 => Ok(Command::LedAck),
            0x85 => Ok(Command::TempResp),
            0x87 => Ok(Command::EchoResp),
            0x90 => Ok(Command::BtnEvent),
            0xFF => Ok(Command::Error),
            _ => Err("Unknown command"),
        }
    }
}

impl vstd::std_specs::convert::TryFromSpecImpl<u8> for Command {
    open spec fn obeys_try_from_spec() -> bool {
        true
    }

    open spec fn try_from_spec(v: u8) -> Result<Command, &'static str> {
        command_from_byte(v)
    }
}

// Frame format: [SOF(0xAA), CMD, LEN, ...payload, CRC]
pub const SOF: u8 = 0xAA;

pub const MAX_PAYLOAD: usize = 60;

/// CRC-8 calculation (poly 0x07, init 0x00), exactly as the firmware computes it
pub fn crc8(bytes: &[u8]) -> (crc: u8)
    ensures
        crc == spec_crc8(bytes@),
{
    shared::crc8(bytes)
}

/// Build a data frame; `Err` with a message when the payload is too long
pub fn build_frame(cmd: u8, payload: &[u8]) -> (r: Result<Vec<u8>, String>)
    ensures
        payload@.len() <= MAX_PAYLOAD <==> r is Ok,
        r matches Ok(frame) ==> frame@ == frame_bytes(cmd, payload@),
        r matches Err(msg) ==> msg@ == too_long_message(payload@.len()),
{
    shared::build_frame_vec(cmd, payload)
}

/// Parse a received data frame
/// Returns `Some((cmd, payload))` or `None` (parse failed)
pub fn parse_frame(bytes: &[u8]) -> (r: Option<(u8, Vec<u8>)>)
    ensures
        match r {
            Some((cmd, payload)) => parse_vec_result(bytes@) == Some((cmd, payload@)),
            None => parse_vec_result(bytes@) is None,
        },
{
    shared::parse_frame_vec(bytes)
}

/// Convert byte array to hex string
pub fn to_hex(bytes: &[u8]) -> (s: String)
    ensures
        s@ == hex_text(bytes@),
{
    shared::to_hex(bytes)
}

/// The console's commands have the firmware's codes: each console command
/// byte names the same command in the shared protocol.
pub proof fn lemma_codes_match_firmware(v: u8)
    ensures
        command_from_byte(v) is Ok ==> shared::command_from_byte(v) is Ok,
        command_from_byte(v) matches Ok(c) ==> command_code(c) == v,
{
}

} // verus!
