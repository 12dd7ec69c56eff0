use microbit_ble::protocol::{
    build_frame, build_frame_vec, crc8, parse_frame, parse_frame_vec, to_hex, Command,
    ParseError, CMD_ECHO, CMD_PING, MAX_FRAME_LEN, MAX_PAYLOAD, SOF,
};

#[test]
fn lib_test_crc8_known() {
    // CRC-8/CCITT (poly 0x07) of "123456789" = 0xF4
    assert_eq!(crc8(b"123456789"), 0xF4);
}

#[test]
fn lib_test_roundtrip() {
    let payload = b"hello";
    let mut buf = [0u8; 64];
    let n = build_frame(CMD_ECHO, payload, &mut buf).unwrap();
    let frame = parse_frame(&buf[..n]).unwrap();
    assert_eq!(frame.cmd, CMD_ECHO);
    assert_eq!(frame.payload, payload);
}

#[test]
fn lib_test_bad_crc() {
    let payload = b"hi";
    let mut buf = [0u8; 16];
    let n = build_frame(CMD_PING, payload, &mut buf).unwrap();
    buf[n - 1] ^= 0xFF;
    assert_eq!(parse_frame(&buf[..n]), Err(ParseError::BadCrc));
}

#[test]
fn test_build_frame_payload_too_long() {
    let payload = [0u8; MAX_PAYLOAD + 1];
    let mut buf = [0u8; MAX_FRAME_LEN + 1];
    assert!(build_frame(0x01, &payload, &mut buf).is_none());
}

#[test]
fn test_parse_frame_too_short() {
    assert_eq!(parse_frame(&[SOF, 0x01]), Err(ParseError::TooShort));
}

#[test]
fn test_parse_frame_bad_sof() {
    assert_eq!(
        parse_frame(&[0x00, 0x01, 0x00, 0x00]),
        Err(ParseError::BadSof)
    );
}

#[test]
fn crc8_of_empty_is_zero() {
    assert_eq!(crc8(&[]), 0x00);
}

#[test]
fn crc8_of_ping_header() {
    assert_eq!(crc8(&[0x01, 0x00]), 0x15);
}

#[test]
fn build_frame_exact_bytes() {
    let mut buf = [0xEEu8; 8];
    let n = build_frame(0x07, &[0x41, 0x42], &mut buf).unwrap();
    assert_eq!(n, 6);
    let crc = crc8(&[0x07, 0x02, 0x41, 0x42]);
    assert_eq!(&buf[..6], &[SOF, 0x07, 0x02, 0x41, 0x42, crc]);
    // bytes after the frame are left as they were
    assert_eq!(&buf[6..], &[0xEE, 0xEE]);
}

#[test]
fn build_frame_buffer_too_small_leaves_it_unchanged() {
    let mut buf = [0x11u8; 5];
    assert_eq!(build_frame(0x07, &[1, 2], &mut buf), None);
    assert_eq!(buf, [0x11u8; 5]);
}

#[test]
fn build_frame_max_payload_fits_max_frame() {
    let payload = [0x5Au8; MAX_PAYLOAD];
    let mut buf = [0u8; MAX_FRAME_LEN];
    assert_eq!(build_frame(0x07, &payload, &mut buf), Some(MAX_FRAME_LEN));
    let f = parse_frame(&buf).unwrap();
    assert_eq!(f.payload, &payload[..]);
}

#[test]
fn parse_frame_payload_too_long() {
    assert_eq!(
        parse_frame(&[SOF, 0x07, 61, 0, 0, 0]),
        Err(ParseError::PayloadTooLong)
    );
}

#[test]
fn parse_frame_truncated_payload_is_too_short() {
    assert_eq!(parse_frame(&[SOF, 0x07, 5, 1, 2]), Err(ParseError::TooShort));
}

#[test]
fn parse_frame_ignores_trailing_padding() {
    let mut buf = [0u8; 64];
    let n = build_frame(0x01, &[], &mut buf).unwrap();
    assert_eq!(n, 4);
    let f = parse_frame(&buf).unwrap();
    assert_eq!(f.cmd, 0x01);
    assert!(f.payload.is_empty());
}

#[test]
fn corrupting_any_crc_value_is_rejected() {
    let mut buf = [0u8; 8];
    let n = build_frame(0x07, &[9, 8, 7], &mut buf).unwrap();
    let good = buf[n - 1];
    for bad in 0..=255u8 {
        if bad == good {
            continue;
        }
        buf[n - 1] = bad;
        assert_eq!(parse_frame(&buf[..n]), Err(ParseError::BadCrc));
        assert_eq!(parse_frame_vec(&buf[..n]), None);
    }
}

#[test]
fn build_frame_vec_matches_build_frame() {
    let payload = b"abc";
    let mut buf = [0u8; 7];
    build_frame(0x0D, payload, &mut buf).unwrap();
    assert_eq!(build_frame_vec(0x0D, payload).unwrap(), buf.to_vec());
}

#[test]
fn build_frame_vec_too_long_message() {
    let payload = [0u8; 61];
    assert_eq!(
        build_frame_vec(0x01, &payload),
        Err("Payload too long: 61 > 60".to_string())
    );
}

#[test]
fn parse_frame_vec_roundtrip_and_long_length() {
    let frame = build_frame_vec(0x07, b"xyz").unwrap();
    assert_eq!(parse_frame_vec(&frame), Some((0x07, b"xyz".to_vec())));
    // parse_frame_vec does not bound LEN by MAX_PAYLOAD
    let payload = [3u8; 70];
    let mut raw = vec![SOF, 0x07, 70];
    raw.extend_from_slice(&payload);
    let mut crc_input = vec![0x07, 70];
    crc_input.extend_from_slice(&payload);
    raw.push(crc8(&crc_input));
    assert_eq!(parse_frame_vec(&raw), Some((0x07, payload.to_vec())));
    assert_eq!(parse_frame(&raw), Err(ParseError::PayloadTooLong));
}

#[test]
fn parse_frame_vec_rejections() {
    assert_eq!(parse_frame_vec(&[SOF, 1, 0]), None);
    assert_eq!(parse_frame_vec(&[0x00, 1, 0, 0]), None);
    assert_eq!(parse_frame_vec(&[SOF, 1, 3, 0]), None);
}

#[test]
fn command_codes_roundtrip() {
    let all = [
        Command::Ping,
        Command::LedSet,
        Command::LedClear,
        Command::LedChar,
        Command::TempGet,
        Command::BtnSubscribe,
        Command::Echo,
        Command::SoundPlay,
        Command::SoundStop,
        Command::AccelSubscribe,
        Command::MagnetSubscribe,
        Command::LedBrightness,
        Command::LedScroll,
        Command::TouchSubscribe,
        Command::Pong,
        Command::LedAck,
        Command::TempResp,
        Command::SoundAck,
        Command::EchoResp,
        Command::AccelData,
        Command::MagnetData,
        Command::LedBrightnessAck,
        Command::LedScrollAck,
        Command::BtnEvent,
        Command::TouchEvent,
        Command::Error,
    ];
    for c in all {
        assert_eq!(Command::try_from(c.code()), Ok(c));
    }
    assert_eq!(Command::SoundPlay.code(), 0x08);
    assert_eq!(Command::TouchEvent.code(), 0x91);
    assert_eq!(Command::try_from(0x42u8), Err("Unknown command"));
}

#[test]
fn to_hex_format() {
    assert_eq!(to_hex(&[]), "");
    assert_eq!(to_hex(&[0x0A]), "0a");
    assert_eq!(to_hex(&[0xAA, 0x01, 0x00, 0xFF]), "aa 01 00 ff");
}
