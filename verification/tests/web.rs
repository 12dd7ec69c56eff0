use microbit_ble::web::ble::{BleConnectionState, ConnectionFlags};
use microbit_ble::web::comm_log::{push_entry, LogEntry, LogEntryType, MAX_LOG_ENTRIES};
use microbit_ble::web::panels::{
    char_request, echo_text, melody_schedule, motion_update, note_freq, scroll_request, sensor_update,
    tone_request, LedEditor, MotionUpdate, ScheduledNote, SensorUpdate,
};
use microbit_ble::web::utils::{build_frame, crc8, parse_frame, to_hex, Command};

#[test]
fn test_build_and_parse_roundtrip() {
    let cmd = Command::Ping.code();
    let payload: [u8; 0] = [];
    let frame = build_frame(cmd, &payload).unwrap();
    let parsed = parse_frame(&frame).unwrap();
    assert_eq!(parsed.0, cmd);
    assert_eq!(parsed.1, payload);
}

#[test]
fn test_build_frame_too_long() {
    let payload = [0u8; 61];
    assert!(build_frame(0x01, &payload).is_err());
}

#[test]
fn test_crc8() {
    // Ping header: CMD=0x01, LEN=0, no payload. CRC-8 with polynomial 0x07 and
    // initial value 0 (check value 0xF4 for "123456789", as the firmware uses)
    // gives 0x15 here; it must equal what the firmware computes.
    let input = [0x01, 0x00];
    let crc = crc8(&input);
    assert_eq!(crc, 0x15);
    assert_eq!(crc, microbit_ble::ble::protocol::crc8(&input));
}

#[test]
fn web_crc_matches_firmware() {
    assert_eq!(crc8(b"123456789"), 0xF4);
    assert_eq!(crc8(&[0x01, 0x00]), microbit_ble::ble::protocol::crc8(&[0x01, 0x00]));
}

#[test]
fn web_command_codes() {
    assert_eq!(Command::try_from(0x90u8), Ok(Command::BtnEvent));
    assert_eq!(Command::try_from(0x08u8), Err("Unknown command"));
    assert_eq!(Command::Error.code(), 0xFF);
    assert_eq!(to_hex(&[1, 0xAB]), "01 ab");
}

#[test]
fn connection_flags() {
    let mut f = ConnectionFlags::new();
    assert!(f.can_connect());
    assert_eq!(f.shown_state(), BleConnectionState::Disconnected);
    assert!(!f.on_state_change(BleConnectionState::Connecting));
    assert!(!f.can_connect());
    assert_eq!(f.shown_state(), BleConnectionState::Connecting);
    assert!(!f.on_state_change(BleConnectionState::Connected));
    assert_eq!(f.shown_state(), BleConnectionState::Connected);
    assert!(f.on_state_change(BleConnectionState::Disconnected));
    assert!(f.can_connect());
    f.connecting = true;
    f.on_connect_failed();
    assert!(!f.connecting);
}

#[test]
fn log_time_and_classes() {
    // 1970-01-02 01:02:03.004
    let ts: u128 = ((86400 + 3600 + 120 + 3) * 1000 + 4) as u128;
    let e = LogEntry::new(ts, LogEntryType::Tx, "x".to_string(), None);
    assert_eq!(e.format_time(), "01:02:03.004");
    assert_eq!(e.type_class(), "tx");
    let e = LogEntry::new(999, LogEntryType::Error, String::new(), Some(vec![1]));
    assert_eq!(e.format_time(), "00:00:00.999");
    assert_eq!(e.type_class(), "err");
    assert_eq!(LogEntry::new(0, LogEntryType::Rx, String::new(), None).type_class(), "rx");
    assert_eq!(LogEntry::new(0, LogEntryType::Info, String::new(), None).type_class(), "info");
}

#[test]
fn log_keeps_last_500() {
    let mut logs = Vec::new();
    for i in 0..(MAX_LOG_ENTRIES as u128 + 3) {
        push_entry(&mut logs, LogEntry::new(i, LogEntryType::Info, String::new(), None));
    }
    assert_eq!(logs.len(), MAX_LOG_ENTRIES);
    assert_eq!(logs[0].timestamp, 3);
    assert_eq!(logs[MAX_LOG_ENTRIES - 1].timestamp, MAX_LOG_ENTRIES as u128 + 2);
}

#[test]
fn led_editor_modes() {
    let mut e = LedEditor::new();
    e.toggle_led(3);
    let r = e.apply_request();
    assert_eq!(r.cmd, 0x02);
    let mut expected = vec![0u8; 25];
    expected[3] = 1;
    assert_eq!(r.payload, expected);
    e.set_brightness_level(77);
    e.toggle_brightness_mode();
    assert!(e.brightness_mode);
    assert_eq!(e.led_brightness[3], 77);
    assert_eq!(e.led_brightness[4], 0);
    e.toggle_led(3);
    assert_eq!(e.led_brightness[3], 0);
    let r = e.all_on();
    assert_eq!(r.cmd, 0x0C);
    assert_eq!(r.payload, vec![77u8; 25]);
    let r = e.clear_all();
    assert_eq!(r.cmd, 0x03);
    assert!(r.payload.is_empty());
    assert_eq!(e.led_brightness, [0u8; 25]);
    e.toggle_led(0);
    e.toggle_brightness_mode();
    assert!(e.led_state[0]);
    assert!(!e.led_state[3]);
    let r = e.all_on();
    assert_eq!(r.cmd, 0x02);
    assert_eq!(r.payload, vec![1u8; 25]);
}

#[test]
fn panel_requests() {
    let r = char_request('B');
    assert_eq!((r.cmd, r.payload), (0x04, vec![b'B']));
    assert!(scroll_request(b"").is_none());
    let long = [b'x'; 70];
    let r = scroll_request(&long).unwrap();
    assert_eq!(r.cmd, 0x0D);
    assert_eq!(r.payload.len(), 60);
    let t = tone_request(440, 500);
    assert_eq!((t.cmd, t.payload), (0x08, vec![0xB8, 0x01, 0xF4, 0x01]));
}

#[test]
fn melody() {
    assert_eq!(note_freq(0), 262);
    assert_eq!(note_freq(12), 523);
    assert_eq!(note_freq(13), 440);
    let s = melody_schedule(&[(0, 300), (4, 300), (99, 500)]);
    assert_eq!(
        s,
        vec![
            ScheduledNote { delay_ms: 0, freq: 262, duration_ms: 300 },
            ScheduledNote { delay_ms: 380, freq: 330, duration_ms: 300 },
            ScheduledNote { delay_ms: 1160, freq: 440, duration_ms: 500 },
        ]
    );
}

#[test]
fn sensor_and_motion_frames() {
    assert_eq!(sensor_update(0x81, &[]), SensorUpdate::Pong);
    assert_eq!(sensor_update(0x85, &[0xDD, 0x09, 0, 0]), SensorUpdate::TemperatureHundredths(2525));
    assert_eq!(sensor_update(0x85, &[0xFB]), SensorUpdate::TemperatureWhole(-5));
    assert_eq!(
        sensor_update(0x85, &40000i32.to_le_bytes()),
        SensorUpdate::TemperatureHundredths(40000)
    );
    assert_eq!(
        sensor_update(0x85, &(-1234i32).to_le_bytes()),
        SensorUpdate::TemperatureHundredths(-1234)
    );
    assert_eq!(sensor_update(0x85, &[0x2E, 0xFB]), SensorUpdate::TemperatureHundredths(-1234));
    assert_eq!(sensor_update(0x85, &[]), SensorUpdate::Ignored);
    assert_eq!(sensor_update(0x90, &[1, 1]), SensorUpdate::ButtonA(true));
    assert_eq!(sensor_update(0x90, &[2, 0]), SensorUpdate::ButtonB(false));
    assert_eq!(sensor_update(0x90, &[3, 1]), SensorUpdate::Ignored);
    assert_eq!(sensor_update(0x90, &[1]), SensorUpdate::Ignored);
    assert_eq!(
        motion_update(0x8A, &[1, 0, 0xFF, 0xFF, 0, 1]),
        MotionUpdate::Accel(1, -1, 256)
    );
    assert_eq!(motion_update(0x8B, &[0, 0x80, 0, 0, 0xFF, 0x7F]), MotionUpdate::Magnet(-32768, 0, 32767));
    assert_eq!(motion_update(0x8A, &[1, 0]), MotionUpdate::Ignored);
    assert_eq!(motion_update(0x01, &[0; 6]), MotionUpdate::Ignored);
}

#[test]
fn temperature_reply_read_back_by_sensor_panel() {
    // 200000 quarters = 5000000 hundredths lies beyond the 16-bit range.
    for quarters in [101i32, -8, 1600, 200_000] {
        let reply = microbit_ble::ble::commands::temperature_response(Some(quarters)).unwrap();
        let (cmd, payload) = parse_frame(reply.as_slice()).unwrap();
        assert_eq!(sensor_update(cmd, &payload), SensorUpdate::TemperatureHundredths(quarters * 25));
    }
}

#[test]
fn echo_text_shows_text_or_hex() {
    assert_eq!(echo_text(b"hello"), "hello");
    assert_eq!(echo_text("caf\u{e9}".as_bytes()), "caf\u{e9}");
    assert_eq!(echo_text(&[]), "");
    assert_eq!(echo_text(&[0xFF, 0x00, 0xAB]), "(hex) ff00ab");
    // an encoded surrogate is not valid UTF-8
    assert_eq!(echo_text(&[0xED, 0xA0, 0x80]), "(hex) eda080");
}

#[test]
fn log_line_text() {
    // 01:02:03.004 after midnight
    let ts: u128 = ((3600 + 2 * 60 + 3) * 1000 + 4) as u128;
    let e = LogEntry::new(ts, LogEntryType::Tx, "Ping".to_string(), Some(vec![0xAA, 0x01, 0x00, 0x15]));
    assert_eq!(e.line_text(false), "[01:02:03.004] Ping [aa010015]");
    assert_eq!(e.line_text(true), "[01:02:03.004] aa010015");
    let n = LogEntry::new(ts, LogEntryType::Info, "Connected".to_string(), None);
    assert_eq!(n.line_text(false), "[01:02:03.004] Connected");
    assert_eq!(n.line_text(true), "[01:02:03.004] Connected");
}
