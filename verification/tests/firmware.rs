use microbit_ble::ble::buttons::{self, button_edge, ButtonEvent, ButtonId};
use microbit_ble::ble::commands::{
    encode_accel_data, encode_button_event, encode_magnet_data, encode_touch_event, handle_rx,
    temperature_response, Response, RxOutcome,
};
use microbit_ble::ble::led_matrix::{
    blank_frame, clear_frame, finish_scroll, font_5x5, is_scrolling, led_lit,
    set_brightness_from_bytes, set_frame_bitmap, set_frame_from_bytes, show_char, start_scroll,
    LedMatrix,
};
use microbit_ble::ble::motion::{
    accel_from_registers, is_accel_subscribed, is_magnet_subscribed, magnet_from_registers,
    poll_interval_ms, AccelData, MagnetData,
};
use microbit_ble::ble::nus::{NusService, NusServiceEvent};
use microbit_ble::ble::protocol::{
    build_frame, crc8, parse_frame, ParseError, CMD_ECHO, CMD_PING,
};
use microbit_ble::ble::sound::{self, begin_tone, is_playing, ToneCommand};
use microbit_ble::ble::touch::{self, TouchEvent, TouchId, TouchState};
use microbit_ble::ble::battery::BatteryService;
use microbit_ble::ble::{
    disconnect, forward_button_event, is_advertising, on_connected, start_advertising,
    stop_advertising, take_disconnect_request, BleConfig, DeviceState,
};
use microbit_ble::protocol::build_frame_vec;

#[test]
fn protocol_test_crc8_known() {
    // CRC-8/CCITT (poly 0x07) of "123456789" = 0xF4
    assert_eq!(crc8(b"123456789"), 0xF4);
}

#[test]
fn protocol_test_roundtrip() {
    let payload = b"hello";
    let mut buf = [0u8; 64];
    let n = build_frame(CMD_ECHO, payload, &mut buf).unwrap();
    let frame = parse_frame(&buf[..n]).unwrap();
    assert_eq!(frame.cmd, CMD_ECHO);
    assert_eq!(frame.payload, payload);
}

#[test]
fn protocol_test_bad_crc() {
    let payload = b"hi";
    let mut buf = [0u8; 16];
    let n = build_frame(CMD_PING, payload, &mut buf).unwrap();
    buf[n - 1] ^= 0xFF;
    assert_eq!(parse_frame(&buf[..n]), Err(ParseError::BadCrc));
}

fn frame(cmd: u8, payload: &[u8]) -> Vec<u8> {
    build_frame_vec(cmd, payload).unwrap()
}

fn reply(out: RxOutcome) -> Vec<u8> {
    match out {
        RxOutcome::Reply(Some(r)) => r.as_slice().to_vec(),
        _ => panic!("expected a reply"),
    }
}

#[test]
fn handle_rx_ping_pong() {
    let mut dev = DeviceState::new();
    let out = handle_rx(&mut dev, &frame(0x01, &[]));
    assert_eq!(reply(out), frame(0x81, &[]));
}

#[test]
fn handle_rx_echo_with_nus_padding() {
    let mut dev = DeviceState::new();
    let mut rx = [0u8; 64];
    let f = frame(0x07, b"hello");
    rx[..f.len()].copy_from_slice(&f);
    let out = handle_rx(&mut dev, &rx);
    assert_eq!(reply(out), frame(0x87, b"hello"));
}

#[test]
fn handle_rx_bad_crc_and_bad_frame() {
    let mut dev = DeviceState::new();
    let mut f = frame(0x01, &[]);
    let last = f.len() - 1;
    f[last] ^= 0x55;
    assert_eq!(reply(handle_rx(&mut dev, &f)), frame(0xFF, &[0x02]));
    assert_eq!(reply(handle_rx(&mut dev, &[0x00, 1, 0, 0])), frame(0xFF, &[0x01]));
    assert_eq!(reply(handle_rx(&mut dev, &[0xAA])), frame(0xFF, &[0x01]));
}

#[test]
fn handle_rx_unknown_command() {
    let mut dev = DeviceState::new();
    assert_eq!(reply(handle_rx(&mut dev, &frame(0x42, &[1]))), frame(0xFF, &[0x03]));
}

#[test]
fn handle_rx_bad_payload_lengths() {
    let mut dev = DeviceState::new();
    for (cmd, len) in [(0x02u8, 24usize), (0x04, 0), (0x06, 2), (0x08, 3), (0x0A, 0), (0x0B, 2), (0x0C, 26), (0x0E, 0), (0x0D, 0)] {
        let payload = vec![1u8; len];
        assert_eq!(reply(handle_rx(&mut dev, &frame(cmd, &payload))), frame(0xFF, &[0x04]));
    }
    assert!(!buttons::is_subscribed(&dev));
}

#[test]
fn handle_rx_led_set_lights_nonzero_bytes() {
    let mut dev = DeviceState::new();
    let mut payload = [0u8; 25];
    payload[0] = 1;
    payload[7] = 9;
    payload[24] = 255;
    assert_eq!(reply(handle_rx(&mut dev, &frame(0x02, &payload))), frame(0x82, &[0]));
    assert!(led_lit(&dev.matrix, 0, 0, 0));
    assert!(led_lit(&dev.matrix, 1, 2, 0));
    assert!(led_lit(&dev.matrix, 4, 4, 0));
    assert!(!led_lit(&dev.matrix, 0, 1, 0));
}

#[test]
fn handle_rx_subscriptions_and_sound() {
    let mut dev = DeviceState::new();
    handle_rx(&mut dev, &frame(0x06, &[1]));
    handle_rx(&mut dev, &frame(0x0E, &[1]));
    handle_rx(&mut dev, &frame(0x0A, &[1]));
    handle_rx(&mut dev, &frame(0x0B, &[0]));
    assert!(buttons::is_subscribed(&dev));
    assert!(touch::is_subscribed(&dev));
    assert!(is_accel_subscribed(&dev));
    assert!(!is_magnet_subscribed(&dev));
    let out = handle_rx(&mut dev, &frame(0x08, &[0xB8, 0x01, 0xF4, 0x01]));
    assert_eq!(reply(out), frame(0x88, &[0]));
    match sound::take_tone_request(&mut dev) {
        Some(ToneCommand::Play { freq_hz, duration_ms }) => {
            assert_eq!(freq_hz, 440);
            assert_eq!(duration_ms, 500);
        }
        _ => panic!("expected a tone"),
    }
    handle_rx(&mut dev, &frame(0x09, &[]));
    assert!(matches!(sound::take_tone_request(&mut dev), Some(ToneCommand::Stop)));
}

#[test]
fn handle_rx_temperature() {
    let mut dev = DeviceState::new();
    assert!(matches!(handle_rx(&mut dev, &frame(0x05, &[])), RxOutcome::ReadTemperature));
    // 25.25 degC = 101 quarters = 2525 hundredths
    let r = temperature_response(Some(101)).unwrap();
    assert_eq!(r.as_slice().to_vec(), frame(0x85, &2525i32.to_le_bytes()));
    let r = temperature_response(Some(-8)).unwrap();
    assert_eq!(r.as_slice().to_vec(), frame(0x85, &(-200i32).to_le_bytes()));
    let e = temperature_response(None).unwrap();
    assert_eq!(e.as_slice().to_vec(), frame(0xFF, &[0xFE]));
}

#[test]
fn handle_rx_scroll_and_clear() {
    let mut dev = DeviceState::new();
    handle_rx(&mut dev, &frame(0x0D, b"Hi!"));
    assert!(!is_scrolling(&dev.matrix));
    let text = start_scroll(&mut dev.matrix).unwrap();
    assert_eq!(text, b"Hi!".to_vec());
    assert!(is_scrolling(&dev.matrix));
    assert!(start_scroll(&mut dev.matrix).is_none());
    finish_scroll(&mut dev.matrix);
    assert!(!is_scrolling(&dev.matrix));
    handle_rx(&mut dev, &frame(0x04, b"1"));
    assert!(led_lit(&dev.matrix, 0, 2, 0));
    handle_rx(&mut dev, &frame(0x03, &[]));
    for r in 0..5 {
        for c in 0..5 {
            assert!(!led_lit(&dev.matrix, r, c, 0));
        }
    }
}

#[test]
fn response_new_and_build() {
    assert!(Response::new().as_slice().is_empty());
    assert!(Response::build(0x87, &[0u8; 61]).is_none());
    let r = Response::build(0x87, &[1, 2]).unwrap();
    assert_eq!(r.as_slice().to_vec(), frame(0x87, &[1, 2]));
}

#[test]
fn encode_events() {
    let b = encode_button_event(ButtonEvent { id: ButtonId::B, pressed: true }).unwrap();
    assert_eq!(b.as_slice().to_vec(), frame(0x90, &[2, 1]));
    let t = encode_touch_event(TouchEvent { id: TouchId::Pin2, pressed: false }).unwrap();
    assert_eq!(t.as_slice().to_vec(), frame(0x91, &[3, 0]));
    let a = encode_accel_data(AccelData { x: 1, y: -1, z: 256 }).unwrap();
    assert_eq!(a.as_slice().to_vec(), frame(0x8A, &[1, 0, 0xFF, 0xFF, 0, 1]));
    let m = encode_magnet_data(MagnetData { x: -32768, y: 0, z: 32767 }).unwrap();
    assert_eq!(m.as_slice().to_vec(), frame(0x8B, &[0, 0x80, 0, 0, 0xFF, 0x7F]));
}

#[test]
fn led_matrix_operations() {
    let mut m = LedMatrix::new();
    set_frame_bitmap(&mut m, 0xFFFF_FFFF);
    assert!(led_lit(&m, 4, 4, 0));
    set_frame_from_bytes(&mut m, &[0, 1]);
    assert!(!led_lit(&m, 0, 0, 0));
    assert!(led_lit(&m, 0, 1, 0));
    assert!(!led_lit(&m, 4, 4, 0));
    let mut levels = [0u8; 25];
    levels[3] = 100;
    set_brightness_from_bytes(&mut m, &levels);
    assert!(led_lit(&m, 0, 3, 0));
    assert!(led_lit(&m, 0, 3, 3)); // 100 > 96
    assert!(!led_lit(&m, 0, 3, 4)); // 100 <= 128
    assert!(!led_lit(&m, 0, 1, 0));
    clear_frame(&mut m);
    assert!(!led_lit(&m, 0, 3, 0));
    show_char(&mut m, b'?');
    blank_frame(&mut m);
    assert!(!led_lit(&m, 0, 1, 0));
}

#[test]
fn font_glyphs() {
    assert_eq!(font_5x5(b' '), 0);
    // '1': rows 0b00100, 0b01100, 0b00100, 0b00100, 0b01110
    assert_eq!(font_5x5(b'1'), 0b00100 | (0b01100 << 5) | (0b00100 << 10) | (0b00100 << 15) | (0b01110 << 20));
    assert_eq!(font_5x5(b'a'), font_5x5(b'A'));
    // unknown characters show the smiley
    assert_eq!(font_5x5(b'~'), (0b01010 << 5) | (0b10001 << 15) | (0b01110 << 20));
}

#[test]
fn touch_debounce() {
    let mut s = TouchState::new(TouchId::Logo);
    assert!(s.update(true).is_none());
    assert!(s.update(true).is_none());
    let e = s.update(true).unwrap();
    assert_eq!(e.id, TouchId::Logo);
    assert!(e.pressed);
    // a short glitch is ignored
    assert!(s.update(false).is_none());
    assert!(s.update(true).is_none());
    assert!(s.update(false).is_none());
    assert!(s.update(false).is_none());
    assert!(!s.update(false).unwrap().pressed);
}

#[test]
fn button_edges() {
    assert!(button_edge(ButtonId::A, true, true).is_none());
    let e = button_edge(ButtonId::A, true, false).unwrap();
    assert_eq!(e.id, ButtonId::A);
    assert!(e.pressed);
    assert!(!button_edge(ButtonId::B, false, true).unwrap().pressed);
    assert_eq!(ButtonId::A.code(), 1);
    assert_eq!(ButtonId::B.code(), 2);
}

#[test]
fn tone_timing() {
    let mut dev = DeviceState::new();
    assert!(begin_tone(&mut dev, ToneCommand::Play { freq_hz: 0, duration_ms: 100 }).is_none());
    assert!(!is_playing(&dev));
    let t = begin_tone(&mut dev, ToneCommand::Play { freq_hz: 440, duration_ms: 500 }).unwrap();
    assert_eq!(t.half_period_us, 1136);
    assert_eq!(t.cycles, 220);
    assert!(is_playing(&dev));
    assert!(begin_tone(&mut dev, ToneCommand::Stop).is_none());
    assert!(!is_playing(&dev));
}

#[test]
fn motion_conversions() {
    // x = 0x4000 -> 256 after >> 6 -> 1024; y = 0xFFC0 (-64) -> -1 -> -4; z = 0x8000 -> -512 -> -2048
    let a = accel_from_registers(&[0x00, 0x40, 0xC0, 0xFF, 0x00, 0x80]);
    assert_eq!((a.x, a.y, a.z), (1024, -4, -2048));
    // x = 100 -> 150; y = -3 -> -4 (truncated toward zero: -9/2 = -4); z = 32767 -> 49150 wraps
    let m = magnet_from_registers(&[100, 0, 0xFD, 0xFF, 0xFF, 0x7F]);
    assert_eq!((m.x, m.y, m.z), (150, -4, ((32767i32 * 3) / 2) as i16));
    let mut dev = DeviceState::new();
    assert_eq!(poll_interval_ms(&dev), 200);
    microbit_ble::ble::motion::set_magnet_subscribed(&mut dev, true);
    assert_eq!(poll_interval_ms(&dev), 50);
}

#[test]
fn nus_padding_and_events() {
    let mut svc = NusService { rx: [0u8; 64], tx: [7u8; 64] };
    assert_eq!(svc.send(&[1, 2, 3]), Ok(()));
    assert_eq!(&svc.tx[..4], &[1, 2, 3, 0]);
    assert!(svc.tx[3..].iter().all(|&b| b == 0));
    assert_eq!(svc.send(&[0u8; 65]), Err(()));
    assert!(NusService::handle_event(NusServiceEvent::TxCccdWrite { notifications: true }).is_none());
    let mut data = [0u8; 64];
    data[0] = 0xAA;
    let rx = NusService::handle_event(NusServiceEvent::RxWrite(data)).unwrap();
    assert_eq!(rx.as_slice(), &data[..]);
}

#[test]
fn battery_level_clamped() {
    let mut b = BatteryService { level: 0 };
    b.update(250);
    assert_eq!(b.level, 100);
    b.update(42);
    assert_eq!(b.level, 42);
}

#[test]
fn controller_state() {
    let mut dev = DeviceState::new();
    assert!(is_advertising(&dev));
    stop_advertising(&mut dev);
    assert!(!is_advertising(&dev));
    start_advertising(&mut dev);
    assert!(is_advertising(&dev));
    assert!(!take_disconnect_request(&mut dev));
    disconnect(&mut dev);
    assert!(take_disconnect_request(&mut dev));
    assert!(!take_disconnect_request(&mut dev));
    let evt = ButtonEvent { id: ButtonId::A, pressed: true };
    assert!(forward_button_event(&dev, evt).is_none());
    buttons::set_subscribed(&mut dev, true);
    assert_eq!(forward_button_event(&dev, evt).unwrap().as_slice().to_vec(), frame(0x90, &[1, 1]));
    on_connected(&mut dev);
    assert!(!buttons::is_subscribed(&dev));
    let c = BleConfig::default();
    assert_eq!(c.device_name, b"MicroBit-BLE");
    assert_eq!(c.max_connections, 1);
    assert_eq!(c.att_mtu, 64);
}

#[test]
fn firmware_parse_errors() {
    assert_eq!(parse_frame(&[0xAA, 0x01]), Err(ParseError::TooShort));
    assert_eq!(parse_frame(&[0x00, 0x01, 0x00, 0x00]), Err(ParseError::BadSof));
    assert_eq!(parse_frame(&[0xAA, 0x01, 61, 0x00]), Err(ParseError::PayloadTooLong));
    assert_eq!(parse_frame(&[0xAA, 0x01, 2, 0x00]), Err(ParseError::TooShort));
    let mut out = [0u8; 3];
    assert_eq!(build_frame(0x01, &[], &mut out), None);
}
