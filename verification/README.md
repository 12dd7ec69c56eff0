# microbit_ble

A verified library for a micro:bit V2 BLE peripheral and its Web Bluetooth
console. Frames travel over the Nordic UART Service as
`[0xAA, CMD, LEN, PAYLOAD..., CRC8]`, with CRC-8 (polynomial 0x07, initial
value 0x00) over CMD, LEN and the payload.

- `src/protocol.rs`: the frame format, CRC-8, the parsers and builders, the
  command codes, and the laws that tie them together (built frames parse back,
  parsers accept nothing else, a corrupted CRC is rejected).
- `src/ble/`: the firmware's logic: the shared device state, command dispatch
  (`commands::handle_rx`), the LED matrix, buttons, touch debouncing, motion
  sensor conversions, tone timing, the NUS and battery characteristic values.
- `src/web/`: the console's logic: protocol helpers, connection state, the
  communication log and the panels' requests and frame readings.
- `src/server.rs`: request routing (method, target, query), URL decoding,
  path splitting below the web root under Unix or Windows path rules (refusing
  `..`, and under Windows rules a root or prefix at the start), content types
  and response headers of the static file server.
- `src/ambient.rs`: the ambient light demo's animation state.
- `src/text.rs`: verified decimal and hexadecimal digit builders, and the hex
  crate's `encode` behind a trusted wrapper.
- `app/`: the programs around the library: the static file server (host), the
  embassy/SoftDevice firmware (`target_os = "none"`), the ambient demo
  (`--cfg ambient_demo`) and the Leptos console (`wasm32`).
