[package]
name = "microbit_ble"
version = "0.1.0"
edition = "2021"
publish = false

[dependencies]
console_error_panic_hook = "=0.1.7"
console_log = "=1.1.0"
cortex-m = "=0.7.10"
cortex-m-rt = "=0.7.7"
critical-section-lock-mut = "=0.1.2"
defmt = "=1.2.0"
defmt-rtt = "=1.3.1"
embassy-executor = "=0.9.1"
embassy-futures = "=0.1.2"
embassy-nrf = { version = "=0.11.0", features = ["nrf52833", "time-driver-rtc1", "gpiote"] }
embassy-sync = "=0.8.0"
embassy-time = "=0.5.1"
gloo-timers = { version = "=0.4.0", features = ["futures"] }
hex = "=0.4.3"
js-sys = "=0.3.107"
leptos = { version = "=0.8.23", features = ["csr"] }
log = "=0.4.35"
microbit-v2 = "=0.16.0"
nrf52833-pac = "=0.12.2"
panic-probe = "=1.0.0"
panic-rtt-target = "=0.2.0"
rtt-target = "=0.6.2"
static_cell = "=2.1.1"
wasm-bindgen = "=0.2.130"
wasm-bindgen-futures = "=0.4.80"
web-sys = { version = "=0.3.107", features = ["Bluetooth", "BluetoothDevice", "BluetoothLeScanFilterInit", "BluetoothRemoteGattCharacteristic", "BluetoothRemoteGattServer", "BluetoothRemoteGattService", "EventTarget", "RequestDeviceOptions", "Navigator", "Window", "Event"] }
