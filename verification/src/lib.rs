//! Verified model of the micro:bit BLE binary protocol, the firmware's
//! command dispatch and peripheral state, and the host-side helpers.

pub mod ambient;
pub mod protocol;
pub mod server;
pub mod text;
pub mod ble;
pub mod web;
