//! Logic of the Web Bluetooth console: protocol helpers, connection state and
//! the decisions of its panels.
pub mod ble;
pub mod comm_log;
pub mod panels;
pub mod utils;
