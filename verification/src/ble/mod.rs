//! Firmware logic of the micro:bit BLE peripheral: the device state that the
//! command handler and the background tasks share, and the BLE controller's
//! decisions.
pub mod battery;
pub mod buttons;
pub mod commands;

pub mod led_matrix;
pub mod motion;
pub mod nus;
pub mod protocol;

pub mod sound;
pub mod touch;

use vstd::prelude::*;

use self::battery::BatteryService;
use self::buttons::ButtonEvent;
use self::commands::Response;
use self::led_matrix::{LedMatrix, MatrixView};
use self::nus::NusService;
use self::sound::ToneCommand;

verus! {

/// While advertising is stopped, how often the BLE loop looks again (ms).
pub const ADVERTISING_IDLE_POLL_MS: u64 = 100;

/// Wait before advertising again after an advertising error (ms).
pub const ADVERTISING_RETRY_MS: u64 = 1000;

/// Advertising interval in units of 0.625 ms (160 = 100 ms).
pub const ADVERTISING_INTERVAL: u32 = 160;

/// The abstract state of the device.
pub struct DeviceView {
    pub matrix: MatrixView,
    pub buttons_subscribed: bool,
    pub touch_subscribed: bool,
    pub accel_subscribed: bool,
    pub magnet_subscribed: bool,
    pub tone_request: Option<ToneCommand>,
    pub playing: bool,
    pub advertising: bool,
    pub disconnect_requested: bool,
}

/// The state shared by the command handler, the BLE loop and the peripheral tasks.
pub struct DeviceState {
    /// LED matrix display state
    pub matrix: LedMatrix,
    /// Whether button events are forwarded to the central
    pub buttons_subscribed: bool,
    /// Whether touch events are forwarded to the central
    pub touch_subscribed: bool,
    /// Accelerometer subscription state
    pub accel_subscribed: bool,
    /// Magnetometer subscription state
    pub magnet_subscribed: bool,
    /// Latest tone request for the sound task (a newer request replaces it)
    pub tone_request: Option<ToneCommand>,
    /// Whether sound is currently playing
    pub playing: bool,
    /// BLE advertising enabled
    pub advertising: bool,
    /// A disconnect of the current connection was requested
    pub disconnect_requested: bool,
}

impl DeviceState {
    pub open spec fn view(&self) -> DeviceView {
        DeviceView {
            matrix: self.matrix.view(),
            buttons_subscribed: self.buttons_subscribed,
            touch_subscribed: self.touch_subscribed,
            accel_subscribed: self.accel_subscribed,
            magnet_subscribed: self.magnet_subscribed,
            tone_request: self.tone_request,
            playing: self.playing,
            advertising: self.advertising,
            disconnect_requested: self.disconnect_requested,
        }
    }

    /// The power-up state: display off, nothing subscribed, silent, advertising.
    pub fn new() -> (d: Self)
        ensures
            d.view().matrix.frame == 0,
            !d.view().matrix.brightness_mode,
            d.view().matrix.brightness == Seq::new(25, |i: int| 0u8),
            d.view().matrix.scroll_text == Seq::<u8>::empty(),
            !d.view().matrix.scroll_requested,
            !d.view().matrix.scrolling,
            !d.view().buttons_subscribed,
            !d.view().touch_subscribed,
            !d.view().accel_subscribed,
            !d.view().magnet_subscribed,
            d.view().tone_request is None,
            !d.view().playing,
            d.view().advertising,
            !d.view().disconnect_requested,
    {
        DeviceState {
            matrix: LedMatrix::new(),
            buttons_subscribed: false,
            touch_subscribed: false,
            accel_subscribed: false,
            magnet_subscribed: false,
            tone_request: None,
            playing: false,
            advertising: true,
            disconnect_requested: false,
        }
    }
}

/// Whole GATT server: NUS (main) + Battery (optional)
pub struct GattServer {
    pub nus: NusService,
    pub battery: BatteryService,
}

/// BLE configuration parameters
pub struct BleConfig {
    /// Device name (shown in the Bluetooth scan list)
    pub device_name: &'static [u8],
    /// Maximum simultaneous connections
    pub max_connections: u8,
    /// ATT MTU size
    pub att_mtu: u16,
}

impl Default for BleConfig {
    fn default() -> (c: Self)
        ensures
            c.device_name@ == "MicroBit-BLE"@.map_values(|ch: char| ch as u8),
            c.max_connections == 1,
            c.att_mtu == 64,
    {
        let name = "MicroBit-BLE";
        proof {
            reveal_strlit("MicroBit-BLE");
            vstd::string::is_ascii_spec_bytes(name);
        }
        assert(vstd::string::is_ascii(name));
        let bytes = name.as_bytes();
        assert(bytes@ =~= "MicroBit-BLE"@.map_values(|ch: char| ch as u8));
        BleConfig { device_name: bytes, max_connections: 1, att_mtu: 64 }
    }
}

// ===== BLE controller decisions =====
/// Start BLE advertising
pub fn start_advertising(dev: &mut DeviceState)
    ensures
        final(dev).view() == (DeviceView { advertising: true, ..old(dev).view() }),
{
    dev.advertising = true;
}

/// Stop BLE advertising
pub fn stop_advertising(dev: &mut DeviceState)
    ensures
        final(dev).view() == (DeviceView { advertising: false, ..old(dev).view() }),
{
    dev.advertising = false;
}

/// Whether advertising is enabled
pub fn is_advertising(dev: &DeviceState) -> (b: bool)
    ensures
        b == dev.view().advertising,
{
    dev.advertising
}

/// Request a disconnect of the current connection
pub fn disconnect(dev: &mut DeviceState)
    ensures
        final(dev).view() == (DeviceView { disconnect_requested: true, ..old(dev).view() }),
{
    dev.disconnect_requested = true;
}

/// Take a pending disconnect request (the BLE loop waits on it).
pub fn take_disconnect_request(dev: &mut DeviceState) -> (requested: bool)
    ensures
        requested == old(dev).view().disconnect_requested,
        final(dev).view() == (DeviceView { disconnect_requested: false, ..old(dev).view() }),
{
    let r = dev.disconnect_requested;
    dev.disconnect_requested = false;
    r
}

/// A central connected: button subscriptions are reset for the new connection.
pub fn on_connected(dev: &mut DeviceState)
    ensures
        final(dev).view() == (DeviceView { buttons_subscribed: false, ..old(dev).view() }),
{
    buttons::set_subscribed(dev, false);
}

/// Button event forwarding of the BLE loop: while button events are
/// subscribed, each event is encoded as a frame for the central; otherwise it
/// is dropped.
pub fn forward_button_event(dev: &DeviceState, evt: ButtonEvent) -> (r: Option<Response>)
    ensures
        !dev.view().buttons_subscribed ==> r is None,
        dev.view().buttons_subscribed ==> (r matches Some(resp) && resp.view()
            == crate::protocol::frame_bytes(
            crate::protocol::CMD_BTN_EVENT,
            seq![evt.id.spec_code(), evt.pressed as u8],
        )),
{
    if !buttons::is_subscribed(dev) {
        return None;
    }
    commands::encode_button_event(evt)
}

} // verus!
