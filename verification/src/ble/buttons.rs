//! micro:bit V2 onboard buttons A/B: events and subscription.
use vstd::prelude::*;

use super::{DeviceState, DeviceView};

verus! {

/// Wait after a button edge before reading the settled level (ms).
pub const DEBOUNCE_MS: u64 = 15;

/// Button identifier
#[derive(Debug, Clone, Copy, PartialEq, Eq)]
pub enum ButtonId {
    A,
    B,
}

impl ButtonId {
    /// The id byte of the button on the wire (A=1, B=2).
    pub open spec fn spec_code(self) -> u8 {
        match self {
            ButtonId::A => 1,
            ButtonId::B => 2,
        }
    }

    /// The id byte of the button on the wire (A=1, B=2).
    pub fn code(self) -> (b: u8)
        ensures
            b == self.spec_code(),
    {
        match self {
            ButtonId::A => 1,
            ButtonId::B => 2,
        }
    }
}

/// Button event
#[derive(Debug, Clone, Copy)]
pub struct ButtonEvent {
    pub id: ButtonId,
    /// true = pressed (low level), false = released
    pub pressed: bool,
}

/// Set the button event subscription
pub fn set_subscribed(dev: &mut DeviceState, yes: bool)
    ensures
        final(dev).view() == (DeviceView { buttons_subscribed: yes, ..old(dev).view() }),
{
    dev.buttons_subscribed = yes;
}

/// Whether button events are subscribed
pub fn is_subscribed(dev: &DeviceState) -> (b: bool)
    ensures
        b == dev.view().buttons_subscribed,
{
    dev.buttons_subscribed
}

/// The event of a button whose (debounced) input level went from `last_high`
/// to `now_high`: a level change is an event, pressed when the level is low.
pub fn button_edge(id: ButtonId, last_high: bool, now_high: bool) -> (evt: Option<ButtonEvent>)
    ensures
        last_high == now_high ==> evt is None,
        last_high != now_high ==> (evt matches Some(e) && e.id == id && e.pressed == !now_high),
{
    if now_high != last_high {
        Some(ButtonEvent { id, pressed: !now_high })
    } else {
        None
    }
}

} // verus!
