//! micro:bit V2 capacitive touch sensors: debounced touch events and subscription.
//!
//! The touch task polls the Logo pad and pins 0..2 at ~50Hz; a sensor changes
//! state after 3 consecutive samples in the new state (~60ms).
use vstd::prelude::*;

use super::{DeviceState, DeviceView};

verus! {

/// Number of consecutive samples in the new state that change a sensor's state.
pub const DEBOUNCE_THRESHOLD: u8 = 3;

/// Interval between two touch samples (ms).
pub const TOUCH_POLL_MS: u64 = 20;

/// Touch sensor identifier
#[derive(Debug, Clone, Copy, PartialEq, Eq)]
pub enum TouchId {
    Logo,
    Pin0,
    Pin1,
    Pin2,
}

impl TouchId {
    /// The id byte of the sensor on the wire (Logo=0, Pin0=1, Pin1=2, Pin2=3).
    pub open spec fn spec_code(self) -> u8 {
        match self {
            TouchId::Logo => 0,
            TouchId::Pin0 => 1,
            TouchId::Pin1 => 2,
            TouchId::Pin2 => 3,
        }
    }

    /// The id byte of the sensor on the wire (Logo=0, Pin0=1, Pin1=2, Pin2=3).
    pub fn code(self) -> (b: u8)
        ensures
            b == self.spec_code(),
    {
        match self {
            TouchId::Logo => 0,
            TouchId::Pin0 => 1,
            TouchId::Pin1 => 2,
            TouchId::Pin2 => 3,
        }
    }
}

/// Touch event
#[derive(Debug, Clone, Copy)]
pub struct TouchEvent {
    pub id: TouchId,
    /// true = touched, false = released
    pub pressed: bool,
}

/// Set the touch event subscription
pub fn set_subscribed(dev: &mut DeviceState, yes: bool)
    ensures
        final(dev).view() == (DeviceView { touch_subscribed: yes, ..old(dev).view() }),
{
    dev.touch_subscribed = yes;
}

/// Whether touch events are subscribed
pub fn is_subscribed(dev: &DeviceState) -> (b: bool)
    ensures
        b == dev.view().touch_subscribed,
{
    dev.touch_subscribed
}

/// The abstract debounce state of one sensor.
pub struct TouchView {
    pub id: TouchId,
    pub pressed: bool,
    /// Consecutive samples seen in the other state (always below the threshold)
    pub count: u8,
}

/// One sample: a sample in the other state counts up, and the third in a row
/// flips the state and reports it; a sample in the current state resets the count.
pub open spec fn touch_step(s: TouchView, is_high: bool) -> (TouchView, Option<TouchEvent>) {
    if is_high != s.pressed {
        if s.count + 1 >= DEBOUNCE_THRESHOLD {
            (
                TouchView { pressed: is_high, count: 0, ..s },
                Some(TouchEvent { id: s.id, pressed: is_high }),
            )
        } else {
            (TouchView { count: (s.count + 1) as u8, ..s }, None)
        }
    } else {
        (TouchView { count: 0, ..s }, None)
    }
}

/// Debounce state for a single touch sensor
pub struct TouchState {
    id: TouchId,
    pressed: bool,
    /// Number of consecutive samples in the new state (for debounce)
    count: u8,
}

impl TouchState {
    #[verifier::type_invariant]
    spec fn inv(self) -> bool {
        self.count < DEBOUNCE_THRESHOLD
    }

    pub closed spec fn view(self) -> TouchView {
        TouchView { id: self.id, pressed: self.pressed, count: self.count }
    }

    /// A released sensor with no pending samples.
    pub fn new(id: TouchId) -> (s: Self)
        ensures
            s.view() == (TouchView { id, pressed: false, count: 0 }),
    {
        TouchState { id, pressed: false, count: 0 }
    }

    /// Update with a new sample. Returns Some(event) if state changed after debounce.
    /// Debounce threshold: 3 consecutive samples (~60ms at 50Hz polling)
    pub fn update(&mut self, is_high: bool) -> (evt: Option<TouchEvent>)
        ensures
            (final(self).view(), evt) == touch_step(old(self).view(), is_high),
            final(self).view().count < DEBOUNCE_THRESHOLD,
    {
        proof {
            use_type_invariant(&*self);
        }
        if is_high != self.pressed {
            if self.count + 1 >= DEBOUNCE_THRESHOLD {
                self.pressed = is_high;
                self.count = 0;
                return Some(TouchEvent { id: self.id, pressed: is_high });
            }
            self.count = self.count + 1;
        } else {
            self.count = 0;
        }
        None
    }
}

/// Debounce: starting from a settled sensor, the first two samples in the
/// other state report nothing and the third flips the state and reports it.
pub proof fn lemma_three_samples_flip(s: TouchView, v: bool)
    requires
        s.count == 0,
        v != s.pressed,
    ensures
        ({
            let (s1, e1) = touch_step(s, v);
            let (s2, e2) = touch_step(s1, v);
            let (s3, e3) = touch_step(s2, v);
            &&& e1 is None
            &&& e2 is None
            &&& e3 == Some(TouchEvent { id: s.id, pressed: v })
            &&& s3 == (TouchView { pressed: v, count: 0, ..s })
        }),
{
}

/// Debounce: a glitch shorter than the threshold is ignored: one sample back
/// in the current state reports nothing and restarts the count.
pub proof fn lemma_glitch_ignored(s: TouchView)
    requires
        s.count < DEBOUNCE_THRESHOLD,
    ensures
        touch_step(s, s.pressed) == (TouchView { count: 0, ..s }, None::<TouchEvent>),
{
}

/// Every reported event reports the sensor's new state, and the state changes
/// only when an event is reported.
pub proof fn lemma_event_iff_change(s: TouchView, is_high: bool)
    requires
        s.count < DEBOUNCE_THRESHOLD,
    ensures
        ({
            let (t, e) = touch_step(s, is_high);
            &&& (e is Some <==> t.pressed != s.pressed)
            &&& (e matches Some(ev) ==> ev.pressed == t.pressed && ev.id == s.id)
            &&& t.id == s.id
            &&& t.count < DEBOUNCE_THRESHOLD
        }),
{
}

} // verus!
