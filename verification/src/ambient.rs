//! Ambient light demo on the WuKong expansion board: button A starts and stops
//! the animation; every 20ms timer tick while running shows the next color on
//! mood light 3, with a red channel that cycles through 0..=255.
use vstd::prelude::*;

verus! {

/// Timer period between animation steps (microseconds).
pub const TICK_US: u32 = 20_000;

/// Mood light that shows the animation.
pub const LIGHT_INDEX: usize = 3;

/// The fixed green and blue channels of the animation color.
pub const GREEN_BLUE: u8 = 64;

/// State of the animation.
pub struct Ambient {
    /// Toggled by button A
    pub running: bool,
    /// Red channel of the next color
    pub red: u8,
}

impl Ambient {
    /// Stopped, red channel at 0.
    pub fn new() -> (a: Self)
        ensures
            !a.running,
            a.red == 0,
    {
        Ambient { running: false, red: 0 }
    }

    /// Button A pressed: start or stop the animation.
    pub fn on_button(&mut self)
        ensures
            final(self).running == !old(self).running,
            final(self).red == old(self).red,
    {
        self.running = !self.running;
    }

    /// Timer tick: while running, the color `(red, 64, 64)` to show, and the red
    /// channel advances by one (wrapping from 255 to 0); nothing while stopped.
    pub fn on_tick(&mut self) -> (rgb: Option<(u8, u8, u8)>)
        ensures
            old(self).running ==> rgb == Some((old(self).red, GREEN_BLUE, GREEN_BLUE))
                && final(self).red == (if old(self).red == 255 {
                0
            } else {
                old(self).red + 1
            }),
            !old(self).running ==> rgb is None && final(self).red == old(self).red,
            final(self).running == old(self).running,
    {
        if self.running {
            let rgb = (self.red, GREEN_BLUE, GREEN_BLUE);
            self.red = self.red.wrapping_add(1);
            Some(rgb)
        } else {
            None
        }
    }
}

} // verus!
