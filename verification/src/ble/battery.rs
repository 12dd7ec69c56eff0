//! Battery Service (BAS, UUID 0x180F): the battery level value.
use vstd::prelude::*;

verus! {

/// Battery Service: the Battery Level characteristic value (0-100 percent)
pub struct BatteryService {
    pub level: u8,
}

impl BatteryService {
    /// Set battery level (clamped to 100); the caller notifies subscribed connections.
    pub fn update(&mut self, level: u8)
        ensures
            final(self).level == if level > 100 {
                100
            } else {
                level
            },
    {
        let level = if level > 100 {
            100
        } else {
            level
        };
        self.level = level;
    }
}

} // verus!
