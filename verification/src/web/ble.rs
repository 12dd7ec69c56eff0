//! Web Bluetooth connection state as the console tracks it.
use vstd::prelude::*;

verus! {

/// BLE connection state
#[derive(Clone, Copy, Debug, PartialEq, Eq)]
pub enum BleConnectionState {
    Disconnected,
    Connecting,
    Connected,
}

/// The connection flags the console shows.
#[derive(Clone, Copy, Debug)]
pub struct ConnectionFlags {
    pub connected: bool,
    pub connecting: bool,
}

/// The flags after a state change, and whether the device name is cleared
/// (on disconnect).
pub open spec fn flags_after(state: BleConnectionState) -> (ConnectionFlags, bool) {
    match state {
        BleConnectionState::Disconnected => (
            ConnectionFlags { connected: false, connecting: false },
            true,
        ),
        BleConnectionState::Connecting => (
            ConnectionFlags { connected: false, connecting: true },
            false,
        ),
        BleConnectionState::Connected => (
            ConnectionFlags { connected: true, connecting: false },
            false,
        ),
    }
}

impl ConnectionFlags {
    /// Neither connected nor connecting.
    pub fn new() -> (f: Self)
        ensures
            !f.connected && !f.connecting,
    {
        ConnectionFlags { connected: false, connecting: false }
    }

    /// A connect request is started only when neither connected nor connecting.
    pub fn can_connect(&self) -> (b: bool)
        ensures
            b == (!self.connected && !self.connecting),
    {
        !self.connected && !self.connecting
    }

    /// Apply a state change of the BLE service; returns whether the shown
    /// device name is to be cleared.
    pub fn on_state_change(&mut self, state: BleConnectionState) -> (clear_name: bool)
        ensures
            (*final(self), clear_name) == flags_after(state),
    {
        match state {
            BleConnectionState::Disconnected => {
                self.connected = false;
                self.connecting = false;
                true
            },
            BleConnectionState::Connecting => {
                self.connecting = true;
                self.connected = false;
                false
            },
            BleConnectionState::Connected => {
                self.connected = true;
                self.connecting = false;
                false
            },
        }
    }

    /// The state the status indicator shows: connecting wins over connected.
    pub fn shown_state(&self) -> (s: BleConnectionState)
        ensures
            s == (if self.connecting {
                BleConnectionState::Connecting
            } else if self.connected {
                BleConnectionState::Connected
            } else {
                BleConnectionState::Disconnected
            }),
    {
        if self.connecting {
            BleConnectionState::Connecting
        } else if self.connected {
            BleConnectionState::Connected
        } else {
            BleConnectionState::Disconnected
        }
    }

    /// A connect attempt failed: no longer connecting.
    pub fn on_connect_failed(&mut self)
        ensures
            final(self).connected == old(self).connected,
            !final(self).connecting,
    {
        self.connecting = false;
    }
}

/// After any state change the indicator shows exactly that state.
pub proof fn lemma_indicator_shows_state(state: BleConnectionState)
    ensures
        ({
            let f = flags_after(state).0;
            (if f.connecting {
                BleConnectionState::Connecting
            } else if f.connected {
                BleConnectionState::Connected
            } else {
                BleConnectionState::Disconnected
            }) == state
        }),
{
}

/// The console is never connected and connecting at once after a state change.
pub proof fn lemma_flags_exclusive(state: BleConnectionState)
    ensures
        !(flags_after(state).0.connected && flags_after(state).0.connecting),
{
}

} // verus!
