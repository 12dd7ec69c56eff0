//! Nordic UART Service (NUS): the RX/TX characteristic values.
//!
//! UUIDs (128-bit):
//! - Service:       6e400001-b5a3-f393-e0a9-e50e24dcca9e
//! - RX (Write):    6e400002-b5a3-f393-e0a9-e50e24dcca9e  (Central -> Peripheral)
//! - TX (Notify):   6e400003-b5a3-f393-e0a9-e50e24dcca9e  (Peripheral -> Central)
use vstd::prelude::*;

verus! {

/// Maximum number of bytes per NUS write / notification (aligned with ATT MTU 64).
pub const NUS_MAX_LEN: usize = 64;

/// Nordic UART Service characteristic values. Writes shorter than 64 bytes are
/// padded with zeros; the protocol frame's LEN field gives the real length.
pub struct NusService {
    /// RX: data written by the browser (Write / Write Without Response)
    pub rx: [u8; 64],
    /// TX: data the board pushes to the browser (Notify)
    pub tx: [u8; 64],
}

/// GATT events of the NUS service
pub enum NusServiceEvent {
    /// The central enabled or disabled TX notifications
    TxCccdWrite { notifications: bool },
    /// The central wrote the RX characteristic
    RxWrite([u8; 64]),
}

/// A fixed-length snapshot of one RX write.
#[derive(Clone, Copy)]
pub struct NusRx {
    buf: [u8; 64],
}

impl NusRx {
    pub closed spec fn view(self) -> Seq<u8> {
        self.buf@
    }

    /// Return the full fixed-length buffer (with trailing zero padding).
    /// The protocol parser takes the valid data from the frame's LEN field.
    pub fn as_slice(&self) -> (s: &[u8])
        ensures
            s@ == self.view(),
            s@.len() == NUS_MAX_LEN,
    {
        self.buf.as_slice()
    }
}

/// The notification value for `data`: the data followed by zeros up to 64 bytes.
pub open spec fn padded(data: Seq<u8>) -> Seq<u8> {
    data + Seq::new((NUS_MAX_LEN - data.len()) as nat, |i: int| 0u8)
}

impl NusService {
    /// Put one frame into the TX characteristic value, zero padded to `NUS_MAX_LEN`
    /// (the caller then notifies the central). Fails, changing nothing, when the
    /// data is longer than `NUS_MAX_LEN`.
    pub fn send(&mut self, data: &[u8]) -> (r: Result<(), ()>)
        ensures
            data@.len() > NUS_MAX_LEN ==> r is Err && final(self).tx@ == old(self).tx@,
            data@.len() <= NUS_MAX_LEN ==> r is Ok && final(self).tx@ == padded(data@),
            final(self).rx@ == old(self).rx@,
    {
        if data.len() > NUS_MAX_LEN {
            return Err(());
        }
        let mut buf = [0u8; 64];
        let mut i: usize = 0;
        while i < data.len()
            invariant
                i <= data@.len() <= 64,
                buf@.len() == 64,
                forall|j: int| 0 <= j < i ==> buf@[j] == data@[j],
                forall|j: int| data@.len() <= j < 64 ==> buf@[j] == 0,
            decreases data@.len() - i,
        {
            buf[i] = data[i];
            i += 1;
        }
        assert(buf@ =~= padded(data@));
        self.tx = buf;
        Ok(())
    }

    /// Handle a GATT event: an RX write yields its data for the command handler.
    pub fn handle_event(event: NusServiceEvent) -> (rx: Option<NusRx>)
        ensures
            match event {
                NusServiceEvent::TxCccdWrite { .. } => rx is None,
                NusServiceEvent::RxWrite(data) => rx matches Some(r) && r.view() == data@,
            },
    {
        match event {
            NusServiceEvent::TxCccdWrite { notifications: _ } => None,
            NusServiceEvent::RxWrite(data) => Some(NusRx { buf: data }),
        }
    }
}

} // verus!
