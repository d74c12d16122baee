//! The classic CAN frame exchanged with every transport.
use vstd::prelude::*;

verus! {

/// A classic CAN frame: up to 8 payload bytes, standard (11-bit) or
/// extended (29-bit) identifier.
#[derive(Debug, Clone, Copy)]
pub struct CanFrame {
    pub arbitration_id: u32,
    pub data: [u8; 8],
    pub dlc: u8,
    pub is_extended: bool,
    /// Direction marker: `true` for frames returned by a receive, `false` for
    /// frames handed to a send.
    pub is_rx: bool,
}

/// Mathematical view of a [`CanFrame`], the payload taken as a sequence of
/// its 8 bytes.
pub struct FrameView {
    pub arbitration_id: u32,
    pub data: Seq<u8>,
    pub dlc: u8,
    pub is_extended: bool,
    pub is_rx: bool,
}

impl View for CanFrame {
    type V = FrameView;

    open spec fn view(&self) -> FrameView {
        FrameView {
            arbitration_id: self.arbitration_id,
            data: self.data@,
            dlc: self.dlc,
            is_extended: self.is_extended,
            is_rx: self.is_rx,
        }
    }
}

/// The 8 payload bytes made of `payload` followed by zero padding.
pub open spec fn padded8(payload: Seq<u8>) -> Seq<u8> {
    Seq::new(8, |i: int| if i < payload.len() { payload[i] } else { 0u8 })
}

} // verus!
