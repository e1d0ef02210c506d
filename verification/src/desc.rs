//! DMA descriptors shared between the driver and the device.
use vstd::prelude::*;

verus! {

/// [E1000 3.3.3]
/// The DMA descriptor for transmitting.
#[derive(Debug, Clone)]
pub struct TxDesc {
    /// Physical address of the packet buffer.
    pub addr: u64,
    /// Number of bytes to send from the buffer.
    pub length: u16,
    /// Checksum offset.
    pub cso: u8,
    /// Command bits.
    pub cmd: u8,
    /// Status bits, written back by the device.
    pub status: u8,
    /// Checksum start.
    pub css: u8,
    /// Special field.
    pub special: u16,
}

/// [E1000 3.2.3]
/// The DMA descriptor for receiving.
#[derive(Debug, Clone)]
pub struct RxDesc {
    /// Address of the descriptor's data buffer.
    pub addr: u64,
    /// Length of data DMAed into the data buffer.
    pub length: u16,
    /// Packet checksum.
    pub csum: u16,
    /// Descriptor status.
    pub status: u8,
    /// Descriptor errors.
    pub errors: u8,
    /// Special field.
    pub special: u16,
}

} // verus!
