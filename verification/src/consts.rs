//! Register indices and bit values of the Intel 82540EP/EM (e1000) as the driver uses them.
//! Register indices are byte offsets in the memory-mapped register space divided by four,
//! so that they index an array of 32-bit registers.
use vstd::prelude::*;

verus! {

/// Number of transmit descriptors in the transmit ring.
pub const TX_RING_SIZE: usize = 256;

/// Number of receive descriptors in the receive ring.
pub const RX_RING_SIZE: usize = 256;

/// Size in bytes of one packet buffer.
pub const MBUF_SIZE: usize = 2048;

/// Size in bytes of one transmit descriptor ([E1000 3.3.3]).
pub const TX_DESC_SIZE: usize = 16;

/// Size in bytes of one receive descriptor ([E1000 3.2.3]).
pub const RX_DESC_SIZE: usize = 16;

/// Number of 32-bit registers in the I/O-mapped range 0x00000 ..= 0x1FFFF.
pub const REGS_LEN: usize = 0x1FFFF / 4;

/// Device control.
pub const E1000_CTL: usize = 0x00000 / 4;
/// Device status.
pub const E1000_STAT: usize = 0x00008 / 4;
/// Interrupt cause read.
pub const E1000_ICR: usize = 0x000C0 / 4;
/// Interrupt cause set.
pub const E1000_ICS: usize = 0x000C8 / 4;
/// Interrupt mask set.
pub const E1000_IMS: usize = 0x000D0 / 4;
/// Interrupt mask clear.
pub const E1000_IMC: usize = 0x000D8 / 4;
/// Receive control.
pub const E1000_RCTL: usize = 0x00100 / 4;
/// Transmit control.
pub const E1000_TCTL: usize = 0x00400 / 4;
/// Transmit inter-packet gap.
pub const E1000_TIPG: usize = 0x00410 / 4;
/// Receive descriptor base address, low 32 bits.
pub const E1000_RDBAL: usize = 0x02800 / 4;
/// Receive descriptor ring length in bytes.
pub const E1000_RDLEN: usize = 0x02808 / 4;
/// Receive descriptor head.
pub const E1000_RDH: usize = 0x02810 / 4;
/// Receive descriptor tail.
pub const E1000_RDT: usize = 0x02818 / 4;
/// Receive interrupt delay timer.
pub const E1000_RDTR: usize = 0x02820 / 4;
/// Receive interrupt absolute delay timer.
pub const E1000_RADV: usize = 0x0282C / 4;
/// Transmit descriptor base address, low 32 bits.
pub const E1000_TDBAL: usize = 0x03800 / 4;
/// Transmit descriptor ring length in bytes.
pub const E1000_TDLEN: usize = 0x03808 / 4;
/// Transmit descriptor head.
pub const E1000_TDH: usize = 0x03810 / 4;
/// Transmit descriptor tail.
pub const E1000_TDT: usize = 0x03818 / 4;
/// Transmit interrupt delay value.
pub const E1000_TIDV: usize = 0x03820 / 4;
/// Transmit interrupt absolute delay value.
pub const E1000_TADV: usize = 0x0382C / 4;
/// Multicast table array (128 registers).
pub const E1000_MTA: usize = 0x05200 / 4;
/// Receive address (two registers: low and high).
pub const E1000_RA: usize = 0x05400 / 4;

/// Number of registers in the multicast table array.
pub const MTA_LEN: usize = 4096 / 32;

/// Device control: full reset.
pub const E1000_CTL_RST: u32 = 0x00400000;

/// Transmit control: enable.
pub const E1000_TCTL_EN: u32 = 0x00000002;
/// Transmit control: pad short packets.
pub const E1000_TCTL_PSP: u32 = 0x00000008;
/// Transmit control: shift of the collision threshold field.
pub const E1000_TCTL_CT_SHIFT: u32 = 4;
/// Transmit control: shift of the collision distance field.
pub const E1000_TCTL_COLD_SHIFT: u32 = 12;

/// Receive control: enable.
pub const E1000_RCTL_EN: u32 = 0x00000002;
/// Receive control: accept broadcast packets.
pub const E1000_RCTL_BAM: u32 = 0x00008000;
/// Receive control: 2048-byte receive buffers.
pub const E1000_RCTL_SZ_2048: u32 = 0x00000000;
/// Receive control: strip the Ethernet CRC.
pub const E1000_RCTL_SECRC: u32 = 0x04000000;

/// Transmit descriptor command: end of packet.
pub const E1000_TXD_CMD_EOP: u32 = 0x01;
/// Transmit descriptor command: report status.
pub const E1000_TXD_CMD_RS: u32 = 0x08;
/// Transmit descriptor status: descriptor done.
pub const E1000_TXD_STAT_DD: u32 = 0x01;

/// Receive descriptor status: descriptor done.
pub const E1000_RXD_STAT_DD: u32 = 0x01;
/// Receive descriptor status: end of packet.
pub const E1000_RXD_STAT_EOP: u32 = 0x02;

/// Interrupt cause: link status change.
pub const E1000_ICR_LSC: u32 = 0x00000004;

/// Interrupts the driver enables: RXT0, TXDW, RXDMT0, RXSEQ and LSC.
pub const IMS_ENABLE_MASK: u32 = 0x9D;

/// The register map and bit values the driver relies on, as the 82540EP/EM defines them:
/// each register index is its byte offset divided by four.
pub proof fn lemma_register_layout()
    ensures
        TX_RING_SIZE == 256 && RX_RING_SIZE == 256 && MBUF_SIZE == 2048,
        TX_DESC_SIZE == 16 && RX_DESC_SIZE == 16,
        REGS_LEN == 32767,
        E1000_CTL == 0 && E1000_STAT == 2,
        E1000_ICR == 48 && E1000_ICS == 50 && E1000_IMS == 52 && E1000_IMC == 54,
        E1000_RCTL == 64 && E1000_TCTL == 256 && E1000_TIPG == 260,
        E1000_RDBAL == 2560 && E1000_RDLEN == 2562 && E1000_RDH == 2564 && E1000_RDT == 2566,
        E1000_RDTR == 2568 && E1000_RADV == 2571,
        E1000_TDBAL == 3584 && E1000_TDLEN == 3586 && E1000_TDH == 3588 && E1000_TDT == 3590,
        E1000_TIDV == 3592 && E1000_TADV == 3595,
        E1000_MTA == 5248 && MTA_LEN == 128 && E1000_RA == 5376,
        E1000_CTL_RST == 0x0040_0000,
        E1000_TCTL_EN == 2 && E1000_TCTL_PSP == 8 && E1000_TCTL_CT_SHIFT == 4
            && E1000_TCTL_COLD_SHIFT == 12,
        E1000_RCTL_EN == 2 && E1000_RCTL_BAM == 0x8000 && E1000_RCTL_SZ_2048 == 0
            && E1000_RCTL_SECRC == 0x0400_0000,
        E1000_TXD_CMD_EOP == 1 && E1000_TXD_CMD_RS == 8 && E1000_TXD_STAT_DD == 1,
        E1000_RXD_STAT_DD == 1 && E1000_RXD_STAT_EOP == 2,
        E1000_ICR_LSC == 4 && IMS_ENABLE_MASK == 0x9D,
{
}

} // verus!
