//! Mathematical model of the device as the driver sees it, and of what each driver
//! operation does to it.
use vstd::prelude::*;
use crate::consts::{
    E1000_CTL, E1000_CTL_RST, E1000_ICR, E1000_ICR_LSC, E1000_ICS, E1000_IMC, E1000_IMS,
    IMS_ENABLE_MASK, E1000_MTA, E1000_RA, E1000_RADV, E1000_RCTL,
    E1000_RCTL_BAM, E1000_RCTL_EN, E1000_RCTL_SECRC, E1000_RCTL_SZ_2048, E1000_RDBAL, E1000_RDH,
    E1000_RDLEN, E1000_RDT, E1000_RDTR, E1000_RXD_STAT_DD, E1000_RXD_STAT_EOP, E1000_STAT,
    E1000_TADV, E1000_TCTL, E1000_TCTL_COLD_SHIFT, E1000_TCTL_CT_SHIFT, E1000_TCTL_EN,
    E1000_TCTL_PSP, E1000_TDBAL, E1000_TDH, E1000_TDLEN, E1000_TDT, E1000_TIDV, E1000_TIPG,
    E1000_TXD_CMD_EOP, E1000_TXD_CMD_RS, E1000_TXD_STAT_DD, MBUF_SIZE, MTA_LEN, REGS_LEN,
    RX_DESC_SIZE, RX_RING_SIZE, TX_DESC_SIZE, TX_RING_SIZE,
};
use crate::desc::{
    RxDesc, TxDesc,
};

verus! {

/// One access of the driver to the device, in the order the driver makes them: a register
/// read or write, or a store to a ring slot in the memory it shares with the device.
pub enum Access {
    /// A read of the register with this index.
    Read(int),
    /// A write of a value to the register with this index.
    Write(int, u32),
    /// The driver has stored transmit slot `i`: its descriptor and buffer now hold these.
    TxSlot(int, TxDesc, Seq<u8>),
    /// The driver has stored receive slot `i`: its descriptor and buffer now hold these.
    RxSlot(int, RxDesc, Seq<u8>),
}

/// The state of a device: its register file, the accesses the driver has made to it,
/// both descriptor rings, the packet buffers and where they live.
#[verifier::ext_equal]
pub struct DeviceView {
    /// Current contents of the 32-bit registers.
    pub regs: Seq<u32>,
    /// Every access the driver has made to the device, oldest first.
    pub trace: Seq<Access>,
    /// The transmit descriptor ring.
    pub tx_ring: Seq<TxDesc>,
    /// The receive descriptor ring.
    pub rx_ring: Seq<RxDesc>,
    /// Virtual address of each transmit buffer.
    pub tx_mbufs: Seq<usize>,
    /// Virtual address of each receive buffer.
    pub rx_mbufs: Seq<usize>,
    /// Contents of each transmit buffer.
    pub tx_bufs: Seq<Seq<u8>>,
    /// Contents of each receive buffer.
    pub rx_bufs: Seq<Seq<u8>>,
    /// Virtual address of the transmit ring.
    pub tx_ring_vaddr: usize,
    /// Physical address of the transmit ring.
    pub tx_ring_dma: usize,
    /// Virtual address of the receive ring.
    pub rx_ring_vaddr: usize,
    /// Physical address of the receive ring.
    pub rx_ring_dma: usize,
    /// Address at which the registers are mapped.
    pub mapped_regs: usize,
    /// Size of one packet buffer.
    pub mbuf_size: usize,
    /// The DMA allocations made for this device, oldest first: pages asked for, and the
    /// virtual and physical address handed back.
    pub dma_allocs: Seq<(usize, usize, usize)>,
}

/// Whether the device has finished with a transmit descriptor.
pub open spec fn tx_done(d: TxDesc) -> bool {
    d.status & (E1000_TXD_STAT_DD as u8) != 0
}

/// Whether the device has filled a receive descriptor.
pub open spec fn rx_done(d: RxDesc) -> bool {
    d.status & (E1000_RXD_STAT_DD as u8) != 0
}

/// Position `j` steps after `start` in a ring of `RX_RING_SIZE` slots.
pub open spec fn ring_pos(start: int, j: int) -> int {
    (start + j) % (RX_RING_SIZE as int)
}

/// How many steps slot `p` lies after slot `start` in a ring of `RX_RING_SIZE` slots.
pub open spec fn ring_offset(p: int, start: int) -> int {
    (p - start) % (RX_RING_SIZE as int)
}

/// Length of the run of filled receive descriptors that starts at `start`, looking at no
/// more than `n` of them.
pub open spec fn rx_run_len(ring: Seq<RxDesc>, start: int, n: nat) -> nat
    decreases n,
{
    if n == 0 {
        0
    } else if rx_done(ring[start % (RX_RING_SIZE as int)]) {
        1 + rx_run_len(ring, start + 1, (n - 1) as nat)
    } else {
        0
    }
}

impl DeviceView {
    /// The invariant every device state of the driver keeps.
    pub open spec fn wf(self) -> bool {
        &&& self.wf_memory()
        &&& self.regs[E1000_TDT as int] < TX_RING_SIZE
        &&& self.regs[E1000_RDT as int] < RX_RING_SIZE
    }

    /// The shape of the register file, rings and buffers, whatever the registers hold.
    pub open spec fn wf_memory(self) -> bool {
        &&& self.regs.len() == REGS_LEN
        &&& self.mbuf_size == MBUF_SIZE
        &&& self.tx_ring.len() == TX_RING_SIZE
        &&& self.rx_ring.len() == RX_RING_SIZE
        &&& self.tx_mbufs.len() == TX_RING_SIZE
        &&& self.rx_mbufs.len() == RX_RING_SIZE
        &&& self.tx_bufs.len() == TX_RING_SIZE
        &&& self.rx_bufs.len() == RX_RING_SIZE
        &&& forall|i: int| 0 <= i < TX_RING_SIZE ==> (#[trigger] self.tx_bufs[i]).len() == MBUF_SIZE
        &&& forall|i: int| 0 <= i < RX_RING_SIZE ==> (#[trigger] self.rx_bufs[i]).len() == MBUF_SIZE
        &&& forall|i: int| 0 <= i < RX_RING_SIZE ==> (#[trigger] self.rx_ring[i]).length <= MBUF_SIZE
    }

    /// The transmit tail: the slot the next packet goes to.
    pub open spec fn tdt(self) -> int {
        self.regs[E1000_TDT as int] as int
    }

    /// The receive tail: the last slot handed back to the device.
    pub open spec fn rdt(self) -> int {
        self.regs[E1000_RDT as int] as int
    }

    /// Whether the slot at the transmit tail may take a new packet.
    pub open spec fn tx_slot_free(self) -> bool {
        tx_done(self.tx_ring[self.tdt()])
    }

    /// The first receive slot the driver looks at.
    pub open spec fn rx_start(self) -> int {
        (self.rdt() + 1) % (RX_RING_SIZE as int)
    }

    /// How many received packets the next receive call delivers.
    pub open spec fn rx_ready_count(self) -> nat {
        rx_run_len(self.rx_ring, self.rx_start(), RX_RING_SIZE as nat)
    }
}

/// Transmit control value written by initialisation: enabled, short packets padded,
/// collision threshold 0x10, collision distance 0x40.
pub open spec fn tctl_init() -> u32 {
    E1000_TCTL_EN | E1000_TCTL_PSP | (0x10u32 << E1000_TCTL_CT_SHIFT) | (0x40u32
        << E1000_TCTL_COLD_SHIFT)
}

/// Inter-packet gap written by initialisation.
pub open spec fn tipg_init() -> u32 {
    10u32 | (8u32 << 10u32) | (6u32 << 20u32)
}

/// Receive control value written by initialisation: enabled, broadcast accepted,
/// 2048-byte buffers, CRC stripped.
pub open spec fn rctl_init() -> u32 {
    E1000_RCTL_EN | E1000_RCTL_BAM | E1000_RCTL_SZ_2048 | E1000_RCTL_SECRC
}

/// Low half of the receive address: bytes 52:54:00:12 of MAC 52:54:00:12:34:56.
pub open spec fn ra_low_init() -> u32 {
    0x12005452u32
}

/// High half of the receive address: bytes 34:56 of MAC 52:54:00:12:34:56, with the
/// address-valid bit set.
pub open spec fn ra_high_init() -> u32 {
    0x5634u32 | (1u32 << 31u32)
}

/// Interrupt mask written by initialisation: receiver timer interrupt only.
pub open spec fn ims_init() -> u32 {
    1u32 << 7u32
}

/// The value register `i` holds after initialisation, given the register file `r` before it
/// and the physical addresses of the transmit and receive rings.
pub open spec fn init_reg(r: Seq<u32>, i: int, tx_dma: usize, rx_dma: usize) -> u32 {
    if i == E1000_CTL {
        r[i] | E1000_CTL_RST
    } else if i == E1000_IMS {
        ims_init()
    } else if i == E1000_TDBAL {
        tx_dma as u32
    } else if i == E1000_TDLEN {
        (TX_RING_SIZE * TX_DESC_SIZE) as u32
    } else if i == E1000_RDBAL {
        rx_dma as u32
    } else if i == E1000_RDLEN {
        (RX_RING_SIZE * RX_DESC_SIZE) as u32
    } else if i == E1000_RDT {
        (RX_RING_SIZE - 1) as u32
    } else if i == E1000_RA {
        ra_low_init()
    } else if i == E1000_RA + 1 {
        ra_high_init()
    } else if i == E1000_TCTL {
        tctl_init()
    } else if i == E1000_TIPG {
        tipg_init()
    } else if i == E1000_RCTL {
        rctl_init()
    } else if i == E1000_TDT || i == E1000_TDH || i == E1000_RDH || i == E1000_TIDV || i
        == E1000_TADV || i == E1000_RDTR || i == E1000_RADV || (E1000_MTA <= i < E1000_MTA
        + MTA_LEN) {
        0
    } else {
        r[i]
    }
}

/// The register file after initialisation.
pub open spec fn init_regs(r: Seq<u32>, tx_dma: usize, rx_dma: usize) -> Seq<u32> {
    Seq::new(r.len(), |i: int| init_reg(r, i, tx_dma, rx_dma))
}

/// The register accesses of initialisation, in order, given the control register's value
/// before it.
pub open spec fn init_trace(ctl: u32, tx_dma: usize, rx_dma: usize) -> Seq<Access> {
    seq![
        Access::Read(E1000_STAT as int),
        Access::Read(E1000_CTL as int),
        Access::Write(E1000_IMS as int, 0),
        Access::Write(E1000_CTL as int, ctl | E1000_CTL_RST),
        Access::Write(E1000_IMS as int, 0),
        Access::Write(E1000_TDBAL as int, tx_dma as u32),
        Access::Write(E1000_TDLEN as int, (TX_RING_SIZE * TX_DESC_SIZE) as u32),
        Access::Write(E1000_TDT as int, 0),
        Access::Write(E1000_TDH as int, 0),
        Access::Write(E1000_RDBAL as int, rx_dma as u32),
        Access::Write(E1000_RDLEN as int, (RX_RING_SIZE * RX_DESC_SIZE) as u32),
        Access::Write(E1000_RDH as int, 0),
        Access::Write(E1000_RDT as int, (RX_RING_SIZE - 1) as u32),
        Access::Write(E1000_RA as int, ra_low_init()),
        Access::Write(E1000_RA + 1, ra_high_init()),
    ] + Seq::new(MTA_LEN as nat, |i: int| Access::Write(E1000_MTA + i, 0)) + seq![
        Access::Write(E1000_TCTL as int, tctl_init()),
        Access::Write(E1000_TIPG as int, tipg_init()),
        Access::Write(E1000_RCTL as int, rctl_init()),
        Access::Write(E1000_TIDV as int, 0),
        Access::Write(E1000_TADV as int, 0),
        Access::Write(E1000_RDTR as int, 0),
        Access::Write(E1000_RADV as int, 0),
        Access::Write(E1000_IMS as int, ims_init()),
        Access::Read(E1000_ICR as int),
        Access::Read(E1000_STAT as int),
    ]
}

/// What initialisation does to a device state.
pub open spec fn init_post(old: DeviceView, new: DeviceView) -> bool {
    &&& new.regs == init_regs(old.regs, old.tx_ring_dma, old.rx_ring_dma)
    &&& new.trace == old.trace + init_trace(
        old.regs[E1000_CTL as int],
        old.tx_ring_dma,
        old.rx_ring_dma,
    )
    &&& new.tx_ring == old.tx_ring
    &&& new.rx_ring == old.rx_ring
    &&& new.tx_bufs == old.tx_bufs
    &&& new.rx_bufs == old.rx_bufs
    &&& same_setup(old, new)
}

/// Where the rings and buffers live, and the allocations behind them, are the same in both
/// states.
pub open spec fn same_setup(old: DeviceView, new: DeviceView) -> bool {
    &&& new.tx_mbufs == old.tx_mbufs
    &&& new.rx_mbufs == old.rx_mbufs
    &&& new.tx_ring_vaddr == old.tx_ring_vaddr
    &&& new.tx_ring_dma == old.tx_ring_dma
    &&& new.rx_ring_vaddr == old.rx_ring_vaddr
    &&& new.rx_ring_dma == old.rx_ring_dma
    &&& new.mapped_regs == old.mapped_regs
    &&& new.mbuf_size == old.mbuf_size
    &&& new.dma_allocs == old.dma_allocs
}

/// Everything but the register file and the access record is the same in both states.
pub open spec fn memory_unchanged(old: DeviceView, new: DeviceView) -> bool {
    &&& new.tx_ring == old.tx_ring
    &&& new.rx_ring == old.rx_ring
    &&& new.tx_bufs == old.tx_bufs
    &&& new.rx_bufs == old.rx_bufs
    &&& same_setup(old, new)
}

/// A single register write followed by the flushing read of the status register.
pub open spec fn write_flush_post(old: DeviceView, new: DeviceView, reg: int, val: u32) -> bool {
    &&& new.regs == old.regs.update(reg, val)
    &&& new.trace == old.trace + seq![Access::Write(reg, val), Access::Read(E1000_STAT as int)]
    &&& memory_unchanged(old, new)
}

/// What disabling interrupts does: all ones are written to the interrupt mask clear
/// register, then the status register is read.
pub open spec fn irq_disable_post(old: DeviceView, new: DeviceView) -> bool {
    write_flush_post(old, new, E1000_IMC as int, !0u32)
}

/// What enabling interrupts does: the driver's interrupt mask is written to the interrupt
/// mask set register, then the status register is read.
pub open spec fn irq_enable_post(old: DeviceView, new: DeviceView) -> bool {
    write_flush_post(old, new, E1000_IMS as int, IMS_ENABLE_MASK)
}

/// What a flush does: the status register is read, and nothing else happens.
pub open spec fn flush_post(old: DeviceView, new: DeviceView) -> bool {
    &&& new.regs == old.regs
    &&& new.trace == old.trace.push(Access::Read(E1000_STAT as int))
    &&& memory_unchanged(old, new)
}

/// What causing a link status change interrupt does: the link status change cause is
/// written to the interrupt cause set register.
pub open spec fn cause_lsc_post(old: DeviceView, new: DeviceView) -> bool {
    &&& new.regs == old.regs.update(E1000_ICS as int, E1000_ICR_LSC)
    &&& new.trace == old.trace.push(Access::Write(E1000_ICS as int, E1000_ICR_LSC))
    &&& memory_unchanged(old, new)
}

/// What acknowledging an interrupt does: the interrupt cause register is read and its value
/// returned as `cause`.
pub open spec fn intr_post(old: DeviceView, new: DeviceView, cause: u32) -> bool {
    &&& cause == old.regs[E1000_ICR as int]
    &&& new.regs == old.regs
    &&& new.trace == old.trace.push(Access::Read(E1000_ICR as int))
    &&& memory_unchanged(old, new)
}

/// The transmit descriptor after a packet of `len` bytes was handed to the device in it.
pub open spec fn tx_desc_filled(d: TxDesc, len: nat) -> TxDesc {
    TxDesc {
        addr: d.addr,
        length: len as u16,
        cso: d.cso,
        cmd: (E1000_TXD_CMD_RS | E1000_TXD_CMD_EOP) as u8,
        status: 0,
        css: d.css,
        special: d.special,
    }
}

/// What a transmit call does, given the packet and the returned value.
pub open spec fn tx_post(old: DeviceView, new: DeviceView, packet: Seq<u8>, r: i32) -> bool {
    let t: int = old.tdt();
    let next: u32 = ((t + 1) % (TX_RING_SIZE as int)) as u32;
    if !old.tx_slot_free() {
        &&& r == -1
        &&& new.regs == old.regs
        &&& new.trace == old.trace.push(Access::Read(E1000_TDT as int))
        &&& memory_unchanged(old, new)
    } else {
        &&& r == packet.len()
        &&& new.regs == old.regs.update(E1000_TDT as int, next)
        &&& new.trace == old.trace + seq![
            Access::Read(E1000_TDT as int),
            Access::TxSlot(t, new.tx_ring[t], new.tx_bufs[t]),
            Access::Write(E1000_TDT as int, next),
            Access::Read(E1000_STAT as int),
        ]
        &&& new.tx_ring == old.tx_ring.update(t, tx_desc_filled(old.tx_ring[t], packet.len()))
        &&& new.tx_bufs == old.tx_bufs.update(t, packet + old.tx_bufs[t].skip(packet.len() as int))
        &&& new.rx_ring == old.rx_ring
        &&& new.rx_bufs == old.rx_bufs
        &&& same_setup(old, new)
    }
}

/// The receive descriptor after the driver consumed it: its status is cleared.
pub open spec fn rx_desc_consumed(d: RxDesc) -> RxDesc {
    RxDesc {
        addr: d.addr,
        length: d.length,
        csum: d.csum,
        status: 0,
        errors: d.errors,
        special: d.special,
    }
}

/// A receive buffer after the driver consumed a packet of `len` bytes from it: its first
/// `min(64, len)` bytes are zero.
pub open spec fn rx_buf_consumed(buf: Seq<u8>, len: int) -> Seq<u8> {
    let h: int = if len < 64 { len } else { 64 };
    Seq::new(h as nat, |i: int| 0u8) + buf.skip(h)
}

/// Accesses of a receive call after its first read, when it consumes `k` packets starting
/// at slot `start` of a ring and buffers that held `ring` and `bufs`: for each packet, the
/// slot is stored consumed, then the new tail is written and the status register is read.
pub open spec fn recv_trace(ring: Seq<RxDesc>, bufs: Seq<Seq<u8>>, start: int, k: nat) -> Seq<
    Access,
>
    decreases k,
{
    if k == 0 {
        Seq::empty()
    } else {
        let p: int = ring_pos(start, k - 1);
        recv_trace(ring, bufs, start, (k - 1) as nat) + seq![
            Access::RxSlot(
                p,
                rx_desc_consumed(ring[p]),
                rx_buf_consumed(bufs[p], ring[p].length as int),
            ),
            Access::Write(E1000_RDT as int, p as u32),
            Access::Read(E1000_STAT as int),
        ]
    }
}

/// The packets a receive call returns when it consumes `k` packets starting at slot `start`.
pub open spec fn rx_packets(old: DeviceView, start: int, k: nat) -> Seq<Seq<u8>> {
    Seq::new(
        k,
        |j: int| old.rx_bufs[ring_pos(start, j)].take(old.rx_ring[ring_pos(start, j)].length as int),
    )
}

/// The receive ring after `k` descriptors starting at `start` were consumed.
pub open spec fn rx_ring_consumed(ring: Seq<RxDesc>, start: int, k: nat) -> Seq<RxDesc> {
    Seq::new(
        ring.len(),
        |p: int|
            if ring_offset(p, start) < k {
                rx_desc_consumed(ring[p])
            } else {
                ring[p]
            },
    )
}

/// The receive buffers after `k` packets starting at `start` were consumed.
pub open spec fn rx_bufs_consumed(
    ring: Seq<RxDesc>,
    bufs: Seq<Seq<u8>>,
    start: int,
    k: nat,
) -> Seq<Seq<u8>> {
    Seq::new(
        bufs.len(),
        |p: int|
            if ring_offset(p, start) < k {
                rx_buf_consumed(bufs[p], ring[p].length as int)
            } else {
                bufs[p]
            },
    )
}

/// What a receive call does, given what it returned.
pub open spec fn recv_post(old: DeviceView, new: DeviceView, r: Option<Seq<Seq<u8>>>) -> bool {
    let s: int = old.rx_start();
    let k: nat = old.rx_ready_count();
    &&& r == (if k == 0 {
        None
    } else {
        Some(rx_packets(old, s, k))
    })
    &&& new.regs == (if k == 0 {
        old.regs
    } else {
        old.regs.update(E1000_RDT as int, ring_pos(s, k - 1) as u32)
    })
    &&& new.trace == old.trace.push(Access::Read(E1000_RDT as int)) + recv_trace(old.rx_ring, old.rx_bufs, s, k)
    &&& new.rx_ring == rx_ring_consumed(old.rx_ring, s, k)
    &&& new.rx_bufs == rx_bufs_consumed(old.rx_ring, old.rx_bufs, s, k)
    &&& new.tx_ring == old.tx_ring
    &&& new.tx_bufs == old.tx_bufs
    &&& same_setup(old, new)
}

/// The packets a receive call returned, as sequences of bytes.
pub open spec fn packets_view(r: Option<Vec<Vec<u8>>>) -> Option<Seq<Seq<u8>>> {
    match r {
        Some(v) => Some(packets_seq(v@)),
        None => None,
    }
}

/// A sequence of packets, each as a sequence of bytes.
pub open spec fn packets_seq(v: Seq<Vec<u8>>) -> Seq<Seq<u8>> {
    Seq::new(v.len(), |j: int| v[j]@)
}

/// Transmit descriptor `i` as set up at creation: it points at its buffer and is marked
/// done, so that the driver may fill it.
pub open spec fn setup_tx_desc(buf_dma: usize, i: int) -> TxDesc {
    TxDesc {
        addr: (buf_dma + i * MBUF_SIZE) as u64,
        length: 0,
        cso: 0,
        cmd: 0,
        status: E1000_TXD_STAT_DD as u8,
        css: 0,
        special: 0,
    }
}

/// Receive descriptor `i` as set up at creation: it points at its buffer.
pub open spec fn setup_rx_desc(buf_dma: usize, i: int) -> RxDesc {
    RxDesc { addr: (buf_dma + i * MBUF_SIZE) as u64, length: 0, csum: 0, status: 0, errors: 0, special: 0 }
}

/// A device state as set up at creation, before initialisation: the registers hold `regs`,
/// no access was made yet, the rings and buffer areas are the given (virtual, physical)
/// allocations, both rings point at consecutive buffers of `MBUF_SIZE` bytes in their buffer
/// area, and the buffers are zeroed.
pub open spec fn setup_view(
    regs: Seq<u32>,
    mapped_regs: usize,
    tx_ring: (usize, usize),
    rx_ring: (usize, usize),
    tx_bufs: (usize, usize),
    rx_bufs: (usize, usize),
    dma_allocs: Seq<(usize, usize, usize)>,
) -> DeviceView {
    DeviceView {
        regs,
        trace: Seq::empty(),
        tx_ring: Seq::new(TX_RING_SIZE as nat, |i: int| setup_tx_desc(tx_bufs.1, i)),
        rx_ring: Seq::new(RX_RING_SIZE as nat, |i: int| setup_rx_desc(rx_bufs.1, i)),
        tx_mbufs: Seq::new(TX_RING_SIZE as nat, |i: int| (tx_bufs.0 + i * MBUF_SIZE) as usize),
        rx_mbufs: Seq::new(RX_RING_SIZE as nat, |i: int| (rx_bufs.0 + i * MBUF_SIZE) as usize),
        tx_bufs: Seq::new(TX_RING_SIZE as nat, |i: int| Seq::new(MBUF_SIZE as nat, |j: int| 0u8)),
        rx_bufs: Seq::new(RX_RING_SIZE as nat, |i: int| Seq::new(MBUF_SIZE as nat, |j: int| 0u8)),
        tx_ring_vaddr: tx_ring.0,
        tx_ring_dma: tx_ring.1,
        rx_ring_vaddr: rx_ring.0,
        rx_ring_dma: rx_ring.1,
        mapped_regs,
        mbuf_size: MBUF_SIZE,
        dma_allocs,
    }
}

/// Whether a buffer area of `TX_RING_SIZE` (or `RX_RING_SIZE`) buffers starting at `addr`
/// stays within the address space.
pub open spec fn buffer_area_fits(addr: usize) -> bool {
    addr + TX_RING_SIZE * MBUF_SIZE <= usize::MAX && addr + RX_RING_SIZE * MBUF_SIZE <= usize::MAX
}

/// Whether the buffer areas handed back by the allocator can be used: the receive area was
/// allocated (its address is not 0) and no buffer area runs past the end of the address
/// space.
pub open spec fn buffers_usable(tx_bufs: (usize, usize), rx_bufs: (usize, usize)) -> bool {
    &&& rx_bufs.0 != 0
    &&& buffer_area_fits(tx_bufs.0)
    &&& buffer_area_fits(tx_bufs.1)
    &&& buffer_area_fits(rx_bufs.0)
    &&& buffer_area_fits(rx_bufs.1)
}

/// A transmit descriptor after the device wrote back that it has sent the packet.
pub open spec fn tx_desc_written_back(d: TxDesc) -> TxDesc {
    TxDesc {
        addr: d.addr,
        length: d.length,
        cso: d.cso,
        cmd: d.cmd,
        status: d.status | (E1000_TXD_STAT_DD as u8),
        css: d.css,
        special: d.special,
    }
}

/// A receive descriptor after the device wrote a frame of `len` bytes into its buffer.
pub open spec fn rx_desc_written_back(d: RxDesc, len: nat) -> RxDesc {
    RxDesc {
        addr: d.addr,
        length: len as u16,
        csum: d.csum,
        status: d.status | ((E1000_RXD_STAT_DD | E1000_RXD_STAT_EOP) as u8),
        errors: d.errors,
        special: d.special,
    }
}

/// The page counts a new device asks the allocator for, in order: the transmit ring, the
/// receive ring, the transmit buffers and the receive buffers.
pub open spec fn alloc_pages(page_size: nat) -> Seq<usize> {
    seq![
        pages_for((TX_RING_SIZE * TX_DESC_SIZE) as nat, page_size) as usize,
        pages_for((RX_RING_SIZE * RX_DESC_SIZE) as nat, page_size) as usize,
        pages_for((TX_RING_SIZE * MBUF_SIZE) as nat, page_size) as usize,
        pages_for((RX_RING_SIZE * MBUF_SIZE) as nat, page_size) as usize,
    ]
}

/// Number of pages of `page_size` bytes that hold `bytes` bytes.
pub open spec fn pages_for(bytes: nat, page_size: nat) -> nat
    recommends
        page_size > 0,
{
    ((bytes + page_size - 1) / (page_size as int)) as nat
}

} // verus!

verus! {

/// Walking `j` steps from `start` and measuring back gives `j`; positions stay in the ring.
pub proof fn lemma_ring_pos_offset(start: int, j: int)
    requires
        0 <= start < RX_RING_SIZE,
        0 <= j < RX_RING_SIZE,
    ensures
        0 <= ring_pos(start, j) < RX_RING_SIZE,
        ring_offset(ring_pos(start, j), start) == j,
{
    let n: int = RX_RING_SIZE as int;
    if start + j < n {
        assert(ring_pos(start, j) == start + j);
    } else {
        assert(ring_pos(start, j) == start + j - n);
        assert((j - n) % n == j);
    }
}

/// Measuring how far slot `p` lies after `start` and walking that far from `start` gives `p`.
pub proof fn lemma_ring_offset_pos(p: int, start: int)
    requires
        0 <= start < RX_RING_SIZE,
        0 <= p < RX_RING_SIZE,
    ensures
        0 <= ring_offset(p, start) < RX_RING_SIZE,
        ring_pos(start, ring_offset(p, start)) == p,
{
    let n: int = RX_RING_SIZE as int;
    if p >= start {
        assert(ring_offset(p, start) == p - start);
    } else {
        assert(ring_offset(p, start) == p - start + n);
        assert((start + (p - start + n)) % n == p);
    }
}

/// The run of filled descriptors from `start` is exactly `i` long when the first `i` slots
/// are filled and the next one (if looked at) is not.
pub proof fn lemma_run_len_exact(ring: Seq<RxDesc>, start: int, n: nat, i: nat)
    requires
        ring.len() == RX_RING_SIZE,
        i <= n,
        forall|j: int| 0 <= j < i ==> rx_done(#[trigger] ring[ring_pos(start, j)]),
        i == n || !rx_done(ring[ring_pos(start, i as int)]),
    ensures
        rx_run_len(ring, start, n) == i,
    decreases i,
{
    if i == 0 {
        if n != 0 {
            assert(ring_pos(start, 0) == start % (RX_RING_SIZE as int));
        }
    } else {
        assert(ring_pos(start, 0) == start % (RX_RING_SIZE as int));
        assert(rx_done(ring[ring_pos(start, 0)]));
        assert forall|j: int| 0 <= j < i - 1 implies rx_done(#[trigger] ring[ring_pos(start + 1, j)]) by {
            assert(ring_pos(start + 1, j) == ring_pos(start, j + 1));
            assert(rx_done(ring[ring_pos(start, j + 1)]));
        }
        if i < n {
            assert(ring_pos(start + 1, i - 1) == ring_pos(start, i as int));
        }
        lemma_run_len_exact(ring, start + 1, (n - 1) as nat, (i - 1) as nat);
    }
}

/// The run of filled descriptors from `start` looks at no more than `n` slots, all the slots
/// in it are filled, and the slot just after it, where looked at, is not.
pub proof fn lemma_run_len_bounds(ring: Seq<RxDesc>, start: int, n: nat)
    requires
        ring.len() == RX_RING_SIZE,
    ensures
        rx_run_len(ring, start, n) <= n,
        forall|j: int|
            0 <= j < rx_run_len(ring, start, n) ==> rx_done(#[trigger] ring[ring_pos(start, j)]),
        rx_run_len(ring, start, n) < n ==> !rx_done(
            ring[ring_pos(start, rx_run_len(ring, start, n) as int)],
        ),
    decreases n,
{
    assert(ring_pos(start, 0) == start % (RX_RING_SIZE as int));
    if n > 0 && rx_done(ring[start % (RX_RING_SIZE as int)]) {
        lemma_run_len_bounds(ring, start + 1, (n - 1) as nat);
        let k: nat = rx_run_len(ring, start, n);
        assert(k == 1 + rx_run_len(ring, start + 1, (n - 1) as nat));
        assert forall|j: int| 0 <= j < k implies rx_done(#[trigger] ring[ring_pos(start, j)]) by {
            if j > 0 {
                assert(ring_pos(start, j) == ring_pos(start + 1, j - 1));
            }
        }
        if k < n {
            assert(ring_pos(start, k as int) == ring_pos(start + 1, k - 1));
        }
    }
}

} // verus!
