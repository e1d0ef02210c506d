//! The e1000 driver: initialisation, transmission, reception and interrupt control.
use vstd::prelude::*;
use crate::consts::{
    E1000_CTL, E1000_CTL_RST, E1000_ICR, E1000_ICR_LSC, E1000_ICS, E1000_IMC, E1000_IMS,
    E1000_MTA, E1000_RA, E1000_RADV, E1000_RCTL, E1000_RCTL_BAM, E1000_RCTL_EN, E1000_RCTL_SECRC,
    E1000_RCTL_SZ_2048, E1000_RDBAL, E1000_RDH, E1000_RDLEN, E1000_RDT, E1000_RDTR,
    E1000_RXD_STAT_DD, E1000_RXD_STAT_EOP, E1000_STAT, E1000_TADV, E1000_TCTL,
    E1000_TCTL_COLD_SHIFT, E1000_TCTL_CT_SHIFT, E1000_TCTL_EN, E1000_TCTL_PSP, E1000_TDBAL,
    E1000_TDH, E1000_TDLEN, E1000_TDT, E1000_TIDV, E1000_TIPG, E1000_TXD_CMD_EOP,
    E1000_TXD_CMD_RS, E1000_TXD_STAT_DD, IMS_ENABLE_MASK, MBUF_SIZE, MTA_LEN, REGS_LEN,
    RX_DESC_SIZE, RX_RING_SIZE, TX_DESC_SIZE, TX_RING_SIZE,
};
use crate::desc::{
    RxDesc, TxDesc,
};
use crate::spec::{
    alloc_pages, buffer_area_fits, buffers_usable, init_post, init_regs, init_trace, lemma_ring_offset_pos,
    lemma_ring_pos_offset, lemma_run_len_exact, memory_unchanged, packets_seq, same_setup, packets_view,
    pages_for, recv_post, recv_trace, ring_offset, ring_pos, rx_buf_consumed, rx_bufs_consumed,
    rx_desc_written_back, rx_done, rx_packets, rx_ring_consumed, setup_rx_desc, setup_tx_desc,
    setup_view, tx_desc_filled, tx_desc_written_back, tx_post, irq_disable_post, irq_enable_post, flush_post, cause_lsc_post, intr_post, DeviceView,
    Access,
};

verus! {

/// Kernel functions that drivers must use.
pub trait KernelFunc {
    /// Page size (usually 4K).
    const PAGE_SIZE: usize = 4096;

    /// Allocate consecutive physical memory for DMA;
    /// return (cpu virtual address, dma physical address), which is page aligned.
    fn dma_alloc_coherent(&mut self, pages: usize) -> (usize, usize);

    /// Deallocate DMA memory by virtual address.
    fn dma_free_coherent(&mut self, vaddr: usize, pages: usize);
}

/// Main structure of the e1000 driver.
/// Holds the device's 32-bit registers as a register file, with a record of every access
/// the driver makes to them, and both descriptor rings and all packet buffers, which the
/// driver shares with the device.
pub struct E1000Device<K: KernelFunc> {
    regs: Vec<u32>,
    trace: Ghost<Seq<Access>>,
    rx_ring_vaddr: usize,
    rx_ring_dma: usize,
    tx_ring_vaddr: usize,
    tx_ring_dma: usize,
    rx_ring: Vec<RxDesc>,
    tx_ring: Vec<TxDesc>,
    rx_mbufs: Vec<usize>,
    tx_mbufs: Vec<usize>,
    rx_bufs: Vec<Vec<u8>>,
    tx_bufs: Vec<Vec<u8>>,
    mbuf_size: usize,
    mapped_regs: usize,
    dma_allocs: Ghost<Seq<(usize, usize, usize)>>,
    kfn: K,
}

impl<K: KernelFunc> View for E1000Device<K> {
    type V = DeviceView;

    closed spec fn view(&self) -> DeviceView {
        DeviceView {
            regs: self.regs@,
            trace: self.trace@,
            tx_ring: self.tx_ring@,
            rx_ring: self.rx_ring@,
            tx_mbufs: self.tx_mbufs@,
            rx_mbufs: self.rx_mbufs@,
            tx_bufs: self.tx_bufs@.map_values(|b: Vec<u8>| b@),
            rx_bufs: self.rx_bufs@.map_values(|b: Vec<u8>| b@),
            tx_ring_vaddr: self.tx_ring_vaddr,
            tx_ring_dma: self.tx_ring_dma,
            rx_ring_vaddr: self.rx_ring_vaddr,
            rx_ring_dma: self.rx_ring_dma,
            mapped_regs: self.mapped_regs,
            mbuf_size: self.mbuf_size,
            dma_allocs: self.dma_allocs@,
        }
    }
}

/// Number of pages of `page_size` bytes needed to hold `bytes` bytes.
fn pages_for_bytes(bytes: usize, page_size: usize) -> (pages: usize)
    requires
        page_size > 0,
        bytes + page_size - 1 <= usize::MAX,
    ensures
        pages == pages_for(bytes as nat, page_size as nat),
{
    (bytes + (page_size - 1)) / page_size
}

/// Asks the kernel for `pages` pages of DMA memory, and records the request and the
/// (virtual, physical) addresses handed back.
fn dma_alloc<K: KernelFunc>(
    kfn: &mut K,
    pages: usize,
    log: &mut Ghost<Seq<(usize, usize, usize)>>,
) -> (r: (usize, usize))
    ensures
        final(log)@ == old(log)@.push((pages, r.0, r.1)),
{
    let r = kfn.dma_alloc_coherent(pages);
    *log = Ghost(log@.push((pages, r.0, r.1)));
    r
}

/// A zeroed packet buffer.
fn zeroed_buffer() -> (buf: Vec<u8>)
    ensures
        buf@ == Seq::new(MBUF_SIZE as nat, |j: int| 0u8),
{
    let mut buf: Vec<u8> = Vec::with_capacity(MBUF_SIZE);
    for i in 0..MBUF_SIZE
        invariant
            buf@.len() == i,
            forall|j: int| 0 <= j < i ==> buf@[j] == 0u8,
    {
        buf.push(0);
    }
    assert(buf@ =~= Seq::new(MBUF_SIZE as nat, |j: int| 0u8));
    buf
}

impl<K: KernelFunc> E1000Device<K> {
    /// New an e1000 device: allocate DMA memory for the transmit ring, the receive ring, the
    /// transmit buffers and the receive buffers, in that order and each in whole pages,
    /// then set the device up over it (see `from_allocations`). `regs` holds the contents
    /// of the device's registers, read at `mapped_regs`.
    /// Fails with -1 where the allocator's buffer areas cannot be used.
    pub fn new(mut kfn: K, mapped_regs: usize, regs: Vec<u32>) -> (r: Result<Self, i32>)
        requires
            regs@.len() == REGS_LEN,
            0 < K::PAGE_SIZE <= usize::MAX - TX_RING_SIZE * MBUF_SIZE,
        ensures
            match r {
                Ok(dev) => {
                    let a = dev@.dma_allocs;
                    &&& dev.wf()
                    &&& a.len() == 4
                    &&& forall|i: int|
                        0 <= i < 4 ==> #[trigger] a[i].0 == alloc_pages(K::PAGE_SIZE as nat)[i]
                    &&& buffers_usable((a[2].1, a[2].2), (a[3].1, a[3].2))
                    &&& init_post(
                        setup_view(
                            regs@,
                            mapped_regs,
                            (a[0].1, a[0].2),
                            (a[1].1, a[1].2),
                            (a[2].1, a[2].2),
                            (a[3].1, a[3].2),
                            a,
                        ),
                        dev@,
                    )
                },
                Err(e) => e == -1,
            },
    {
        // The ring memory has to be 16-byte aligned; whole pages are.
        let alloc_tx_ring_pages: usize = pages_for_bytes(TX_RING_SIZE * TX_DESC_SIZE, K::PAGE_SIZE);
        let alloc_rx_ring_pages: usize = pages_for_bytes(RX_RING_SIZE * RX_DESC_SIZE, K::PAGE_SIZE);
        let mut log: Ghost<Seq<(usize, usize, usize)>> = Ghost(Seq::empty());
        let tx_ring = dma_alloc(&mut kfn, alloc_tx_ring_pages, &mut log);
        let rx_ring = dma_alloc(&mut kfn, alloc_rx_ring_pages, &mut log);

        let alloc_tx_buffer_pages: usize = pages_for_bytes(TX_RING_SIZE * MBUF_SIZE, K::PAGE_SIZE);
        let alloc_rx_buffer_pages: usize = pages_for_bytes(RX_RING_SIZE * MBUF_SIZE, K::PAGE_SIZE);
        let tx_mbufs = dma_alloc(&mut kfn, alloc_tx_buffer_pages, &mut log);
        let rx_mbufs = dma_alloc(&mut kfn, alloc_rx_buffer_pages, &mut log);

        let ghost allocs = log@;
        proof {
            assert(allocs =~= seq![
                (alloc_tx_ring_pages, tx_ring.0, tx_ring.1),
                (alloc_rx_ring_pages, rx_ring.0, rx_ring.1),
                (alloc_tx_buffer_pages, tx_mbufs.0, tx_mbufs.1),
                (alloc_rx_buffer_pages, rx_mbufs.0, rx_mbufs.1),
            ]);
        }
        match Self::from_allocations(kfn, mapped_regs, regs, tx_ring, rx_ring, tx_mbufs, rx_mbufs) {
            Ok(mut dev) => {
                let ghost before = dev@;
                dev.dma_allocs = log;
                proof {
                    let a = dev@.dma_allocs;
                    assert(a =~= allocs);
                    assert(forall|i: int| 0 <= i < 4 ==> #[trigger] a[i].0 == alloc_pages(K::PAGE_SIZE as nat)[i]);
                    let s0 = setup_view(regs@, mapped_regs, tx_ring, rx_ring, tx_mbufs, rx_mbufs, Seq::empty());
                    let s1 = setup_view(regs@, mapped_regs, tx_ring, rx_ring, tx_mbufs, rx_mbufs, allocs);
                    assert(init_post(s0, before));
                    assert(s1.regs == s0.regs);
                    assert(s1.trace == s0.trace);
                }
                Ok(dev)
            },
            Err(e) => Err(e),
        }
    }

    /// Sets up a device over DMA memory the allocator handed back as (virtual, physical)
    /// address pairs: the transmit ring, the receive ring, and the transmit and receive
    /// buffer areas, each area cut into buffers of `MBUF_SIZE` bytes. `regs` holds the
    /// contents of the device's registers, read at `mapped_regs`. Every transmit descriptor
    /// is marked done, so that it can be filled; then the device is initialized.
    /// Fails with -1, and sets nothing up, where the receive buffer area was not allocated
    /// (its address is 0) or a buffer area would run past the end of the address space.
    pub fn from_allocations(
        kfn: K,
        mapped_regs: usize,
        regs: Vec<u32>,
        tx_ring: (usize, usize),
        rx_ring: (usize, usize),
        tx_mbufs: (usize, usize),
        rx_mbufs: (usize, usize),
    ) -> (r: Result<Self, i32>)
        requires
            regs@.len() == REGS_LEN,
        ensures
            r is Err <==> !buffers_usable(tx_mbufs, rx_mbufs),
            match r {
                Ok(dev) => {
                    &&& dev.wf()
                    &&& dev.kernel() == kfn
                    &&& init_post(
                        setup_view(regs@, mapped_regs, tx_ring, rx_ring, tx_mbufs, rx_mbufs, Seq::empty()),
                        dev@,
                    )
                },
                Err(e) => e == -1,
            },
    {
        let (tx_mbufs_vaddr, tx_mbufs_dma) = tx_mbufs;
        let (rx_mbufs_vaddr, rx_mbufs_dma) = rx_mbufs;
        if rx_mbufs_vaddr == 0 {
            // e1000, alloc dma rx buffer failed
            return Err(-1);
        }
        if tx_mbufs_vaddr > usize::MAX - TX_RING_SIZE * MBUF_SIZE || tx_mbufs_dma > usize::MAX
            - TX_RING_SIZE * MBUF_SIZE || rx_mbufs_vaddr > usize::MAX - RX_RING_SIZE * MBUF_SIZE
            || rx_mbufs_dma > usize::MAX - RX_RING_SIZE * MBUF_SIZE {
            return Err(-1);
        }
        let ghost setup = setup_view(regs@, mapped_regs, tx_ring, rx_ring, tx_mbufs, rx_mbufs, Seq::empty());

        let mut tx_ring_v: Vec<TxDesc> = Vec::with_capacity(TX_RING_SIZE);
        let mut tx_mbufs_v: Vec<usize> = Vec::with_capacity(TX_RING_SIZE);
        let mut tx_bufs: Vec<Vec<u8>> = Vec::with_capacity(TX_RING_SIZE);
        let mut tx_dma: usize = tx_mbufs_dma;
        let mut tx_vaddr: usize = tx_mbufs_vaddr;
        for i in 0..TX_RING_SIZE
            invariant
                buffer_area_fits(tx_mbufs_vaddr),
                buffer_area_fits(tx_mbufs_dma),
                tx_dma == tx_mbufs_dma + i * MBUF_SIZE,
                tx_vaddr == tx_mbufs_vaddr + i * MBUF_SIZE,
                tx_ring_v@.len() == i,
                tx_mbufs_v@.len() == i,
                tx_bufs@.len() == i,
                forall|j: int| 0 <= j < i ==> tx_ring_v@[j] == setup_tx_desc(tx_mbufs_dma, j),
                forall|j: int| 0 <= j < i ==> tx_mbufs_v@[j] == tx_mbufs_vaddr + j * MBUF_SIZE,
                forall|j: int|
                    0 <= j < i ==> tx_bufs@[j]@ == Seq::new(MBUF_SIZE as nat, |k: int| 0u8),
        {
            tx_ring_v.push(
                TxDesc {
                    addr: tx_dma as u64,
                    length: 0,
                    cso: 0,
                    cmd: 0,
                    status: E1000_TXD_STAT_DD as u8,
                    css: 0,
                    special: 0,
                },
            );
            tx_mbufs_v.push(tx_vaddr);
            tx_bufs.push(zeroed_buffer());
            tx_dma = tx_dma + MBUF_SIZE;
            tx_vaddr = tx_vaddr + MBUF_SIZE;
        }

        let mut rx_ring_v: Vec<RxDesc> = Vec::with_capacity(RX_RING_SIZE);
        let mut rx_mbufs_v: Vec<usize> = Vec::with_capacity(RX_RING_SIZE);
        let mut rx_bufs: Vec<Vec<u8>> = Vec::with_capacity(RX_RING_SIZE);
        let mut rx_dma: usize = rx_mbufs_dma;
        let mut rx_vaddr: usize = rx_mbufs_vaddr;
        for i in 0..RX_RING_SIZE
            invariant
                buffer_area_fits(rx_mbufs_vaddr),
                buffer_area_fits(rx_mbufs_dma),
                rx_dma == rx_mbufs_dma + i * MBUF_SIZE,
                rx_vaddr == rx_mbufs_vaddr + i * MBUF_SIZE,
                rx_ring_v@.len() == i,
                rx_mbufs_v@.len() == i,
                rx_bufs@.len() == i,
                forall|j: int| 0 <= j < i ==> rx_ring_v@[j] == setup_rx_desc(rx_mbufs_dma, j),
                forall|j: int| 0 <= j < i ==> rx_mbufs_v@[j] == rx_mbufs_vaddr + j * MBUF_SIZE,
                forall|j: int|
                    0 <= j < i ==> rx_bufs@[j]@ == Seq::new(MBUF_SIZE as nat, |k: int| 0u8),
        {
            rx_ring_v.push(RxDesc { addr: rx_dma as u64, length: 0, csum: 0, status: 0, errors: 0, special: 0 });
            rx_mbufs_v.push(rx_vaddr);
            rx_bufs.push(zeroed_buffer());
            rx_dma = rx_dma + MBUF_SIZE;
            rx_vaddr = rx_vaddr + MBUF_SIZE;
        }

        let mut dev = E1000Device {
            regs,
            trace: Ghost(Seq::empty()),
            rx_ring_vaddr: rx_ring.0,
            rx_ring_dma: rx_ring.1,
            tx_ring_vaddr: tx_ring.0,
            tx_ring_dma: tx_ring.1,
            rx_ring: rx_ring_v,
            tx_ring: tx_ring_v,
            rx_mbufs: rx_mbufs_v,
            tx_mbufs: tx_mbufs_v,
            rx_bufs,
            tx_bufs,
            mbuf_size: MBUF_SIZE,
            mapped_regs,
            dma_allocs: Ghost(Seq::empty()),
            kfn,
        };
        proof {
            assert(dev@.tx_ring =~= setup.tx_ring);
            assert(dev@.rx_ring =~= setup.rx_ring);
            assert(dev@.tx_mbufs =~= setup.tx_mbufs);
            assert(dev@.rx_mbufs =~= setup.rx_mbufs);
            assert(dev@.tx_bufs =~= setup.tx_bufs);
            assert(dev@.rx_bufs =~= setup.rx_bufs);
            assert(dev@ =~= setup);
        }
        dev.e1000_init();
        Ok(dev)
    }

    /// The kernel functions the device was made with.
    pub closed spec fn kernel(&self) -> K {
        self.kfn
    }

    /// The driver's invariant: that of its model.
    pub open spec fn wf(&self) -> bool {
        self@.wf()
    }

    /// Reads a register, recording the access.
    fn read_reg(&mut self, idx: usize) -> (v: u32)
        requires
            idx < old(self).regs@.len(),
        ensures
            v == old(self).regs@[idx as int],
            final(self).regs == old(self).regs,
            final(self).trace@ == old(self).trace@.push(Access::Read(idx as int)),
            final(self).tx_ring == old(self).tx_ring,
            final(self).rx_ring == old(self).rx_ring,
            final(self).tx_mbufs == old(self).tx_mbufs,
            final(self).rx_mbufs == old(self).rx_mbufs,
            final(self).tx_bufs == old(self).tx_bufs,
            final(self).rx_bufs == old(self).rx_bufs,
            final(self).tx_ring_dma == old(self).tx_ring_dma,
            final(self).rx_ring_dma == old(self).rx_ring_dma,
            final(self).mapped_regs == old(self).mapped_regs,
            final(self).mbuf_size == old(self).mbuf_size,
            final(self).tx_ring_vaddr == old(self).tx_ring_vaddr,
            final(self).rx_ring_vaddr == old(self).rx_ring_vaddr,
            final(self).dma_allocs == old(self).dma_allocs,
            final(self).kfn == old(self).kfn,
    {
        let v: u32 = self.regs[idx];
        self.trace = Ghost(self.trace@.push(Access::Read(idx as int)));
        v
    }

    /// Writes a register, recording the access.
    fn write_reg(&mut self, idx: usize, val: u32)
        requires
            idx < old(self).regs@.len(),
        ensures
            final(self).regs@ == old(self).regs@.update(idx as int, val),
            final(self).trace@ == old(self).trace@.push(Access::Write(idx as int, val)),
            final(self).tx_ring == old(self).tx_ring,
            final(self).rx_ring == old(self).rx_ring,
            final(self).tx_mbufs == old(self).tx_mbufs,
            final(self).rx_mbufs == old(self).rx_mbufs,
            final(self).tx_bufs == old(self).tx_bufs,
            final(self).rx_bufs == old(self).rx_bufs,
            final(self).tx_ring_dma == old(self).tx_ring_dma,
            final(self).rx_ring_dma == old(self).rx_ring_dma,
            final(self).mapped_regs == old(self).mapped_regs,
            final(self).mbuf_size == old(self).mbuf_size,
            final(self).tx_ring_vaddr == old(self).tx_ring_vaddr,
            final(self).rx_ring_vaddr == old(self).rx_ring_vaddr,
            final(self).dma_allocs == old(self).dma_allocs,
            final(self).kfn == old(self).kfn,
    {
        self.regs[idx] = val;
        self.trace = Ghost(self.trace@.push(Access::Write(idx as int, val)));
    }

    /// Initialize e1000 driver: reset the device, point it at both descriptor rings,
    /// set the receive address and multicast table, and enable transmitter, receiver
    /// and the receive interrupt.
    pub fn e1000_init(&mut self)
        requires
            old(self)@.wf_memory(),
        ensures
            final(self).kernel() == old(self).kernel(),
            final(self).wf(),
            init_post(old(self)@, final(self)@),
    {
        let ghost pre = self@;
        let _stat: u32 = self.read_reg(E1000_STAT);
        let ctl: u32 = self.read_reg(E1000_CTL);

        // Reset the device
        self.write_reg(E1000_IMS, 0);  // disable interrupts
        self.write_reg(E1000_CTL, ctl | E1000_CTL_RST);
        self.write_reg(E1000_IMS, 0);  // redisable interrupts

        // [E1000 14.5] Transmit initialization
        let tx_ring_dma: usize = self.tx_ring_dma;
        let tx_ring_bytes: usize = self.tx_ring.len() * TX_DESC_SIZE;
        self.write_reg(E1000_TDBAL, tx_ring_dma as u32);
        self.write_reg(E1000_TDLEN, tx_ring_bytes as u32);
        self.write_reg(E1000_TDT, 0);
        self.write_reg(E1000_TDH, 0);

        // [E1000 14.4] Receive initialization
        let rx_ring_dma: usize = self.rx_ring_dma;
        let rx_ring_bytes: usize = self.rx_ring.len() * RX_DESC_SIZE;
        self.write_reg(E1000_RDBAL, rx_ring_dma as u32);
        self.write_reg(E1000_RDLEN, rx_ring_bytes as u32);
        self.write_reg(E1000_RDH, 0);
        self.write_reg(E1000_RDT, (RX_RING_SIZE - 1) as u32);

        // filter by qemu's MAC address, 52:54:00:12:34:56
        self.write_reg(E1000_RA, 0x12005452);
        self.write_reg(E1000_RA + 1, 0x5634 | (1u32 << 31u32));

        let ghost mid = self@;
        proof {
            assert(mid.trace =~= pre.trace + init_trace(pre.regs[E1000_CTL as int], pre.tx_ring_dma, pre.rx_ring_dma).take(15));
        }
        // multicast table
        for i in 0..MTA_LEN
            invariant
                self.kernel() == old(self).kernel(),
                self.wf(),
                memory_unchanged(pre, self@),
                self.regs@.len() == REGS_LEN,
                forall|j: int|
                    0 <= j < REGS_LEN ==> #[trigger] self.regs@[j] == (if E1000_MTA <= j < E1000_MTA + i {
                        0
                    } else {
                        mid.regs[j]
                    }),
                self.trace@ == mid.trace + Seq::new(i as nat, |k: int| Access::Write(E1000_MTA + k, 0)),
        {
            self.write_reg(E1000_MTA + i, 0);
            proof {
                assert(self.trace@ =~= mid.trace + Seq::new((i + 1) as nat, |k: int| Access::Write(E1000_MTA + k, 0)));
            }
        }
        let ghost after_mta = self@;

        // transmitter control bits.
        self.write_reg(
            E1000_TCTL,
            E1000_TCTL_EN |  // enable
            E1000_TCTL_PSP |  // pad short packets
            (0x10u32 << E1000_TCTL_CT_SHIFT) |  // collision stuff
            (0x40u32 << E1000_TCTL_COLD_SHIFT),
        );
        self.write_reg(E1000_TIPG, 10u32 | (8u32 << 10u32) | (6u32 << 20u32));  // inter-pkt gap

        // receiver control bits.
        self.write_reg(
            E1000_RCTL,
            E1000_RCTL_EN |  // enable receiver
            E1000_RCTL_BAM |  // enable broadcast
            E1000_RCTL_SZ_2048 |  // 2048-byte rx buffers
            E1000_RCTL_SECRC,  // strip CRC
        );

        self.write_reg(E1000_TIDV, 0);
        self.write_reg(E1000_TADV, 0);
        // ask e1000 for receive interrupts.
        self.write_reg(E1000_RDTR, 0);  // interrupt after every received packet (no timer)
        self.write_reg(E1000_RADV, 0);  // interrupt after every packet (no timer)
        self.write_reg(E1000_IMS, 1u32 << 7u32);  // RXT0 - Receiver Timer Interrupt

        let _icr: u32 = self.read_reg(E1000_ICR);  // clear ints
        self.e1000_write_flush();
        proof {
            let t = init_trace(pre.regs[E1000_CTL as int], pre.tx_ring_dma, pre.rx_ring_dma);
            assert(after_mta.trace =~= pre.trace + t.take(15 + MTA_LEN));
            assert(self@.trace =~= pre.trace + t);
            assert(self@.regs =~= init_regs(pre.regs, pre.tx_ring_dma, pre.rx_ring_dma));
        }
    }

    /// Transmitting network packets.
    /// Returns -1, and hands nothing to the device, where the device has not finished the
    /// previous request in the slot at the transmit tail. Otherwise copies the packet into
    /// that slot's buffer, fills its descriptor, advances the transmit tail and returns the
    /// packet's length.
    pub fn e1000_transmit(&mut self, packet: &[u8]) -> (r: i32)
        requires
            old(self).wf(),
            packet@.len() <= MBUF_SIZE || !old(self)@.tx_slot_free(),
        ensures
            final(self).kernel() == old(self).kernel(),
            final(self).wf(),
            tx_post(old(self)@, final(self)@, packet@, r),
    {
        let ghost pre = self@;
        let tindex: usize = self.read_reg(E1000_TDT) as usize;
        if (self.tx_ring[tindex].status & E1000_TXD_STAT_DD as u8) == 0 {
            // E1000 hasn't finished the corresponding previous transmission request
            return -1;
        }
        let mut length: usize = packet.len();
        if length > self.mbuf_size {
            length = self.mbuf_size;
        }
        let ghost mid = self@;
        assert(pre.tx_slot_free());
        assert(length == packet@.len());
        let mut k: usize = 0;
        while k < length
            invariant
                self.kernel() == old(self).kernel(),
                self.wf(),
                mid.wf(),
                length == packet@.len(),
                length <= MBUF_SIZE,
                k <= length,
                tindex < TX_RING_SIZE,
                self@.regs == mid.regs,
                self@.trace == mid.trace,
                self@.tx_ring == mid.tx_ring,
                self@.rx_ring == mid.rx_ring,
                self@.tx_mbufs == mid.tx_mbufs,
                self@.rx_mbufs == mid.rx_mbufs,
                self@.rx_bufs == mid.rx_bufs,
                self@.tx_ring_dma == mid.tx_ring_dma,
                self@.rx_ring_dma == mid.rx_ring_dma,
                self@.mapped_regs == mid.mapped_regs,
                same_setup(mid, self@),
                self.tx_bufs@.len() == TX_RING_SIZE,
                forall|p: int|
                    0 <= p < TX_RING_SIZE && p != tindex ==> (#[trigger] self.tx_bufs@[p])@
                        == mid.tx_bufs[p],
                self.tx_bufs@[tindex as int]@ == packet@.take(k as int) + mid.tx_bufs[
                    tindex as int
                ].skip(k as int),
            decreases length - k,
        {
            proof {
                assert(self@.tx_bufs[tindex as int] == self.tx_bufs@[tindex as int]@);
                assert(self@.tx_bufs[tindex as int].len() == MBUF_SIZE);
            }
            let ghost before = self.tx_bufs@;
            assert(mid.tx_bufs[tindex as int].len() == MBUF_SIZE);
            self.tx_bufs[tindex][k] = packet[k];
            k = k + 1;
            proof {
                assert(self.tx_bufs@[tindex as int]@ =~= packet@.take(k as int) + mid.tx_bufs[
                    tindex as int
                ].skip(k as int));
                assert forall|p: int|
                    0 <= p < TX_RING_SIZE && p != tindex implies (#[trigger] self.tx_bufs@[p])@
                        == mid.tx_bufs[p] by {
                    assert(self.tx_bufs@[p] == before[p]);
                }
                assert(self@.tx_bufs =~= mid.tx_bufs.update(tindex as int, self.tx_bufs@[tindex as int]@));
            }
        }
        let addr: u64 = self.tx_ring[tindex].addr;
        let cso: u8 = self.tx_ring[tindex].cso;
        let css: u8 = self.tx_ring[tindex].css;
        let special: u16 = self.tx_ring[tindex].special;
        // The slot is complete before the device is told about it.
        self.store_tx_desc(
            tindex,
            TxDesc {
                addr,
                length: length as u16,
                cso,
                cmd: (E1000_TXD_CMD_RS | E1000_TXD_CMD_EOP) as u8,
                status: 0,
                css,
                special,
            },
        );
        self.write_reg(E1000_TDT, ((tindex + 1) % TX_RING_SIZE) as u32);
        self.e1000_write_flush();
        proof {
            assert(packet@.take(length as int) =~= packet@);
            assert(self@.tx_ring =~= pre.tx_ring.update(tindex as int, tx_desc_filled(pre.tx_ring[tindex as int], packet@.len())));
            assert(self@.tx_bufs =~= pre.tx_bufs.update(tindex as int, packet@ + pre.tx_bufs[tindex as int].skip(packet@.len() as int)));
            assert(self@.trace =~= pre.trace + seq![
                Access::Read(E1000_TDT as int),
                Access::TxSlot(tindex as int, self@.tx_ring[tindex as int], self@.tx_bufs[tindex as int]),
                Access::Write(E1000_TDT as int, ((tindex + 1) % (TX_RING_SIZE as int)) as u32),
                Access::Read(E1000_STAT as int),
            ]);
        }
        length as i32
    }

    /// Stores descriptor `d` in transmit slot `idx`, recording that the slot now holds it
    /// and the slot's buffer as it stands.
    fn store_tx_desc(&mut self, idx: usize, d: TxDesc)
        requires
            old(self).wf(),
            idx < TX_RING_SIZE,
        ensures
            final(self).wf(),
            final(self).kfn == old(self).kfn,
            final(self)@.tx_ring == old(self)@.tx_ring.update(idx as int, d),
            final(self)@.trace == old(self)@.trace.push(
                Access::TxSlot(idx as int, d, old(self)@.tx_bufs[idx as int]),
            ),
            final(self)@.regs == old(self)@.regs,
            final(self)@.rx_ring == old(self)@.rx_ring,
            final(self)@.tx_bufs == old(self)@.tx_bufs,
            final(self)@.rx_bufs == old(self)@.rx_bufs,
            same_setup(old(self)@, final(self)@),
    {
        self.tx_ring[idx] = d;
        self.trace = Ghost(self.trace@.push(Access::TxSlot(idx as int, d, self@.tx_bufs[idx as int])));
    }

    /// Stores descriptor `d` in receive slot `idx`, recording that the slot now holds it
    /// and the slot's buffer as it stands.
    fn store_rx_desc(&mut self, idx: usize, d: RxDesc)
        requires
            old(self).wf(),
            idx < RX_RING_SIZE,
            d.length <= MBUF_SIZE,
        ensures
            final(self).wf(),
            final(self).kfn == old(self).kfn,
            final(self)@.rx_ring == old(self)@.rx_ring.update(idx as int, d),
            final(self)@.trace == old(self)@.trace.push(
                Access::RxSlot(idx as int, d, old(self)@.rx_bufs[idx as int]),
            ),
            final(self)@.regs == old(self)@.regs,
            final(self)@.tx_ring == old(self)@.tx_ring,
            final(self)@.tx_bufs == old(self)@.tx_bufs,
            final(self)@.rx_bufs == old(self)@.rx_bufs,
            same_setup(old(self)@, final(self)@),
    {
        self.rx_ring[idx] = d;
        self.trace = Ghost(self.trace@.push(Access::RxSlot(idx as int, d, self@.rx_bufs[idx as int])));
    }

    /// Copies the first `len` bytes of receive buffer `idx`.
    fn copy_rx_packet(&self, idx: usize, len: usize) -> (pkt: Vec<u8>)
        requires
            self.wf(),
            idx < RX_RING_SIZE,
            len <= MBUF_SIZE,
        ensures
            pkt@ == self@.rx_bufs[idx as int].take(len as int),
    {
        proof {
            assert(self@.rx_bufs[idx as int] == self.rx_bufs@[idx as int]@);
            assert(self@.rx_bufs[idx as int].len() == MBUF_SIZE);
        }
        let mut pkt: Vec<u8> = Vec::with_capacity(len);
        for k in 0..len
            invariant
                self.wf(),
                idx < RX_RING_SIZE,
                len <= MBUF_SIZE,
                self.rx_bufs@[idx as int]@.len() == MBUF_SIZE,
                pkt@ == self@.rx_bufs[idx as int].take(k as int),
                self@.rx_bufs[idx as int] == self.rx_bufs@[idx as int]@,
        {
            pkt.push(self.rx_bufs[idx][k]);
            proof {
                assert(pkt@ =~= self@.rx_bufs[idx as int].take((k + 1) as int));
            }
        }
        proof {
            assert(pkt@ =~= self@.rx_bufs[idx as int].take(len as int));
        }
        pkt
    }

    /// Zeroes the first `min(64, len)` bytes of receive buffer `idx`.
    fn clear_rx_header(&mut self, idx: usize, len: usize)
        requires
            old(self).wf(),
            idx < RX_RING_SIZE,
            len <= MBUF_SIZE,
        ensures
            final(self).kernel() == old(self).kernel(),
            final(self).wf(),
            final(self)@.rx_bufs == old(self)@.rx_bufs.update(
                idx as int,
                rx_buf_consumed(old(self)@.rx_bufs[idx as int], len as int),
            ),
            final(self)@.regs == old(self)@.regs,
            final(self)@.trace == old(self)@.trace,
            final(self)@.tx_ring == old(self)@.tx_ring,
            final(self)@.rx_ring == old(self)@.rx_ring,
            final(self)@.tx_mbufs == old(self)@.tx_mbufs,
            final(self)@.rx_mbufs == old(self)@.rx_mbufs,
            final(self)@.tx_bufs == old(self)@.tx_bufs,
            final(self)@.tx_ring_dma == old(self)@.tx_ring_dma,
            final(self)@.rx_ring_dma == old(self)@.rx_ring_dma,
            final(self)@.mapped_regs == old(self)@.mapped_regs,
            same_setup(old(self)@, final(self)@),
    {
        let ghost pre = self@;
        let h: usize = if len < 64 {
            len
        } else {
            64
        };
        proof {
            assert(pre.rx_bufs[idx as int].len() == MBUF_SIZE);
            assert(self.rx_bufs@[idx as int]@ == pre.rx_bufs[idx as int]);
        }
        for k in 0..h
            invariant
                self.kernel() == old(self).kernel(),
                self.wf(),
                pre.wf(),
                idx < RX_RING_SIZE,
                h <= MBUF_SIZE,
                self@.regs == pre.regs,
                self@.trace == pre.trace,
                self@.tx_ring == pre.tx_ring,
                self@.rx_ring == pre.rx_ring,
                self@.tx_mbufs == pre.tx_mbufs,
                self@.rx_mbufs == pre.rx_mbufs,
                self@.tx_bufs == pre.tx_bufs,
                self@.tx_ring_dma == pre.tx_ring_dma,
                self@.rx_ring_dma == pre.rx_ring_dma,
                self@.mapped_regs == pre.mapped_regs,
                same_setup(pre, self@),
                self.rx_bufs@.len() == RX_RING_SIZE,
                forall|p: int|
                    0 <= p < RX_RING_SIZE && p != idx ==> (#[trigger] self.rx_bufs@[p])@
                        == pre.rx_bufs[p],
                self.rx_bufs@[idx as int]@ == Seq::new(k as nat, |j: int| 0u8) + pre.rx_bufs[
                    idx as int
                ].skip(k as int),
        {
            let ghost before = self.rx_bufs@;
            self.rx_bufs[idx][k] = 0;
            proof {
                assert(self.rx_bufs@[idx as int]@ =~= Seq::new((k + 1) as nat, |j: int| 0u8)
                    + pre.rx_bufs[idx as int].skip((k + 1) as int));
                assert forall|p: int|
                    0 <= p < RX_RING_SIZE && p != idx implies (#[trigger] self.rx_bufs@[p])@
                        == pre.rx_bufs[p] by {
                    assert(self.rx_bufs@[p] == before[p]);
                }
                assert(self@.rx_bufs =~= pre.rx_bufs.update(idx as int, self.rx_bufs@[idx as int]@));
            }
        }
        proof {
            assert(self@.rx_bufs =~= pre.rx_bufs.update(
                idx as int,
                rx_buf_consumed(pre.rx_bufs[idx as int], len as int),
            ));
        }
    }

    /// Receiving network packets.
    /// Starting at the slot after the receive tail, takes every packet the device has
    /// finished, in ring order, until a slot the device has not filled: copies the packet,
    /// delivers it to the network stack, zeroes its first 64 bytes, clears the descriptor's
    /// status and hands the slot back to the device by moving the receive tail onto it.
    /// Returns the packets taken, or None where there was none.
    #[verifier::rlimit(60)]
    pub fn e1000_recv(&mut self) -> (r: Option<Vec<Vec<u8>>>)
        requires
            old(self).wf(),
        ensures
            final(self).kernel() == old(self).kernel(),
            final(self).wf(),
            recv_post(old(self)@, final(self)@, packets_view(r)),
    {
        let ghost pre = self@;
        let mut recv_packets: Vec<Vec<u8>> = Vec::new();
        let rdt: u32 = self.read_reg(E1000_RDT);
        let mut rindex: usize = (rdt as usize + 1) % RX_RING_SIZE;
        let ghost start: int = rindex as int;
        let ghost mut i: nat = 0;
        proof {
            assert(self@.rx_ring =~= rx_ring_consumed(pre.rx_ring, start, 0));
            assert(self@.rx_bufs =~= rx_bufs_consumed(pre.rx_ring, pre.rx_bufs, start, 0));
            assert(self@.trace =~= pre.trace.push(Access::Read(E1000_RDT as int)) + recv_trace(pre.rx_ring, pre.rx_bufs, start, 0));
            assert(packets_seq(recv_packets@) =~= rx_packets(pre, start, 0));
        }
        // A descriptor whose DD bit is set holds a complete packet.
        while (self.rx_ring[rindex].status & E1000_RXD_STAT_DD as u8) != 0
            invariant
                self.kernel() == old(self).kernel(),
                self.wf(),
                pre.wf(),
                0 <= start < RX_RING_SIZE,
                start == pre.rx_start(),
                i <= RX_RING_SIZE,
                rindex == ring_pos(start, i as int),
                rindex < RX_RING_SIZE,
                forall|j: int| 0 <= j < i ==> rx_done(#[trigger] pre.rx_ring[ring_pos(start, j)]),
                i == RX_RING_SIZE ==> !rx_done(self@.rx_ring[rindex as int]),
                packets_seq(recv_packets@) == rx_packets(pre, start, i),
                recv_packets@.len() == i,
                self@.rx_ring == rx_ring_consumed(pre.rx_ring, start, i),
                self@.rx_bufs == rx_bufs_consumed(pre.rx_ring, pre.rx_bufs, start, i),
                self@.regs == (if i == 0 {
                    pre.regs
                } else {
                    pre.regs.update(E1000_RDT as int, ring_pos(start, i - 1) as u32)
                }),
                self@.trace == pre.trace.push(Access::Read(E1000_RDT as int)) + recv_trace(pre.rx_ring, pre.rx_bufs, start, i),
                self@.tx_ring == pre.tx_ring,
                self@.tx_bufs == pre.tx_bufs,
                self@.tx_mbufs == pre.tx_mbufs,
                self@.rx_mbufs == pre.rx_mbufs,
                self@.tx_ring_dma == pre.tx_ring_dma,
                self@.rx_ring_dma == pre.rx_ring_dma,
                self@.mapped_regs == pre.mapped_regs,
                same_setup(pre, self@),
            decreases RX_RING_SIZE - i,
        {
            let ghost cur = self@;
            proof {
                if i < RX_RING_SIZE {
                    lemma_ring_pos_offset(start, i as int);
                }
                assert(i < RX_RING_SIZE);
                assert(ring_offset(rindex as int, start) == i);
                assert(cur.rx_ring[rindex as int] == pre.rx_ring[rindex as int]);
                assert(cur.rx_bufs[rindex as int] == pre.rx_bufs[rindex as int]);
            }
            let len: usize = self.rx_ring[rindex].length as usize;
            let mut pkt = self.copy_rx_packet(rindex, len);
            let ghost copied = pkt@;
            // Deliver the packet to the network stack
            net_rx(pkt.as_mut_slice());
            assert(pkt@ == copied);
            let ghost packets_before = recv_packets@;
            recv_packets.push(pkt);
            proof {
                assert(copied == rx_packets(pre, start, i + 1)[i as int]);
                assert(recv_packets@ == packets_before.push(pkt));
            }

            // Just need to clear 64 bits header
            self.clear_rx_header(rindex, len);

            let addr: u64 = self.rx_ring[rindex].addr;
            let length: u16 = self.rx_ring[rindex].length;
            let csum: u16 = self.rx_ring[rindex].csum;
            let errors: u8 = self.rx_ring[rindex].errors;
            let special: u16 = self.rx_ring[rindex].special;
            // The slot is consumed before it is handed back to the device.
            self.store_rx_desc(rindex, RxDesc { addr, length, csum, status: 0, errors, special });
            self.write_reg(E1000_RDT, rindex as u32);
            self.e1000_write_flush();

            let ghost old_i: nat = i;
            rindex = (rindex + 1) % RX_RING_SIZE;
            proof {
                i = i + 1;
                assert(ring_pos(start, i as int) == (ring_pos(start, old_i as int) + 1) % (RX_RING_SIZE as int));
                assert forall|j: int| 0 <= j < i implies #[trigger] packets_seq(recv_packets@)[j] == rx_packets(pre, start, i)[j] by {
                    if j < old_i {
                        assert(recv_packets@[j] == packets_before[j]);
                        assert(packets_seq(packets_before)[j] == rx_packets(pre, start, old_i)[j]);
                    }
                }
                assert(packets_seq(recv_packets@) =~= rx_packets(pre, start, i));
                assert forall|p: int| 0 <= p < RX_RING_SIZE implies #[trigger] self@.rx_ring[p] == rx_ring_consumed(pre.rx_ring, start, i)[p] by {
                    lemma_ring_offset_pos(p, start);
                }
                assert(self@.rx_ring =~= rx_ring_consumed(pre.rx_ring, start, i));
                assert forall|p: int| 0 <= p < RX_RING_SIZE implies #[trigger] self@.rx_bufs[p] == rx_bufs_consumed(pre.rx_ring, pre.rx_bufs, start, i)[p] by {
                    lemma_ring_offset_pos(p, start);
                }
                assert(self@.rx_bufs =~= rx_bufs_consumed(pre.rx_ring, pre.rx_bufs, start, i));
                assert(self@.regs =~= pre.regs.update(E1000_RDT as int, ring_pos(start, i - 1) as u32));
                assert(self@.trace =~= pre.trace.push(Access::Read(E1000_RDT as int)) + recv_trace(pre.rx_ring, pre.rx_bufs, start, i));
                if i == RX_RING_SIZE {
                    lemma_ring_pos_offset(start, 0);
                    assert(0u8 & 1u8 == 0u8) by (bit_vector);
                    assert(ring_pos(start, i as int) == start);
                    assert(ring_offset(start, start) == 0);
                }
            }
        }
        proof {
            if i < RX_RING_SIZE {
                lemma_ring_pos_offset(start, i as int);
                assert(self@.rx_ring[rindex as int] == pre.rx_ring[rindex as int]);
            }
            lemma_run_len_exact(pre.rx_ring, start, RX_RING_SIZE as nat, i);
        }
        if recv_packets.len() > 0 {
            Some(recv_packets)
        } else {
            None
        }
    }

    /// The value of register `idx`.
    pub fn reg(&self, idx: usize) -> (v: u32)
        requires
            self.wf(),
            idx < REGS_LEN,
        ensures
            v == self@.regs[idx as int],
    {
        self.regs[idx]
    }

    /// Transmit descriptor `idx`.
    pub fn tx_desc(&self, idx: usize) -> (d: &TxDesc)
        requires
            self.wf(),
            idx < TX_RING_SIZE,
        ensures
            *d == self@.tx_ring[idx as int],
    {
        &self.tx_ring[idx]
    }

    /// Receive descriptor `idx`.
    pub fn rx_desc(&self, idx: usize) -> (d: &RxDesc)
        requires
            self.wf(),
            idx < RX_RING_SIZE,
        ensures
            *d == self@.rx_ring[idx as int],
    {
        &self.rx_ring[idx]
    }

    /// Contents of transmit buffer `idx`.
    pub fn tx_buffer(&self, idx: usize) -> (b: &[u8])
        requires
            self.wf(),
            idx < TX_RING_SIZE,
        ensures
            b@ == self@.tx_bufs[idx as int],
    {
        self.tx_bufs[idx].as_slice()
    }

    /// Contents of receive buffer `idx`.
    pub fn rx_buffer(&self, idx: usize) -> (b: &[u8])
        requires
            self.wf(),
            idx < RX_RING_SIZE,
        ensures
            b@ == self@.rx_bufs[idx as int],
    {
        self.rx_bufs[idx].as_slice()
    }

    /// Virtual address of transmit buffer `idx`.
    pub fn tx_mbuf(&self, idx: usize) -> (a: usize)
        requires
            self.wf(),
            idx < TX_RING_SIZE,
        ensures
            a == self@.tx_mbufs[idx as int],
    {
        self.tx_mbufs[idx]
    }

    /// Virtual address of receive buffer `idx`.
    pub fn rx_mbuf(&self, idx: usize) -> (a: usize)
        requires
            self.wf(),
            idx < RX_RING_SIZE,
        ensures
            a == self@.rx_mbufs[idx as int],
    {
        self.rx_mbufs[idx]
    }

    /// Physical addresses of the transmit and the receive ring.
    pub fn ring_dma(&self) -> (r: (usize, usize))
        ensures
            r == (self@.tx_ring_dma, self@.rx_ring_dma),
    {
        (self.tx_ring_dma, self.rx_ring_dma)
    }

    /// The device's side of the model, which the driver never calls: what the device does
    /// through DMA once it has sent the packet of transmit slot `idx`. It sets the
    /// descriptor's DD bit, and makes no register access.
    pub fn device_tx_done(&mut self, idx: usize)
        requires
            old(self).wf(),
            idx < TX_RING_SIZE,
        ensures
            final(self).kernel() == old(self).kernel(),
            final(self).wf(),
            final(self)@.tx_ring == old(self)@.tx_ring.update(
                idx as int,
                tx_desc_written_back(old(self)@.tx_ring[idx as int]),
            ),
            final(self)@.regs == old(self)@.regs,
            final(self)@.trace == old(self)@.trace,
            final(self)@.rx_ring == old(self)@.rx_ring,
            final(self)@.tx_bufs == old(self)@.tx_bufs,
            final(self)@.rx_bufs == old(self)@.rx_bufs,
            final(self)@.tx_mbufs == old(self)@.tx_mbufs,
            final(self)@.rx_mbufs == old(self)@.rx_mbufs,
            final(self)@.tx_ring_dma == old(self)@.tx_ring_dma,
            final(self)@.rx_ring_dma == old(self)@.rx_ring_dma,
            final(self)@.mapped_regs == old(self)@.mapped_regs,
            same_setup(old(self)@, final(self)@),
    {
        let status: u8 = self.tx_ring[idx].status | E1000_TXD_STAT_DD as u8;
        self.tx_ring[idx].status = status;
        proof {
            assert(self@.tx_ring =~= old(self)@.tx_ring.update(
                idx as int,
                tx_desc_written_back(old(self)@.tx_ring[idx as int]),
            ));
        }
    }

    /// The device's side of the model, which the driver never calls: what the device does
    /// through DMA when a frame arrives in receive slot `idx`. It writes the frame at the
    /// start of the slot's buffer, sets the descriptor's length, and sets its DD and EOP
    /// bits; it makes no register access.
    pub fn device_rx(&mut self, idx: usize, frame: &[u8])
        requires
            old(self).wf(),
            idx < RX_RING_SIZE,
            frame@.len() <= MBUF_SIZE,
        ensures
            final(self).kernel() == old(self).kernel(),
            final(self).wf(),
            final(self)@.rx_ring == old(self)@.rx_ring.update(
                idx as int,
                rx_desc_written_back(old(self)@.rx_ring[idx as int], frame@.len()),
            ),
            final(self)@.rx_bufs == old(self)@.rx_bufs.update(
                idx as int,
                frame@ + old(self)@.rx_bufs[idx as int].skip(frame@.len() as int),
            ),
            final(self)@.regs == old(self)@.regs,
            final(self)@.trace == old(self)@.trace,
            final(self)@.tx_ring == old(self)@.tx_ring,
            final(self)@.tx_bufs == old(self)@.tx_bufs,
            final(self)@.tx_mbufs == old(self)@.tx_mbufs,
            final(self)@.rx_mbufs == old(self)@.rx_mbufs,
            final(self)@.tx_ring_dma == old(self)@.tx_ring_dma,
            final(self)@.rx_ring_dma == old(self)@.rx_ring_dma,
            final(self)@.mapped_regs == old(self)@.mapped_regs,
            same_setup(old(self)@, final(self)@),
    {
        let ghost pre = self@;
        let len: usize = frame.len();
        proof {
            assert(pre.rx_bufs[idx as int].len() == MBUF_SIZE);
            assert(self.rx_bufs@[idx as int]@ == pre.rx_bufs[idx as int]);
        }
        for k in 0..len
            invariant
                self.kernel() == old(self).kernel(),
                self.wf(),
                pre.wf(),
                idx < RX_RING_SIZE,
                len == frame@.len(),
                len <= MBUF_SIZE,
                self@.regs == pre.regs,
                self@.trace == pre.trace,
                self@.tx_ring == pre.tx_ring,
                self@.rx_ring == pre.rx_ring,
                self@.tx_mbufs == pre.tx_mbufs,
                self@.rx_mbufs == pre.rx_mbufs,
                self@.tx_bufs == pre.tx_bufs,
                self@.tx_ring_dma == pre.tx_ring_dma,
                self@.rx_ring_dma == pre.rx_ring_dma,
                self@.mapped_regs == pre.mapped_regs,
                same_setup(pre, self@),
                self.rx_bufs@.len() == RX_RING_SIZE,
                forall|p: int|
                    0 <= p < RX_RING_SIZE && p != idx ==> (#[trigger] self.rx_bufs@[p])@
                        == pre.rx_bufs[p],
                self.rx_bufs@[idx as int]@ == frame@.take(k as int) + pre.rx_bufs[
                    idx as int
                ].skip(k as int),
        {
            let ghost before = self.rx_bufs@;
            self.rx_bufs[idx][k] = frame[k];
            proof {
                assert(self.rx_bufs@[idx as int]@ =~= frame@.take((k + 1) as int)
                    + pre.rx_bufs[idx as int].skip((k + 1) as int));
                assert forall|p: int|
                    0 <= p < RX_RING_SIZE && p != idx implies (#[trigger] self.rx_bufs@[p])@
                        == pre.rx_bufs[p] by {
                    assert(self.rx_bufs@[p] == before[p]);
                }
                assert(self@.rx_bufs =~= pre.rx_bufs.update(idx as int, self.rx_bufs@[idx as int]@));
            }
        }
        let status: u8 = self.rx_ring[idx].status | (E1000_RXD_STAT_DD | E1000_RXD_STAT_EOP) as u8;
        self.rx_ring[idx].status = status;
        self.rx_ring[idx].length = len as u16;
        proof {
            assert(frame@.take(len as int) =~= frame@);
            assert(self@.rx_ring =~= pre.rx_ring.update(
                idx as int,
                rx_desc_written_back(pre.rx_ring[idx as int], frame@.len()),
            ));
            assert(self@.rx_bufs =~= pre.rx_bufs.update(
                idx as int,
                frame@ + pre.rx_bufs[idx as int].skip(frame@.len() as int),
            ));
        }
    }

    /// Clear Interrupt
    pub fn e1000_irq_disable(&mut self)
        requires
            old(self).wf(),
        ensures
            final(self).kernel() == old(self).kernel(),
            final(self).wf(),
            irq_disable_post(old(self)@, final(self)@),
    {
        self.write_reg(E1000_IMC, !0u32);
        self.e1000_write_flush();
        proof {
            assert(self@.trace =~= old(self)@.trace + seq![
                Access::Write(E1000_IMC as int, !0u32),
                Access::Read(E1000_STAT as int),
            ]);
        }
    }

    /// Enable Interrupts
    pub fn e1000_irq_enable(&mut self)
        requires
            old(self).wf(),
        ensures
            final(self).kernel() == old(self).kernel(),
            final(self).wf(),
            irq_enable_post(old(self)@, final(self)@),
    {
        self.write_reg(E1000_IMS, IMS_ENABLE_MASK);
        self.e1000_write_flush();
        proof {
            assert(self@.trace =~= old(self)@.trace + seq![
                Access::Write(E1000_IMS as int, IMS_ENABLE_MASK),
                Access::Read(E1000_STAT as int),
            ]);
        }
    }

    /// flush e1000 status
    pub fn e1000_write_flush(&mut self)
        requires
            old(self).wf(),
        ensures
            final(self).kernel() == old(self).kernel(),
            final(self).wf(),
            flush_post(old(self)@, final(self)@),
    {
        self.read_reg(E1000_STAT);
    }

    /// Cause a link status change interrupt
    pub fn e1000_cause_lsc_int(&mut self)
        requires
            old(self).wf(),
        ensures
            final(self).kernel() == old(self).kernel(),
            final(self).wf(),
            cause_lsc_post(old(self)@, final(self)@),
    {
        self.write_reg(E1000_ICS, E1000_ICR_LSC);
    }

    /// To handle e1000 interrupt
    pub fn e1000_intr(&mut self) -> (cause: u32)
        requires
            old(self).wf(),
        ensures
            final(self).kernel() == old(self).kernel(),
            final(self).wf(),
            intr_post(old(self)@, final(self)@, cause),
    {
        // tell the e1000 we've seen this interrupt;
        // without this the e1000 won't raise any
        // further interrupts.
        self.read_reg(E1000_ICR)
    }
}

/// Called by the driver's receive path to deliver a packet to the networking stack.
/// No protocol is handled yet: the packet is left as it is.
pub fn net_rx(packet: &mut [u8])
    ensures
        final(packet)@ == old(packet)@,
{
}

} // verus!
