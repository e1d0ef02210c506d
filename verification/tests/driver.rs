use e1000::consts::{
    E1000_CTL, E1000_ICR, E1000_ICS, E1000_IMC, E1000_IMS, E1000_MTA, E1000_RA, E1000_RADV,
    E1000_RCTL, E1000_RDBAL, E1000_RDH, E1000_RDLEN, E1000_RDT, E1000_RDTR, E1000_STAT,
    E1000_TADV, E1000_TCTL, E1000_TDBAL, E1000_TDH, E1000_TDLEN, E1000_TDT, E1000_TIDV,
    E1000_TIPG, MBUF_SIZE, MTA_LEN, REGS_LEN, RX_RING_SIZE, TX_RING_SIZE,
};
use e1000::device::{net_rx, E1000Device, KernelFunc};
use std::cell::RefCell;
use std::rc::Rc;

/// Hands out consecutive page-aligned areas and records every request.
struct FakeKernel {
    next_vaddr: usize,
    requests: Vec<usize>,
    fail_at: Option<usize>,
}

const DMA_OFFSET: usize = 0x4000_0000;

impl FakeKernel {
    fn new() -> Self {
        FakeKernel { next_vaddr: 0x10_0000, requests: Vec::new(), fail_at: None }
    }
}

impl KernelFunc for FakeKernel {
    fn dma_alloc_coherent(&mut self, pages: usize) -> (usize, usize) {
        let n = self.requests.len();
        self.requests.push(pages);
        if self.fail_at == Some(n) {
            return (0, 0);
        }
        let vaddr = self.next_vaddr;
        self.next_vaddr += pages * Self::PAGE_SIZE;
        (vaddr, vaddr - 0x10_0000 + DMA_OFFSET)
    }

    fn dma_free_coherent(&mut self, _vaddr: usize, _pages: usize) {}
}

/// Page size 3000; records the page counts asked for.
struct Recorder {
    requests: Rc<RefCell<Vec<usize>>>,
}

impl KernelFunc for Recorder {
    const PAGE_SIZE: usize = 3000;

    fn dma_alloc_coherent(&mut self, pages: usize) -> (usize, usize) {
        self.requests.borrow_mut().push(pages);
        let n = self.requests.borrow().len();
        (0x20_0000 * n, 0x80_0000 * n)
    }

    fn dma_free_coherent(&mut self, _vaddr: usize, _pages: usize) {}
}

/// Default page size; records the page counts asked for.
struct OddPageKernel {
    requests: Rc<RefCell<Vec<usize>>>,
}

impl KernelFunc for OddPageKernel {
    fn dma_alloc_coherent(&mut self, pages: usize) -> (usize, usize) {
        self.requests.borrow_mut().push(pages);
        let n = self.requests.borrow().len();
        (0x20_0000 * n, 0x40_0000 * n)
    }

    fn dma_free_coherent(&mut self, _vaddr: usize, _pages: usize) {}
}

fn zero_regs() -> Vec<u32> {
    vec![0u32; REGS_LEN]
}

fn device() -> E1000Device<FakeKernel> {
    match E1000Device::new(FakeKernel::new(), 0xfeb8_0000, zero_regs()) {
        Ok(d) => d,
        Err(e) => panic!("device creation failed: {}", e),
    }
}

#[test]
fn new_writes_the_initial_register_values() {
    let dev = device();
    let (tx_dma, rx_dma) = dev.ring_dma();
    assert_eq!(tx_dma, DMA_OFFSET);
    assert_eq!(rx_dma, DMA_OFFSET + 4096);
    assert_eq!(dev.reg(E1000_CTL), 0x0040_0000);
    assert_eq!(dev.reg(E1000_IMS), 0x80);
    assert_eq!(dev.reg(E1000_TDBAL), tx_dma as u32);
    assert_eq!(dev.reg(E1000_TDLEN), 4096);
    assert_eq!(dev.reg(E1000_TDT), 0);
    assert_eq!(dev.reg(E1000_TDH), 0);
    assert_eq!(dev.reg(E1000_RDBAL), rx_dma as u32);
    assert_eq!(dev.reg(E1000_RDLEN), 4096);
    assert_eq!(dev.reg(E1000_RDH), 0);
    assert_eq!(dev.reg(E1000_RDT), 255);
    assert_eq!(dev.reg(E1000_RA), 0x1200_5452);
    assert_eq!(dev.reg(E1000_RA + 1), 0x8000_5634);
    for i in 0..MTA_LEN {
        assert_eq!(dev.reg(E1000_MTA + i), 0);
    }
    assert_eq!(dev.reg(E1000_TCTL), 0x0004_010A);
    assert_eq!(dev.reg(E1000_TIPG), 0x0060_200A);
    assert_eq!(dev.reg(E1000_RCTL), 0x0400_8002);
    assert_eq!(dev.reg(E1000_TIDV), 0);
    assert_eq!(dev.reg(E1000_TADV), 0);
    assert_eq!(dev.reg(E1000_RDTR), 0);
    assert_eq!(dev.reg(E1000_RADV), 0);
    assert_eq!(dev.reg(E1000_STAT), 0);
}

#[test]
fn new_points_descriptors_at_consecutive_buffers() {
    let dev = device();
    let tx_vaddr = dev.tx_mbuf(0);
    let rx_vaddr = dev.rx_mbuf(0);
    assert_eq!(tx_vaddr, 0x10_0000 + 2 * 4096);
    assert_eq!(rx_vaddr, tx_vaddr + 128 * 4096);
    for i in 0..TX_RING_SIZE {
        let d = dev.tx_desc(i);
        assert_eq!(d.addr, (tx_vaddr - 0x10_0000 + DMA_OFFSET + i * MBUF_SIZE) as u64);
        assert_eq!(d.status, 1);
        assert_eq!(d.length, 0);
        assert_eq!(d.cmd, 0);
        assert_eq!(dev.tx_mbuf(i), tx_vaddr + i * MBUF_SIZE);
        assert_eq!(dev.tx_buffer(i).len(), MBUF_SIZE);
    }
    for i in 0..RX_RING_SIZE {
        let d = dev.rx_desc(i);
        assert_eq!(d.addr, (rx_vaddr - 0x10_0000 + DMA_OFFSET + i * MBUF_SIZE) as u64);
        assert_eq!(d.status, 0);
        assert_eq!(dev.rx_mbuf(i), rx_vaddr + i * MBUF_SIZE);
        assert_eq!(dev.rx_buffer(i).len(), MBUF_SIZE);
    }
}

#[test]
fn new_asks_for_whole_pages() {
    let requests = Rc::new(RefCell::new(Vec::new()));
    let r = E1000Device::new(Recorder { requests: requests.clone() }, 0, zero_regs());
    assert!(r.is_ok());
    // two rings of 4096 bytes, two buffer areas of 256 * 2048 bytes, in 3000-byte pages
    assert_eq!(*requests.borrow(), vec![2usize, 2, 175, 175]);

    let requests = Rc::new(RefCell::new(Vec::new()));
    let dev = match E1000Device::new(OddPageKernel { requests: requests.clone() }, 0, zero_regs()) {
        Ok(d) => d,
        Err(_) => panic!("creation failed"),
    };
    assert_eq!(*requests.borrow(), vec![1usize, 1, 128, 128]);
    assert_eq!(dev.reg(E1000_TDBAL), 0x40_0000);
    assert_eq!(dev.reg(E1000_RDBAL), 0x80_0000);
    assert_eq!(dev.tx_mbuf(0), 0x60_0000);
    assert_eq!(dev.rx_mbuf(1), 0x80_0000 + MBUF_SIZE);
}

#[test]
fn new_fails_when_the_receive_buffers_are_not_allocated() {
    let mut kernel = FakeKernel::new();
    kernel.fail_at = Some(3);
    assert!(matches!(E1000Device::new(kernel, 0, zero_regs()), Err(-1)));
}

#[test]
fn transmit_copies_the_packet_and_advances_the_tail() {
    let mut dev = device();
    let packet = [1u8, 2, 3, 4, 5];
    assert_eq!(dev.e1000_transmit(&packet), 5);
    assert_eq!(dev.reg(E1000_TDT), 1);
    let d = dev.tx_desc(0);
    assert_eq!(d.length, 5);
    assert_eq!(d.cmd, 0x09);
    assert_eq!(d.status, 0);
    assert_eq!(&dev.tx_buffer(0)[..5], &packet[..]);
    assert_eq!(dev.tx_buffer(0)[5], 0);

    let big = vec![0xAAu8; MBUF_SIZE];
    assert_eq!(dev.e1000_transmit(&big), MBUF_SIZE as i32);
    assert_eq!(dev.reg(E1000_TDT), 2);
    assert_eq!(dev.tx_buffer(1), &big[..]);
}

#[test]
fn transmit_is_refused_when_the_ring_is_full() {
    let mut dev = device();
    for i in 0..TX_RING_SIZE {
        assert_eq!(dev.e1000_transmit(&[i as u8]), 1);
    }
    assert_eq!(dev.reg(E1000_TDT), 0);
    let before = dev.tx_desc(0).clone();
    assert_eq!(dev.e1000_transmit(&[9, 9]), -1);
    assert_eq!(dev.reg(E1000_TDT), 0);
    assert_eq!(dev.tx_desc(0).length, before.length);
    assert_eq!(dev.tx_buffer(0)[0], 0);

    dev.device_tx_done(0);
    assert_eq!(dev.e1000_transmit(&[9, 9]), 2);
    assert_eq!(dev.reg(E1000_TDT), 1);
    assert_eq!(&dev.tx_buffer(0)[..2], &[9u8, 9][..]);
}

#[test]
fn recv_returns_none_when_nothing_arrived() {
    let mut dev = device();
    assert!(dev.e1000_recv().is_none());
    assert_eq!(dev.reg(E1000_RDT), 255);
}

#[test]
fn recv_returns_ready_packets_in_ring_order() {
    let mut dev = device();
    let a: Vec<u8> = (0..100u8).collect();
    let b = vec![7u8; 30];
    dev.device_rx(0, &a);
    dev.device_rx(1, &b);
    dev.device_rx(3, &[1, 2, 3]);
    let got = dev.e1000_recv().expect("two packets");
    assert_eq!(got, vec![a.clone(), b.clone()]);
    assert_eq!(dev.reg(E1000_RDT), 1);
    assert_eq!(dev.rx_desc(0).status, 0);
    assert_eq!(dev.rx_desc(1).status, 0);
    assert_eq!(dev.rx_desc(3).status, 3);
    assert!(dev.rx_buffer(0)[..64].iter().all(|&x| x == 0));
    assert_eq!(&dev.rx_buffer(0)[64..100], &a[64..100]);
    assert!(dev.rx_buffer(1)[..30].iter().all(|&x| x == 0));

    // slot 2 is not ready, so the packet in slot 3 waits
    assert!(dev.e1000_recv().is_none());
    dev.device_rx(2, &[5, 6]);
    let got = dev.e1000_recv().expect("two packets");
    assert_eq!(got, vec![vec![5u8, 6], vec![1u8, 2, 3]]);
    assert_eq!(dev.reg(E1000_RDT), 3);
}

#[test]
fn recv_takes_a_full_ring_once() {
    let mut dev = device();
    for i in 0..RX_RING_SIZE {
        dev.device_rx(i, &[i as u8]);
    }
    let got = dev.e1000_recv().expect("a full ring");
    assert_eq!(got.len(), RX_RING_SIZE);
    for (i, p) in got.iter().enumerate() {
        assert_eq!(p, &vec![i as u8]);
    }
    assert_eq!(dev.reg(E1000_RDT), 255);
    assert!(dev.e1000_recv().is_none());
}

#[test]
fn recv_wraps_around_the_ring() {
    let mut dev = device();
    dev.device_rx(0, &[1]);
    assert_eq!(dev.e1000_recv().unwrap(), vec![vec![1u8]]);
    for i in 1..RX_RING_SIZE {
        dev.device_rx(i, &[2]);
        assert_eq!(dev.e1000_recv().unwrap().len(), 1);
    }
    assert_eq!(dev.reg(E1000_RDT), 255);
    dev.device_rx(0, &[3, 4]);
    dev.device_rx(1, &[5]);
    assert_eq!(dev.e1000_recv().unwrap(), vec![vec![3u8, 4], vec![5u8]]);
    assert_eq!(dev.reg(E1000_RDT), 1);
}

#[test]
fn interrupt_control_writes_the_mask_registers() {
    let mut dev = device();
    dev.e1000_irq_disable();
    assert_eq!(dev.reg(E1000_IMC), 0xFFFF_FFFF);
    dev.e1000_irq_enable();
    assert_eq!(dev.reg(E1000_IMS), 0x9D);
    dev.e1000_cause_lsc_int();
    assert_eq!(dev.reg(E1000_ICS), 4);
    assert_eq!(dev.e1000_intr(), dev.reg(E1000_ICR));
    assert_eq!(dev.e1000_intr(), 0);
    dev.e1000_write_flush();
    assert_eq!(dev.reg(E1000_IMS), 0x9D);
}

#[test]
fn init_twice_gives_the_same_registers() {
    let mut dev = device();
    let before: Vec<u32> = (0..0x1FFFF / 4).map(|i| dev.reg(i)).collect();
    dev.e1000_init();
    let after: Vec<u32> = (0..0x1FFFF / 4).map(|i| dev.reg(i)).collect();
    assert_eq!(before, after);
}

#[test]
fn net_rx_leaves_the_packet_alone() {
    let mut p = vec![1u8, 2, 3];
    net_rx(&mut p);
    assert_eq!(p, vec![1u8, 2, 3]);
}

#[test]
fn from_allocations_sets_up_and_initializes() {
    let dev = match E1000Device::from_allocations(
        FakeKernel::new(),
        0xfeb8_0000,
        zero_regs(),
        (0x8000, 0x1000),
        (0x9000, 0x2000),
        (0x10_0000, 0x50_0000),
        (0x90_0000, 0xd0_0000),
    ) {
        Ok(d) => d,
        Err(_) => panic!("set-up failed"),
    };
    assert_eq!(dev.ring_dma(), (0x1000, 0x2000));
    assert_eq!(dev.reg(E1000_TDBAL), 0x1000);
    assert_eq!(dev.reg(E1000_RDBAL), 0x2000);
    assert_eq!(dev.tx_desc(3).addr, 0x50_0000 + 3 * 2048);
    assert_eq!(dev.rx_desc(255).addr, 0xd0_0000 + 255 * 2048);
    assert_eq!(dev.tx_mbuf(255), 0x10_0000 + 255 * 2048);
    assert_eq!(dev.rx_mbuf(2), 0x90_0000 + 2 * 2048);
    assert!(dev.rx_buffer(7).iter().all(|&x| x == 0));
}

#[test]
fn from_allocations_refuses_unusable_buffer_areas() {
    let try_with = |tx: (usize, usize), rx: (usize, usize)| {
        E1000Device::from_allocations(FakeKernel::new(), 0, zero_regs(), (1, 2), (3, 4), tx, rx)
            .err()
    };
    assert_eq!(try_with((0x1000, 0x2000), (0, 0x3000)), Some(-1));
    assert_eq!(try_with((usize::MAX - 1000, 0x2000), (0x5000, 0x3000)), Some(-1));
    assert_eq!(try_with((0x1000, usize::MAX - 256 * 2048 + 1), (0x5000, 0x3000)), Some(-1));
    assert_eq!(try_with((0x1000, 0x2000), (usize::MAX - 256 * 2048 + 1, 0x3000)), Some(-1));
    assert_eq!(try_with((0x1000, 0x2000), (0x5000, usize::MAX)), Some(-1));
    assert_eq!(try_with((0x1000, 0x2000), (usize::MAX - 256 * 2048, usize::MAX - 256 * 2048)), None);
    assert_eq!(try_with((0, 0), (1, 0)), None);
}

#[test]
fn new_keeps_register_contents_init_does_not_write() {
    let mut regs = zero_regs();
    regs[E1000_CTL] = 0x0000_0041;
    regs[E1000_STAT] = 0x8000_0003;
    regs[E1000_TDT] = 0x1234;
    regs[E1000_RDT] = 0x5678;
    regs[E1000_IMC] = 0x77;
    let dev = match E1000Device::new(FakeKernel::new(), 0xfeb8_0000, regs) {
        Ok(d) => d,
        Err(_) => panic!("creation failed"),
    };
    assert_eq!(dev.reg(E1000_CTL), 0x0040_0041);
    assert_eq!(dev.reg(E1000_STAT), 0x8000_0003);
    assert_eq!(dev.reg(E1000_IMC), 0x77);
    assert_eq!(dev.reg(E1000_TDT), 0);
    assert_eq!(dev.reg(E1000_RDT), 255);
}

#[test]
fn a_fresh_device_accepts_a_full_ring_then_refuses() {
    let mut dev = device();
    for i in 0..TX_RING_SIZE {
        let p = vec![i as u8; 1 + i % 7];
        assert_eq!(dev.e1000_transmit(&p), p.len() as i32);
        assert_eq!(dev.reg(E1000_TDT) as usize, (i + 1) % TX_RING_SIZE);
        assert_eq!(dev.tx_desc(i).length as usize, p.len());
    }
    assert_eq!(dev.e1000_transmit(&[1, 2, 3]), -1);
    assert_eq!(dev.reg(E1000_TDT), 0);
    assert_eq!(dev.tx_desc(0).length, 1);
}

#[test]
fn device_side_write_back_sets_the_status_bits() {
    let mut dev = device();
    assert_eq!(dev.e1000_transmit(&[1]), 1);
    assert_eq!(dev.tx_desc(0).status, 0);
    dev.device_tx_done(0);
    assert_eq!(dev.tx_desc(0).status, 1);
    dev.device_rx(5, &[9, 8, 7]);
    assert_eq!(dev.rx_desc(5).status, 3);
    assert_eq!(dev.rx_desc(5).length, 3);
    assert_eq!(&dev.rx_buffer(5)[..4], &[9u8, 8, 7, 0][..]);
}
