//! Properties that span several driver operations.
use vstd::prelude::*;
use crate::consts::{
    E1000_CTL, E1000_CTL_RST, E1000_IMS, E1000_MTA, E1000_RA, E1000_RADV, E1000_RCTL,
    E1000_RDBAL, E1000_RDH, E1000_RDLEN, E1000_RDT, E1000_RDTR, E1000_TADV,
    E1000_TCTL, E1000_TDBAL, E1000_TDH, E1000_TDLEN, E1000_TDT, E1000_TIDV, E1000_TIPG,
    REGS_LEN, RX_RING_SIZE, TX_RING_SIZE,
};
use crate::desc::RxDesc;
use crate::spec::{
    alloc_pages, buffers_usable, cause_lsc_post, flush_post, init_post, intr_post, irq_disable_post,
    irq_enable_post, memory_unchanged, setup_view, Access,
};
use crate::consts::{E1000_RXD_STAT_DD, E1000_STAT};
use crate::spec::{recv_trace, rx_buf_consumed, rx_desc_consumed, rx_packets};
use crate::spec::{
    init_reg, init_regs, lemma_ring_pos_offset, lemma_run_len_bounds, lemma_run_len_exact,
    pages_for, recv_post, ring_offset, ring_pos, rx_done, tx_done, tx_post, DeviceView,
};

verus! {

/// The pages counted for `bytes` bytes hold all of them, with less than a page to spare.
pub proof fn lemma_pages_cover(bytes: nat, page_size: nat)
    requires
        page_size > 0,
    ensures
        pages_for(bytes, page_size) * page_size >= bytes,
        pages_for(bytes, page_size) * page_size < bytes + page_size,
{
    let n: int = bytes + page_size - 1;
    let q: int = n / (page_size as int);
    let r: int = n % (page_size as int);
    vstd::arithmetic::div_mod::lemma_fundamental_div_mod(n as int, page_size as int);
    assert(n == page_size * q + r);
    assert(0 <= r < page_size);
    assert(q >= 0) by {
        vstd::arithmetic::div_mod::lemma_div_pos_is_pos(n as int, page_size as int);
    }
    assert(pages_for(bytes, page_size) == q);
    assert(q * page_size == page_size * q) by (nonlinear_arith);
}

/// Initialising twice leaves the registers as initialising once does.
pub proof fn lemma_init_idempotent(r: Seq<u32>, tx_dma: usize, rx_dma: usize)
    requires
        r.len() == REGS_LEN,
    ensures
        init_regs(init_regs(r, tx_dma, rx_dma), tx_dma, rx_dma) == init_regs(r, tx_dma, rx_dma),
{
    let once = init_regs(r, tx_dma, rx_dma);
    let twice = init_regs(once, tx_dma, rx_dma);
    let c: u32 = r[E1000_CTL as int];
    assert((c | E1000_CTL_RST) | E1000_CTL_RST == c | E1000_CTL_RST) by (bit_vector);
    assert forall|i: int| 0 <= i < r.len() implies #[trigger] twice[i] == once[i] by {
        assert(once[i] == init_reg(r, i, tx_dma, rx_dma));
        assert(twice[i] == init_reg(once, i, tx_dma, rx_dma));
    }
    assert(twice =~= once);
}

/// A receive call takes every packet that is ready: a second receive call right after it
/// returns nothing and leaves registers, rings and buffers as they are.
pub proof fn lemma_recv_drains(
    d0: DeviceView,
    d1: DeviceView,
    r1: Option<Seq<Seq<u8>>>,
    d2: DeviceView,
    r2: Option<Seq<Seq<u8>>>,
)
    requires
        d0.wf(),
        recv_post(d0, d1, r1),
        recv_post(d1, d2, r2),
    ensures
        d1.rx_ready_count() == 0,
        r2 is None,
        d2.regs == d1.regs,
        d2.rx_ring == d1.rx_ring,
        d2.rx_bufs == d1.rx_bufs,
        d2.tx_ring == d1.tx_ring,
        d2.tx_bufs == d1.tx_bufs,
{
    let n: int = RX_RING_SIZE as int;
    let s: int = d0.rx_start();
    let k: nat = d0.rx_ready_count();
    lemma_run_len_bounds(d0.rx_ring, s, RX_RING_SIZE as nat);
    assert(0 <= s < n);
    assert(d1.rx_ring.len() == RX_RING_SIZE);
    let s1 = d1.rx_start();
    if k == 0 {
        assert(d1.regs == d0.regs);
        assert(s1 == s);
        assert(ring_pos(s, 0) == s);
        lemma_ring_pos_offset(s, 0);
        assert(d1.rx_ring[s] == d0.rx_ring[s]);
        assert(!rx_done(d1.rx_ring[ring_pos(s1, 0)]));
    } else {
        lemma_ring_pos_offset(s, k - 1);
        let last: int = ring_pos(s, k - 1);
        assert(d1.regs[E1000_RDT as int] == last as u32);
        assert(d1.rdt() == last);
        if k < n {
            lemma_ring_pos_offset(s, k as int);
            assert(s1 == ring_pos(s, k as int));
            assert(d1.rx_ring[s1] == d0.rx_ring[s1]);
        } else {
            lemma_ring_pos_offset(s, 0);
            assert(s1 == s);
            assert(ring_offset(s, s) == 0);
            assert(0u8 & 1u8 == 0u8) by (bit_vector);
        }
        assert(ring_pos(s1, 0) == s1);
        assert(!rx_done(d1.rx_ring[ring_pos(s1, 0)]));
    }
    lemma_run_len_exact(d1.rx_ring, s1, RX_RING_SIZE as nat, 0);
    assert(d2.rx_ring =~= d1.rx_ring);
    assert(d2.rx_bufs =~= d1.rx_bufs);
}

/// After `i` accepted transmit calls in a row, starting from a state whose transmit tail is
/// `t0`, the tail has moved `i` slots on, and each of the `i` slots filled is still waiting
/// for the device.
proof fn lemma_tx_prefix(
    states: Seq<DeviceView>,
    packets: Seq<Seq<u8>>,
    results: Seq<i32>,
    i: int,
)
    requires
        states.len() >= TX_RING_SIZE + 1,
        packets.len() >= TX_RING_SIZE,
        results.len() >= TX_RING_SIZE,
        states[0].wf(),
        forall|j: int|
            0 <= j < TX_RING_SIZE ==> #[trigger] tx_post(states[j], states[j + 1], packets[j], results[j]),
        forall|j: int| 0 <= j < TX_RING_SIZE ==> #[trigger] results[j] != -1,
        0 <= i <= TX_RING_SIZE,
    ensures
        states[i].regs.len() == REGS_LEN,
        states[i].tx_ring.len() == TX_RING_SIZE,
        states[i].tdt() == (states[0].tdt() + i) % (TX_RING_SIZE as int),
        forall|j: int|
            0 <= j < i ==> (#[trigger] states[i].tx_ring[(states[0].tdt() + j) % (TX_RING_SIZE as int)]).status == 0,
    decreases i,
{
    let n: int = TX_RING_SIZE as int;
    let t0: int = states[0].tdt();
    if i > 0 {
        lemma_tx_prefix(states, packets, results, i - 1);
        let j: int = i - 1;
        assert(tx_post(states[j], states[j + 1], packets[j], results[j]));
        assert(results[j] != -1);
        assert(j + 1 == i);
        let a = states[j];
        let b = states[i];
        assert(a.tx_slot_free());
        let t: int = a.tdt();
        assert(0 <= t < n);
        assert(b.regs == a.regs.update(E1000_TDT as int, ((t + 1) % n) as u32));
        assert(b.tdt() == (t + 1) % n);
        assert((((t0 + i - 1) % n) + 1) % n == (t0 + i) % n) by {
            if t0 + i - 1 < n {
            } else if t0 + i - 1 < 2 * n {
            } else {
            }
        }
        assert forall|j: int| 0 <= j < i implies (#[trigger] b.tx_ring[(t0 + j) % n]).status == 0 by {
            let p: int = (t0 + j) % n;
            if p == t {
            } else {
                assert(b.tx_ring[p] == a.tx_ring[p]);
            }
        }
    }
}

/// Without the device writing back, the driver accepts at most one ring's worth of packets:
/// after `TX_RING_SIZE` accepted transmit calls in a row the slot at the transmit tail is
/// still waiting for the device, so the next transmit call is refused.
pub proof fn lemma_tx_ring_fills(
    states: Seq<DeviceView>,
    packets: Seq<Seq<u8>>,
    results: Seq<i32>,
)
    requires
        states.len() == TX_RING_SIZE + 1,
        packets.len() == TX_RING_SIZE,
        results.len() == TX_RING_SIZE,
        states[0].wf(),
        forall|j: int|
            0 <= j < TX_RING_SIZE ==> #[trigger] tx_post(states[j], states[j + 1], packets[j], results[j]),
        forall|j: int| 0 <= j < TX_RING_SIZE ==> #[trigger] results[j] != -1,
    ensures
        states[TX_RING_SIZE as int].tdt() == states[0].tdt(),
        !states[TX_RING_SIZE as int].tx_slot_free(),
{
    let n: int = TX_RING_SIZE as int;
    lemma_tx_prefix(states, packets, results, n);
    let t0: int = states[0].tdt();
    assert((t0 + n) % n == t0);
    assert((t0 + 0) % n == t0);
    let last = states[n];
    assert(last.tx_ring[(t0 + 0) % n].status == 0);
    assert(0u8 & 1u8 == 0u8) by (bit_vector);
    assert(!tx_done(last.tx_ring[t0]));
}


/// After `i` transmit calls in a row from a state whose every transmit slot the device had
/// finished with, all `i` were accepted, the tail has moved `i` slots on, and the slots not
/// yet reached are as they were.
proof fn lemma_tx_fresh_prefix(
    states: Seq<DeviceView>,
    packets: Seq<Seq<u8>>,
    results: Seq<i32>,
    i: int,
)
    requires
        states.len() == TX_RING_SIZE + 2,
        packets.len() == TX_RING_SIZE + 1,
        results.len() == TX_RING_SIZE + 1,
        states[0].wf(),
        forall|p: int| 0 <= p < TX_RING_SIZE ==> tx_done(#[trigger] states[0].tx_ring[p]),
        forall|j: int|
            0 <= j <= TX_RING_SIZE ==> #[trigger] tx_post(states[j], states[j + 1], packets[j], results[j]),
        0 <= i <= TX_RING_SIZE,
    ensures
        states[i].regs.len() == REGS_LEN,
        states[i].tx_ring.len() == TX_RING_SIZE,
        states[i].tdt() == ring_pos(states[0].tdt(), i),
        forall|j: int| 0 <= j < i ==> #[trigger] results[j] == packets[j].len(),
        forall|p: int|
            0 <= p < TX_RING_SIZE && ring_offset(p, states[0].tdt()) >= i ==> #[trigger] states[i].tx_ring[p]
                == states[0].tx_ring[p],
    decreases i,
{
    let n: int = TX_RING_SIZE as int;
    let t0: int = states[0].tdt();
    if i == 0 {
        assert(ring_pos(t0, 0) == t0);
    } else {
        lemma_tx_fresh_prefix(states, packets, results, i - 1);
        let j: int = i - 1;
        assert(tx_post(states[j], states[j + 1], packets[j], results[j]));
        assert(j + 1 == i);
        let a = states[j];
        let b = states[i];
        let t: int = a.tdt();
        lemma_ring_pos_offset(t0, j);
        assert(ring_offset(t, t0) == j);
        assert(a.tx_ring[t] == states[0].tx_ring[t]);
        assert(a.tx_slot_free());
        assert(results[j] == packets[j].len());
        assert(b.tdt() == (t + 1) % n);
        assert(b.tdt() == ring_pos(t0, i)) by {
            if t0 + j < n {
            } else {
            }
        }
        assert forall|p: int|
            0 <= p < TX_RING_SIZE && ring_offset(p, t0) >= i implies #[trigger] b.tx_ring[p]
                == states[0].tx_ring[p] by {
            assert(p != t);
            assert(b.tx_ring[p] == a.tx_ring[p]);
        }
    }
}

/// A device whose every transmit slot is free accepts one ring's worth of packets in a row,
/// `TX_RING_SIZE` of them, each at the next slot; without the device writing back, the next
/// transmit call is refused and changes nothing but its read of the tail.
pub proof fn lemma_tx_fresh_ring(
    states: Seq<DeviceView>,
    packets: Seq<Seq<u8>>,
    results: Seq<i32>,
)
    requires
        states.len() == TX_RING_SIZE + 2,
        packets.len() == TX_RING_SIZE + 1,
        results.len() == TX_RING_SIZE + 1,
        states[0].wf(),
        forall|p: int| 0 <= p < TX_RING_SIZE ==> tx_done(#[trigger] states[0].tx_ring[p]),
        forall|j: int|
            0 <= j <= TX_RING_SIZE ==> #[trigger] tx_post(states[j], states[j + 1], packets[j], results[j]),
    ensures
        forall|j: int| 0 <= j < TX_RING_SIZE ==> #[trigger] results[j] == packets[j].len(),
        results[TX_RING_SIZE as int] == -1,
        states[TX_RING_SIZE + 1].regs == states[TX_RING_SIZE as int].regs,
        memory_unchanged(states[TX_RING_SIZE as int], states[TX_RING_SIZE + 1]),
{
    let n: int = TX_RING_SIZE as int;
    lemma_tx_fresh_prefix(states, packets, results, n);
    assert forall|j: int| 0 <= j < TX_RING_SIZE implies #[trigger] results[j] != -1 by {
        assert(results[j] == packets[j].len());
    }
    lemma_tx_ring_fills(states.take(n + 1), packets.take(n), results.take(n));
    assert(states.take(n + 1)[n] == states[n]);
    assert(tx_post(states[n], states[n + 1], packets[n], results[n]));
}

/// A device just set up has its transmit tail at slot 0 with every transmit slot free, and
/// no received packet waiting.
pub proof fn lemma_fresh_device(
    regs: Seq<u32>,
    mapped_regs: usize,
    tx_ring: (usize, usize),
    rx_ring: (usize, usize),
    tx_bufs: (usize, usize),
    rx_bufs: (usize, usize),
    allocs: Seq<(usize, usize, usize)>,
    dev: DeviceView,
)
    requires
        regs.len() == REGS_LEN,
        buffers_usable(tx_bufs, rx_bufs),
        init_post(setup_view(regs, mapped_regs, tx_ring, rx_ring, tx_bufs, rx_bufs, allocs), dev),
    ensures
        dev.tdt() == 0,
        forall|p: int| 0 <= p < TX_RING_SIZE ==> tx_done(#[trigger] dev.tx_ring[p]),
        dev.rx_ready_count() == 0,
        dev.tx_ring_dma == tx_ring.1 && dev.rx_ring_dma == rx_ring.1,
        dev.tx_ring_vaddr == tx_ring.0 && dev.rx_ring_vaddr == rx_ring.0,
        dev.tx_ring.len() == 256 && dev.rx_ring.len() == 256,
        forall|i: int|
            0 <= i < 256 ==> {
                &&& (#[trigger] dev.tx_ring[i]).addr == (tx_bufs.1 + i * 2048) as u64
                &&& dev.tx_ring[i].status == 1
                &&& dev.tx_ring[i].length == 0
                &&& dev.tx_ring[i].cmd == 0
                &&& dev.tx_mbufs[i] == tx_bufs.0 + i * 2048
                &&& dev.tx_bufs[i] == Seq::new(2048, |b: int| 0u8)
            },
        forall|i: int|
            0 <= i < 256 ==> {
                &&& (#[trigger] dev.rx_ring[i]).addr == (rx_bufs.1 + i * 2048) as u64
                &&& dev.rx_ring[i].status == 0
                &&& dev.rx_ring[i].length == 0
                &&& dev.rx_mbufs[i] == rx_bufs.0 + i * 2048
                &&& dev.rx_bufs[i] == Seq::new(2048, |b: int| 0u8)
            },
{
    let s = setup_view(regs, mapped_regs, tx_ring, rx_ring, tx_bufs, rx_bufs, allocs);
    assert(dev.regs[E1000_TDT as int] == 0);
    assert(dev.regs[E1000_RDT as int] == 255);
    assert(1u8 & 1u8 != 0u8) by (bit_vector);
    assert(0u8 & 1u8 == 0u8) by (bit_vector);
    assert forall|p: int| 0 <= p < TX_RING_SIZE implies tx_done(#[trigger] dev.tx_ring[p]) by {
        assert(dev.tx_ring[p] == s.tx_ring[p]);
    }
    assert forall|i: int| 0 <= i < 256 implies {
        &&& (#[trigger] dev.tx_ring[i]).addr == (tx_bufs.1 + i * 2048) as u64
        &&& dev.tx_ring[i].status == 1
        &&& dev.tx_ring[i].length == 0
        &&& dev.tx_ring[i].cmd == 0
        &&& dev.tx_mbufs[i] == tx_bufs.0 + i * 2048
        &&& dev.tx_bufs[i] == Seq::new(2048, |b: int| 0u8)
    } by {
        assert(dev.tx_ring[i] == s.tx_ring[i]);
        assert(dev.tx_bufs[i] =~= Seq::new(2048, |b: int| 0u8));
    }
    assert forall|i: int| 0 <= i < 256 implies {
        &&& (#[trigger] dev.rx_ring[i]).addr == (rx_bufs.1 + i * 2048) as u64
        &&& dev.rx_ring[i].status == 0
        &&& dev.rx_ring[i].length == 0
        &&& dev.rx_mbufs[i] == rx_bufs.0 + i * 2048
        &&& dev.rx_bufs[i] == Seq::new(2048, |b: int| 0u8)
    } by {
        assert(dev.rx_ring[i] == s.rx_ring[i]);
        assert(dev.rx_bufs[i] =~= Seq::new(2048, |b: int| 0u8));
    }
    assert(dev.rx_start() == 0);
    assert(ring_pos(0, 0) == 0);
    assert(!rx_done(dev.rx_ring[0]));
    lemma_run_len_exact(dev.rx_ring, 0, RX_RING_SIZE as nat, 0);
}


/// Whether register `i` is one that initialisation writes.
pub open spec fn written_by_init(i: int) -> bool {
    ||| i == E1000_CTL
    ||| i == E1000_IMS
    ||| i == E1000_TDBAL
    ||| i == E1000_TDLEN
    ||| i == E1000_TDH
    ||| i == E1000_TDT
    ||| i == E1000_RDBAL
    ||| i == E1000_RDLEN
    ||| i == E1000_RDH
    ||| i == E1000_RDT
    ||| i == E1000_RA
    ||| i == E1000_RA + 1
    ||| (E1000_MTA <= i < E1000_MTA + 128)
    ||| i == E1000_TCTL
    ||| i == E1000_TIPG
    ||| i == E1000_RCTL
    ||| i == E1000_TIDV
    ||| i == E1000_TADV
    ||| i == E1000_RDTR
    ||| i == E1000_RADV
}

/// What the registers hold after initialisation, whatever they held before: the reset bit
/// is added to the control register; interrupts are masked but for the receive timer; both
/// rings are given their base addresses and a length of 4096 bytes; both transmit head and
/// tail are 0, the receive head is 0 and the receive tail 255 (the ring is empty and every
/// receive slot is the card's); the receive address is MAC 52:54:00:12:34:56, marked
/// valid; all 128 registers of the multicast table are 0; transmitter and receiver are
/// enabled; the interrupt delay timers are 0. No other register changes.
pub proof fn lemma_init_register_values(old: DeviceView, new: DeviceView)
    requires
        old.wf_memory(),
        init_post(old, new),
    ensures
        new.regs.len() == old.regs.len(),
        new.regs[E1000_CTL as int] == old.regs[E1000_CTL as int] | 0x0040_0000u32,
        new.regs[E1000_IMS as int] == 0x80,
        new.regs[E1000_TDBAL as int] == old.tx_ring_dma as u32,
        new.regs[E1000_TDLEN as int] == 4096,
        new.regs[E1000_TDH as int] == 0,
        new.regs[E1000_TDT as int] == 0,
        new.regs[E1000_RDBAL as int] == old.rx_ring_dma as u32,
        new.regs[E1000_RDLEN as int] == 4096,
        new.regs[E1000_RDH as int] == 0,
        new.regs[E1000_RDT as int] == 255,
        new.regs[E1000_RA as int] == 0x1200_5452,
        new.regs[E1000_RA + 1] == 0x8000_5634,
        forall|i: int| 0 <= i < 128 ==> #[trigger] new.regs[E1000_MTA + i] == 0,
        new.regs[E1000_TCTL as int] == 0x0004_010A,
        new.regs[E1000_TIPG as int] == 0x0060_200A,
        new.regs[E1000_RCTL as int] == 0x0400_8002,
        new.regs[E1000_TIDV as int] == 0,
        new.regs[E1000_TADV as int] == 0,
        new.regs[E1000_RDTR as int] == 0,
        new.regs[E1000_RADV as int] == 0,
        forall|i: int|
            0 <= i < REGS_LEN && !written_by_init(i) ==> #[trigger] new.regs[i] == old.regs[i],
{
    assert(0x2u32 | 0x8u32 | (0x10u32 << 4u32) | (0x40u32 << 12u32) == 0x0004_010Au32) by (bit_vector);
    assert(10u32 | (8u32 << 10u32) | (6u32 << 20u32) == 0x0060_200Au32) by (bit_vector);
    assert(0x2u32 | 0x8000u32 | 0x0u32 | 0x0400_0000u32 == 0x0400_8002u32) by (bit_vector);
    assert(0x5634u32 | (1u32 << 31u32) == 0x8000_5634u32) by (bit_vector);
    assert(1u32 << 7u32 == 0x80u32) by (bit_vector);
    assert forall|i: int| 0 <= i < 128 implies #[trigger] new.regs[E1000_MTA + i] == 0 by {
        assert(new.regs[E1000_MTA + i] == init_reg(old.regs, E1000_MTA + i, old.tx_ring_dma, old.rx_ring_dma));
    }
    assert forall|i: int|
        0 <= i < REGS_LEN && !written_by_init(i) implies #[trigger] new.regs[i] == old.regs[i] by {
        assert(new.regs[i] == init_reg(old.regs, i, old.tx_ring_dma, old.rx_ring_dma));
    }
}

/// An accepted transmit call hands the packet over in the slot at the old tail and nowhere
/// else: that slot's descriptor keeps the address of its buffer (and its checksum and
/// special fields), and now says `packet.len()` bytes, end of packet with status report
/// requested (command 0x09), not yet done; its buffer starts with the packet; every other
/// slot, descriptor and buffer alike, is as it was; the tail moves one slot on.
pub proof fn lemma_tx_slot_handed_over(old: DeviceView, new: DeviceView, packet: Seq<u8>, r: i32)
    requires
        old.wf(),
        packet.len() <= 2048,
        tx_post(old, new, packet, r),
        r != -1,
    ensures
        r == packet.len(),
        new.tx_ring.len() == 256,
        new.tx_ring[old.tdt()].addr == old.tx_ring[old.tdt()].addr,
        new.tx_ring[old.tdt()].cso == old.tx_ring[old.tdt()].cso,
        new.tx_ring[old.tdt()].css == old.tx_ring[old.tdt()].css,
        new.tx_ring[old.tdt()].special == old.tx_ring[old.tdt()].special,
        new.tx_ring[old.tdt()].length == packet.len(),
        new.tx_ring[old.tdt()].cmd == 0x09,
        new.tx_ring[old.tdt()].status == 0,
        new.tx_bufs[old.tdt()].len() == 2048,
        new.tx_bufs[old.tdt()].take(packet.len() as int) == packet,
        forall|b: int|
            packet.len() <= b < 2048 ==> #[trigger] new.tx_bufs[old.tdt()][b] == old.tx_bufs[old.tdt()][b],
        forall|p: int|
            0 <= p < 256 && p != old.tdt() ==> #[trigger] new.tx_ring[p] == old.tx_ring[p]
                && new.tx_bufs[p] == old.tx_bufs[p],
        new.tdt() == (old.tdt() + 1) % 256,
{
    let t: int = old.tdt();
    assert(0x08u32 | 0x01u32 == 0x09u32) by (bit_vector);
    assert(new.tx_bufs[t].take(packet.len() as int) =~= packet);
}

/// Within the accesses of an accepted transmit call, the card is told of the new tail only
/// after the slot it hands over is complete: every write of the transmit tail is preceded
/// by the store of slot `old.tdt()` with a descriptor that says the packet's length and is
/// not done, and with the packet at the start of its buffer.
pub proof fn lemma_tx_slot_before_tail(old: DeviceView, new: DeviceView, packet: Seq<u8>, r: i32)
    requires
        old.wf(),
        packet.len() <= 2048,
        tx_post(old, new, packet, r),
        r != -1,
    ensures
        new.trace.len() >= old.trace.len(),
        new.trace.subrange(0, old.trace.len() as int) == old.trace,
        forall|i: int|
            old.trace.len() <= i < new.trace.len() && (#[trigger] new.trace[i] matches Access::Write(
                reg,
                _,
            ) && reg == E1000_TDT) ==> exists|j: int|
                old.trace.len() <= j < i && (#[trigger] new.trace[j] matches Access::TxSlot(
                    s,
                    d,
                    b,
                ) && s == old.tdt() && d.length == packet.len() && d.status == 0 && b.take(
                    packet.len() as int,
                ) == packet),
{
    let n: int = old.trace.len() as int;
    let t: int = old.tdt();
    assert(new.trace.subrange(0, n) =~= old.trace);
    assert(new.tx_bufs[t].take(packet.len() as int) =~= packet);
    assert(new.trace[n + 1] == Access::TxSlot(t, new.tx_ring[t], new.tx_bufs[t]));
    assert forall|i: int|
        n <= i < new.trace.len() && (#[trigger] new.trace[i] matches Access::Write(reg, _)
            && reg == E1000_TDT) implies exists|j: int|
        n <= j < i && (#[trigger] new.trace[j] matches Access::TxSlot(s, d, b) && s == t
            && d.length == packet.len() && d.status == 0 && b.take(packet.len() as int)
            == packet) by {
        assert(i == n + 2);
        assert(new.trace[n + 1] matches Access::TxSlot(s, d, b) && s == t);
    }
}

/// A receive call hands every slot back to the card still pointing at its buffer: each
/// receive descriptor keeps its address, length, checksum, errors and special fields;
/// only its status may change, and where it changes it becomes 0.
pub proof fn lemma_recv_keeps_descriptors(
    old: DeviceView,
    new: DeviceView,
    r: Option<Seq<Seq<u8>>>,
)
    requires
        old.wf(),
        recv_post(old, new, r),
    ensures
        new.rx_ring.len() == 256,
        forall|p: int|
            0 <= p < 256 ==> {
                &&& (#[trigger] new.rx_ring[p]).addr == old.rx_ring[p].addr
                &&& new.rx_ring[p].length == old.rx_ring[p].length
                &&& new.rx_ring[p].csum == old.rx_ring[p].csum
                &&& new.rx_ring[p].errors == old.rx_ring[p].errors
                &&& new.rx_ring[p].special == old.rx_ring[p].special
                &&& (new.rx_ring[p].status == 0 || new.rx_ring[p].status == old.rx_ring[p].status)
            },
{
}


/// Disabling interrupts writes all ones to the interrupt mask clear register and then reads
/// the status register; nothing else changes.
pub proof fn lemma_irq_disable_masks_all(old: DeviceView, new: DeviceView)
    requires
        irq_disable_post(old, new),
    ensures
        new.regs == old.regs.update(54, 0xFFFF_FFFFu32),
        new.trace == old.trace + seq![Access::Write(54, 0xFFFF_FFFFu32), Access::Read(2)],
        memory_unchanged(old, new),
{
    assert(!0u32 == 0xFFFF_FFFFu32) by (bit_vector);
}

/// Enabling interrupts writes 0x9D (receive timer, transmit descriptor written back,
/// receive descriptor minimum threshold, receive sequence error, link status change) to the
/// interrupt mask set register and then reads the status register; nothing else changes.
pub proof fn lemma_irq_enable_mask(old: DeviceView, new: DeviceView)
    requires
        irq_enable_post(old, new),
    ensures
        new.regs == old.regs.update(52, 0x9Du32),
        new.trace == old.trace + seq![Access::Write(52, 0x9Du32), Access::Read(2)],
        memory_unchanged(old, new),
{
}

/// A flush reads the status register and changes nothing.
pub proof fn lemma_flush_reads_status(old: DeviceView, new: DeviceView)
    requires
        flush_post(old, new),
    ensures
        new.regs == old.regs,
        new.trace == old.trace.push(Access::Read(2)),
        memory_unchanged(old, new),
{
}

/// Causing a link status change interrupt writes the link status change bit (4) to the
/// interrupt cause set register, and does nothing else.
pub proof fn lemma_cause_lsc_sets_lsc(old: DeviceView, new: DeviceView)
    requires
        cause_lsc_post(old, new),
    ensures
        new.regs == old.regs.update(50, 4u32),
        new.trace == old.trace.push(Access::Write(50, 4u32)),
        memory_unchanged(old, new),
{
}

/// Acknowledging an interrupt reads the interrupt cause register and returns what it held.
pub proof fn lemma_intr_reads_cause(old: DeviceView, new: DeviceView, cause: u32)
    requires
        intr_post(old, new, cause),
    ensures
        cause == old.regs[48],
        new.regs == old.regs,
        new.trace == old.trace.push(Access::Read(48)),
        memory_unchanged(old, new),
{
}

/// A transmit call is refused exactly when the slot at the tail does not have its DD bit
/// set, and a refused call only reads the tail: registers, rings and buffers stay as they
/// were, and nothing is copied.
pub proof fn lemma_tx_refused(old: DeviceView, new: DeviceView, packet: Seq<u8>, r: i32)
    requires
        old.wf(),
        tx_post(old, new, packet, r),
    ensures
        r == -1 <==> old.tx_ring[old.tdt()].status & 1u8 == 0,
        r == -1 ==> new.regs == old.regs && new.trace == old.trace.push(Access::Read(3590))
            && memory_unchanged(old, new),
        r != -1 ==> r == packet.len(),
{
}

/// The buffer areas a device can be set up over are exactly those where the receive area was
/// allocated (its address is not 0) and each of the four addresses leaves room for 256
/// buffers of 2048 bytes below the top of the address space.
pub proof fn lemma_buffers_usable(tx: (usize, usize), rx: (usize, usize))
    ensures
        buffers_usable(tx, rx) <==> (rx.0 != 0 && tx.0 + 524288 <= usize::MAX && tx.1 + 524288
            <= usize::MAX && rx.0 + 524288 <= usize::MAX && rx.1 + 524288 <= usize::MAX),
{
}

/// The page counts a new device asks for are the fewest pages that hold each area: 4096
/// bytes for each ring and 524288 bytes for each buffer area.
pub proof fn lemma_alloc_pages(page_size: nat)
    requires
        page_size > 0,
        page_size + 524288 <= usize::MAX,
    ensures
        alloc_pages(page_size).len() == 4,
        alloc_pages(page_size)[0] * page_size >= 4096,
        (alloc_pages(page_size)[0] - 1) * page_size < 4096,
        alloc_pages(page_size)[1] == alloc_pages(page_size)[0],
        alloc_pages(page_size)[2] * page_size >= 524288,
        (alloc_pages(page_size)[2] - 1) * page_size < 524288,
        alloc_pages(page_size)[3] == alloc_pages(page_size)[2],
{
    lemma_pages_cover(4096, page_size);
    lemma_pages_cover(524288, page_size);
    let a: int = pages_for(4096, page_size) as int;
    let b: int = pages_for(524288, page_size) as int;
    assert(a <= 4096 + page_size - 1) by {
        vstd::arithmetic::div_mod::lemma_div_is_ordered_by_denominator(
            (4096 + page_size - 1) as int,
            1,
            page_size as int,
        );
    }
    assert(b <= 524288 + page_size - 1) by {
        vstd::arithmetic::div_mod::lemma_div_is_ordered_by_denominator(
            (524288 + page_size - 1) as int,
            1,
            page_size as int,
        );
    }
    assert(alloc_pages(page_size)[0] == a);
    assert(alloc_pages(page_size)[2] == b);
    assert((a - 1) * page_size == a * page_size - page_size) by (nonlinear_arith);
    assert((b - 1) * page_size == b * page_size - page_size) by (nonlinear_arith);
}

/// Initialisation makes its accesses in this order: it reads the status and control
/// registers, masks every interrupt, resets the device by writing the control register with
/// the reset bit (0x0040_0000) added, and masks interrupts again; it then writes 148 more
/// registers, none of them the control register or the interrupt mask; last it unmasks the
/// receive timer interrupt (0x80), and reads the interrupt cause and status registers.
pub proof fn lemma_init_order(old: DeviceView, new: DeviceView)
    requires
        old.wf_memory(),
        init_post(old, new),
    ensures
        new.trace.len() == old.trace.len() + 153,
        new.trace.subrange(0, old.trace.len() as int) == old.trace,
        new.trace[old.trace.len() as int + 0] == Access::Read(2),
        new.trace[old.trace.len() as int + 1] == Access::Read(0),
        new.trace[old.trace.len() as int + 2] == Access::Write(52, 0),
        new.trace[old.trace.len() as int + 3] == Access::Write(0, old.regs[0] | 0x0040_0000u32),
        new.trace[old.trace.len() as int + 4] == Access::Write(52, 0),
        forall|m: int|
            old.trace.len() + 5 <= m < old.trace.len() + 150 ==> (#[trigger] new.trace[m] matches Access::Write(
                reg,
                _,
            ) && reg != 0 && reg != 52),
        new.trace[old.trace.len() as int + 150] == Access::Write(52, 0x80),
        new.trace[old.trace.len() as int + 151] == Access::Read(48),
        new.trace[old.trace.len() as int + 152] == Access::Read(2),
{
    let n: int = old.trace.len() as int;
    let t = crate::spec::init_trace(old.regs[0], old.tx_ring_dma, old.rx_ring_dma);
    assert(new.trace == old.trace + t);
    assert(t.len() == 153);
    assert(new.trace.subrange(0, n) =~= old.trace);
    assert(1u32 << 7u32 == 0x80u32) by (bit_vector);
    assert forall|m: int| n + 5 <= m < n + 150 implies (#[trigger] new.trace[m] matches Access::Write(
        reg,
        _,
    ) && reg != 0 && reg != 52) by {
        assert(new.trace[m] == t[m - n]);
    }
}


/// The accesses a receive call makes after its first read come in threes, one three per
/// packet taken: the store of the consumed slot, the write of the receive tail onto that
/// slot, and the read of the status register.
proof fn lemma_recv_trace_shape(ring: Seq<RxDesc>, bufs: Seq<Seq<u8>>, start: int, k: nat)
    ensures
        recv_trace(ring, bufs, start, k).len() == 3 * k,
        forall|j: int|
            0 <= j < k ==> {
                let p = ring_pos(start, j);
                &&& #[trigger] recv_trace(ring, bufs, start, k)[3 * j] == Access::RxSlot(
                    p,
                    rx_desc_consumed(ring[p]),
                    rx_buf_consumed(bufs[p], ring[p].length as int),
                )
                &&& recv_trace(ring, bufs, start, k)[3 * j + 1] == Access::Write(
                    E1000_RDT as int,
                    p as u32,
                )
                &&& recv_trace(ring, bufs, start, k)[3 * j + 2] == Access::Read(E1000_STAT as int)
            },
    decreases k,
{
    if k > 0 {
        lemma_recv_trace_shape(ring, bufs, start, (k - 1) as nat);
        let prev = recv_trace(ring, bufs, start, (k - 1) as nat);
        let tr = recv_trace(ring, bufs, start, k);
        assert forall|j: int| 0 <= j < k implies {
            let p = ring_pos(start, j);
            &&& #[trigger] tr[3 * j] == Access::RxSlot(
                p,
                rx_desc_consumed(ring[p]),
                rx_buf_consumed(bufs[p], ring[p].length as int),
            )
            &&& tr[3 * j + 1] == Access::Write(E1000_RDT as int, p as u32)
            &&& tr[3 * j + 2] == Access::Read(E1000_STAT as int)
        } by {
            if j < k - 1 {
                assert(tr[3 * j] == prev[3 * j]);
                assert(tr[3 * j + 1] == prev[3 * j + 1]);
                assert(tr[3 * j + 2] == prev[3 * j + 2]);
            }
        }
    }
}

/// Within the accesses of a receive call, a slot is handed back to the card only once the
/// driver is done with it: every write of the receive tail onto a slot is preceded by the
/// store of that slot with its status cleared and its buffer address kept.
pub proof fn lemma_recv_slot_before_tail(
    old: DeviceView,
    new: DeviceView,
    r: Option<Seq<Seq<u8>>>,
)
    requires
        old.wf(),
        recv_post(old, new, r),
    ensures
        new.trace.len() >= old.trace.len(),
        new.trace.subrange(0, old.trace.len() as int) == old.trace,
        forall|i: int|
            old.trace.len() <= i < new.trace.len() && (#[trigger] new.trace[i] matches Access::Write(
                reg,
                _,
            ) && reg == E1000_RDT) ==> exists|j: int|
                old.trace.len() <= j < i && (#[trigger] new.trace[j] matches Access::RxSlot(
                    p,
                    d,
                    _,
                ) && new.trace[i] == Access::Write(E1000_RDT as int, p as u32) && 0 <= p < 256
                    && d.status == 0 && d.addr == old.rx_ring[p].addr),
{
    let n: int = old.trace.len() as int;
    let s: int = old.rx_start();
    let k: nat = old.rx_ready_count();
    let tr = recv_trace(old.rx_ring, old.rx_bufs, s, k);
    lemma_recv_trace_shape(old.rx_ring, old.rx_bufs, s, k);
    lemma_run_len_bounds(old.rx_ring, s, RX_RING_SIZE as nat);
    assert(new.trace == old.trace.push(Access::Read(E1000_RDT as int)) + tr);
    assert(new.trace.subrange(0, n) =~= old.trace);
    assert forall|i: int|
        n <= i < new.trace.len() && (#[trigger] new.trace[i] matches Access::Write(reg, _) && reg
            == E1000_RDT) implies exists|j: int|
        n <= j < i && (#[trigger] new.trace[j] matches Access::RxSlot(p, d, _) && new.trace[i]
            == Access::Write(E1000_RDT as int, p as u32) && 0 <= p < 256 && d.status == 0
            && d.addr == old.rx_ring[p].addr) by {
        assert(i != n);
        let m: int = i - n - 1;
        assert(new.trace[i] == tr[m]);
        let q: int = m / 3;
        assert(m == 3 * q + m % 3);
        assert(0 <= q < k);
        let p: int = ring_pos(s, q);
        lemma_ring_pos_offset(s, q);
        if m % 3 == 0 {
            assert(tr[3 * q] matches Access::RxSlot(_, _, _));
        } else if m % 3 == 2 {
            assert(tr[3 * q + 2] == Access::Read(E1000_STAT as int));
        } else {
            assert(m == 3 * q + 1);
            assert(new.trace[i - 1] == tr[3 * q]);
            assert(new.trace[i - 1] matches Access::RxSlot(pp, d, _) && pp == p && d.status == 0
                && d.addr == old.rx_ring[p].addr);
        }
    }
}

/// The receive call that went from `old` to `new` took the packets `v` from the slots
/// starting at slot `s`: between one and 256 of them; the receive tail ends on the last;
/// the slot after them (if any is left) does not have its DD bit set; each of them did, and
/// its packet is the first `length` bytes of its buffer; each of them has its status
/// cleared and the first min(64, length) bytes of its buffer zeroed, the rest kept; every
/// other slot is as it was.
pub open spec fn recv_took(old: DeviceView, new: DeviceView, v: Seq<Seq<u8>>, s: int) -> bool {
    &&& 1 <= v.len() <= 256
    &&& new.rdt() == (s + v.len() - 1) % 256
    &&& v.len() < 256 ==> old.rx_ring[(s + v.len()) % 256].status & 1u8 == 0
    &&& forall|j: int|
        0 <= j < v.len() ==> #[trigger] v[j] == old.rx_bufs[(s + j) % 256].take(
            old.rx_ring[(s + j) % 256].length as int,
        )
    &&& forall|j: int|
        0 <= j < v.len() ==> (#[trigger] old.rx_ring[(s + j) % 256]).status & 1u8 != 0
    &&& forall|j: int| 0 <= j < v.len() ==> (#[trigger] new.rx_ring[(s + j) % 256]).status == 0
    &&& forall|j: int| 0 <= j < v.len() ==> (#[trigger] new.rx_bufs[(s + j) % 256]).len() == 2048
    &&& forall|j: int, b: int|
        0 <= j < v.len() && 0 <= b < 2048 ==> #[trigger] new.rx_bufs[(s + j) % 256][b] == (if b
            < 64 && b < old.rx_ring[(s + j) % 256].length {
            0u8
        } else {
            old.rx_bufs[(s + j) % 256][b]
        })
    &&& forall|j: int|
        v.len() <= j < 256 ==> #[trigger] new.rx_ring[(s + j) % 256] == old.rx_ring[(s + j) % 256]
            && new.rx_bufs[(s + j) % 256] == old.rx_bufs[(s + j) % 256]
}

/// What a receive call returns and leaves behind, from the slot after the receive tail on:
/// it returns nothing, and changes nothing but its read of the tail, exactly when that slot's
/// DD bit is clear. Otherwise it returns the packets of the slots whose DD bit is set, in
/// ring order up to the first slot whose DD bit is clear (at most the whole ring), each the
/// first `length` bytes of its slot's buffer; each of those slots has its status cleared and
/// the first min(64, length) bytes of its buffer zeroed, the rest of the buffer kept; the
/// receive tail ends on the last of them; every other slot is as it was.
/// The packets a receive call takes are those of the run of filled slots from the slot
/// after the receive tail.
proof fn lemma_recv_took(old: DeviceView, new: DeviceView, v: Seq<Seq<u8>>, s: int, k: nat)
    requires
        old.wf(),
        recv_post(old, new, Some(v)),
        s == old.rx_start(),
        k == old.rx_ready_count(),
        k > 0,
    ensures
        recv_took(old, new, v, s),
{
    lemma_run_len_bounds(old.rx_ring, s, RX_RING_SIZE as nat);
    assert((E1000_RXD_STAT_DD as u8) == 1u8);
    assert(0 <= s < 256);
    lemma_ring_pos_offset(s, 0);
    assert(ring_pos(s, 0) == s);
    let r = Some(v);
    assert(v == rx_packets(old, s, k));
        assert(rx_done(old.rx_ring[ring_pos(s, 0)]));
        assert(s == (old.rdt() + 1) % 256);
        lemma_ring_pos_offset(s, k - 1);
        assert(new.regs[E1000_RDT as int] == ring_pos(s, k - 1) as u32);
        if k < 256 {
            lemma_ring_pos_offset(s, k as int);
        }
        assert forall|j: int| 0 <= j < v.len() implies #[trigger] v[j] == old.rx_bufs[(s + j)
            % 256].take(old.rx_ring[(s + j) % 256].length as int) by {
            lemma_ring_pos_offset(s, j);
        }
        assert forall|j: int| 0 <= j < v.len() implies {
            &&& (#[trigger] old.rx_ring[(s + j) % 256]).status & 1u8 != 0
            &&& new.rx_ring[(s + j) % 256].status == 0
            &&& new.rx_bufs[(s + j) % 256].len() == 2048
        } by {
            let p = ring_pos(s, j);
            lemma_ring_pos_offset(s, j);
            assert(rx_done(old.rx_ring[p]));
            assert(new.rx_ring[p] == rx_desc_consumed(old.rx_ring[p]));
            assert(new.rx_bufs[p] == rx_buf_consumed(old.rx_bufs[p], old.rx_ring[p].length as int));
        }
        assert(forall|j: int| 0 <= j < v.len() ==> (#[trigger] old.rx_ring[(s + j) % 256]).status & 1u8 != 0);
        assert forall|j: int| 0 <= j < v.len() implies (#[trigger] new.rx_ring[(s + j) % 256]).status == 0 by {
            assert(old.rx_ring[(s + j) % 256].status & 1u8 != 0);
        }
        assert forall|j: int| 0 <= j < v.len() implies (#[trigger] new.rx_bufs[(s + j) % 256]).len() == 2048 by {
            assert(old.rx_ring[(s + j) % 256].status & 1u8 != 0);
        }
        assert forall|j: int, b: int|
            0 <= j < v.len() && 0 <= b < 2048 implies #[trigger] new.rx_bufs[(s + j) % 256][b] == (if b
            < 64 && b < old.rx_ring[(s + j) % 256].length {
            0u8
        } else {
            old.rx_bufs[(s + j) % 256][b]
        }) by {
            let p = ring_pos(s, j);
            lemma_ring_pos_offset(s, j);
            assert(new.rx_bufs[p] == rx_buf_consumed(old.rx_bufs[p], old.rx_ring[p].length as int));
        }
        assert(r == Some(v));
        assert(old.rx_ring[(s + v.len()) % 256] == old.rx_ring[ring_pos(s, k as int)]);
        assert(1 <= v.len() <= 256);
        assert(new.rdt() == (s + v.len() - 1) % 256);
        assert(v.len() < 256 ==> old.rx_ring[(s + v.len()) % 256].status & 1u8 == 0);
        assert forall|j: int| v.len() <= j < 256 implies #[trigger] new.rx_ring[(s + j) % 256]
            == old.rx_ring[(s + j) % 256] && new.rx_bufs[(s + j) % 256] == old.rx_bufs[(s + j) % 256] by {
            lemma_ring_pos_offset(s, j);
        }
        assert(recv_took(old, new, v, s));
}

pub proof fn lemma_recv_packets(old: DeviceView, new: DeviceView, r: Option<Seq<Seq<u8>>>)
    requires
        old.wf(),
        recv_post(old, new, r),
    ensures
        r is None <==> old.rx_ring[(old.rdt() + 1) % 256].status & 1u8 == 0,
        r is None ==> new.regs == old.regs && new.rx_ring == old.rx_ring && new.rx_bufs
            == old.rx_bufs && new.trace == old.trace.push(Access::Read(2566)),
        r matches Some(v) ==> recv_took(old, new, v, (old.rdt() + 1) % 256),
{
    let s: int = old.rx_start();
    let k: nat = old.rx_ready_count();
    lemma_run_len_bounds(old.rx_ring, s, RX_RING_SIZE as nat);
    assert((E1000_RXD_STAT_DD as u8) == 1u8);
    assert(0 <= s < 256);
    lemma_ring_pos_offset(s, 0);
    assert(ring_pos(s, 0) == s);
    if k == 0 {
        assert(new.rx_ring =~= old.rx_ring);
        assert(new.rx_bufs =~= old.rx_bufs);
        assert(new.trace =~= old.trace.push(Access::Read(E1000_RDT as int)));
    } else {
        lemma_recv_took(old, new, r->0, s, k);
    }
}

} // verus!
