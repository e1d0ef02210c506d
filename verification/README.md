# e1000

The logic of a driver for the Intel 82540EP/EM (e1000) network card, written in Verus and
verified against a model of the card as the driver sees it: a file of 32-bit registers,
the transmit and receive descriptor rings, the packet buffers the rings point at, and an
ordered record (ghost) of every access the driver makes — register reads and writes, and
the stores that complete a ring slot. The model is plain memory: nothing here maps the
registers or the DMA memory of a real card; the initial register contents and the DMA
allocations are handed in by the caller.

Layout of `src/`:

- `consts.rs` — register indices, bit values and ring sizes.
- `desc.rs` — the transmit and receive descriptors.
- `spec.rs` — the model (`DeviceView`) and, for each driver operation, the spec function
  that says what it does to the model; lemmas about positions in a ring.
- `device.rs` — the driver (`E1000Device`), the `KernelFunc` trait through which it gets
  DMA memory, and the device's side of the model (its write-back of finished slots), used
  to exercise the driver.
- `laws.rs` — properties that span several calls: initialisation is idempotent, a receive
  call drains the ring, a fresh device accepts one ring's worth of packets and then
  refuses, page counts cover what they are computed for.
