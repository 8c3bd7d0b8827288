# lib

Verified building blocks for kernel code, written in Verus.

- `src/ringbuffer.rs`: a fixed-capacity FIFO ring buffer, modelled as the sequence of the
  values it holds, with the laws that tie `full`, `empty` and `free_count` together and the
  first-in-first-out law.
- `src/dma.rs`, `src/dma/attrs.rs`: DMA mapping attribute sets and their containment laws;
  the bookkeeping of coherent DMA regions and the bounds checks of every access to one.
- `src/hrtimer.rs`, `src/time.rs`: the restart policy of timer callbacks and its raw encoding,
  the setup of a timer, the offsets between a struct and its embedded timer, the traits that
  schedule and cancel timers, scoped scheduling, and closure timers whose closure runs at
  most once.
- `src/configfs.rs`: how a shown value fills an attribute page, and when a store into a
  device's configuration is refused.
- `src/error.rs`: the error codes.
- `app/`: the calls into the C side (DMA allocation and access through raw pointers, timers,
  interrupt control, NUMA topology) and the formatting, parsing and locking around configfs
  attributes, which take their decisions from the library.
