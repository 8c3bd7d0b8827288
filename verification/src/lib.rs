//! Verified building blocks for kernel code: a fixed-capacity FIFO ring buffer,
//! DMA attribute sets and bounds checks of coherent DMA regions, the decision logic of
//! high-resolution timers, and the show and store decisions of configfs attributes.

pub mod error;
pub mod ringbuffer;
pub mod dma;
pub mod hrtimer;
pub mod time;
pub mod configfs;
