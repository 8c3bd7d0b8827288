//! Raw values of the DMA mapping attributes, in the bit encoding of the C interface.

use vstd::prelude::*;

verus! {

/// Specifies that reads and writes to the mapping may be weakly ordered, that is that reads
/// and writes may pass each other.
pub const DMA_ATTR_WEAK_ORDERING: u32 = 1 << 1;

/// Specifies that writes to the mapping may be buffered to improve performance.
pub const DMA_ATTR_WRITE_COMBINE: u32 = 1 << 2;

/// Lets the platform to avoid creating a kernel virtual mapping for the allocated buffer.
pub const DMA_ATTR_NO_KERNEL_MAPPING: u32 = 1 << 4;

/// Allows platform code to skip synchronization of the CPU cache for the given buffer assuming
/// that it has been already transferred to 'device' domain.
pub const DMA_ATTR_SKIP_CPU_SYNC: u32 = 1 << 5;

/// Forces contiguous allocation of the buffer in physical memory.
pub const DMA_ATTR_FORCE_CONTIGUOUS: u32 = 1 << 6;

/// This is a hint to the DMA-mapping subsystem that it's probably not worth the time to try
/// to allocate memory to in a way that gives better TLB efficiency.
pub const DMA_ATTR_ALLOC_SINGLE_PAGES: u32 = 1 << 7;

/// This tells the DMA-mapping subsystem to suppress allocation failure reports (similarly to
/// __GFP_NOWARN).
pub const DMA_ATTR_NO_WARN: u32 = 1 << 8;

/// Used to indicate that the buffer is fully accessible at an elevated privilege level (and
/// ideally inaccessible or at least read-only at lesser-privileged levels).
pub const DMA_ATTR_PRIVILEGED: u32 = 1 << 9;

} // verus!
