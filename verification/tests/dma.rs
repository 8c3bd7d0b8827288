use lib::dma::attrs::{
    DMA_ATTR_ALLOC_SINGLE_PAGES, DMA_ATTR_FORCE_CONTIGUOUS, DMA_ATTR_NO_KERNEL_MAPPING,
    DMA_ATTR_NO_WARN, DMA_ATTR_PRIVILEGED, DMA_ATTR_SKIP_CPU_SYNC, DMA_ATTR_WEAK_ORDERING,
    DMA_ATTR_WRITE_COMBINE,
};
use lib::dma::{Attrs, CoherentAllocation};
use lib::error::Error;

#[test]
fn attrs_combine_with_operators() {
    let a = Attrs(DMA_ATTR_NO_WARN) | Attrs(DMA_ATTR_WEAK_ORDERING);
    assert_eq!(a.0, (1 << 8) | (1 << 1));
    assert!(a.contains(Attrs(DMA_ATTR_NO_WARN)));
    assert!(a.contains(Attrs(DMA_ATTR_WEAK_ORDERING)));
    assert!(!a.contains(Attrs(DMA_ATTR_PRIVILEGED)));
    assert!(a.contains(Attrs(0)));
    assert!(a.contains(a));
    assert!((a & Attrs(DMA_ATTR_NO_WARN)) == Attrs(DMA_ATTR_NO_WARN));
    assert!(!(!a).contains(Attrs(DMA_ATTR_NO_WARN)));
    assert!((!a).contains(Attrs(DMA_ATTR_PRIVILEGED)));
    assert!(!Attrs(DMA_ATTR_NO_WARN).contains(a));
}

#[test]
fn attrs_raw_values() {
    assert_eq!(Attrs(DMA_ATTR_WEAK_ORDERING).as_raw(), 0x2);
    assert_eq!(Attrs(DMA_ATTR_WRITE_COMBINE).as_raw(), 0x4);
    assert_eq!(Attrs(DMA_ATTR_NO_KERNEL_MAPPING).as_raw(), 0x10);
    assert_eq!(Attrs(DMA_ATTR_SKIP_CPU_SYNC).as_raw(), 0x20);
    assert_eq!(Attrs(DMA_ATTR_FORCE_CONTIGUOUS).as_raw(), 0x40);
    assert_eq!(Attrs(DMA_ATTR_ALLOC_SINGLE_PAGES).as_raw(), 0x80);
    assert_eq!(Attrs(DMA_ATTR_NO_WARN).as_raw(), 0x100);
    assert_eq!(Attrs(DMA_ATTR_PRIVILEGED).as_raw(), 0x200);
    assert_eq!((!Attrs(0)).as_raw(), 0xffff_ffff);
}

#[test]
fn alloc_size_counts_bytes() {
    assert_eq!(CoherentAllocation::<u64>::alloc_size(4), Ok(32));
    assert_eq!(CoherentAllocation::<u32>::alloc_size(0), Ok(0));
    assert_eq!(CoherentAllocation::<u16>::alloc_size(usize::MAX / 2 + 1), Err(Error::EOVERFLOW));
}

#[test]
fn null_allocation_is_out_of_memory() {
    let r = CoherentAllocation::<u64>::from_allocated(4, 0, 0x1000, Attrs(0));
    assert!(matches!(r, Err(Error::ENOMEM)));
}

#[test]
fn allocation_records_its_addresses() {
    let mut c = CoherentAllocation::<u32>::from_allocated(8, 0x4000, 0x9000, Attrs(DMA_ATTR_NO_WARN))
        .expect("allocated");
    assert_eq!(c.start_ptr(), 0x4000);
    assert_eq!(c.start_ptr_mut(), 0x4000);
    assert_eq!(c.dma_handle(), 0x9000);
    assert!(c.dma_attrs() == Attrs(DMA_ATTR_NO_WARN));
    assert_eq!(c.size(), 32);
}

#[test]
fn range_checks() {
    let c = CoherentAllocation::<u8>::from_allocated(4, 0x4000, 0x9000, Attrs(0)).expect("allocated");
    assert_eq!(c.range_start(0, 3), Ok(0x4000));
    assert_eq!(c.range_start(1, 2), Ok(0x4001));
    assert_eq!(c.range_start(0, 4), Ok(0x4000));
    assert_eq!(c.range_start(2, 2), Ok(0x4002));
    assert_eq!(c.range_start(4, 0), Ok(0x4004));
    assert_eq!(c.range_start(0, 5), Err(Error::EINVAL));
    assert_eq!(c.range_start(3, 2), Err(Error::EINVAL));
    assert_eq!(c.range_start(usize::MAX, 1), Err(Error::EOVERFLOW));
    assert_eq!(c.item_from_index(4), Err(Error::EINVAL));
    for i in 0..4 {
        assert_eq!(c.item_from_index(i), Ok(0x4000 + i));
    }
}

#[test]
fn item_addresses_scale_with_size() {
    let c = CoherentAllocation::<u64>::from_allocated(8, 0x10_000, 0x9000, Attrs(0)).expect("allocated");
    assert_eq!(c.item_from_index(3), Ok(0x10_000 + 24));
    assert_eq!(c.range_start(2, 6), Ok(0x10_000 + 16));
    assert_eq!(c.range_start(2, 7), Err(Error::EINVAL));
    assert_eq!(c.item_from_index(8), Err(Error::EINVAL));
}
