//! Direct memory access (DMA): mapping attributes and the bookkeeping of coherent regions.
//!
//! [`Attrs`] is a set of mapping attributes that combine with `|`, `&` and `!`.
//! [`CoherentAllocation`] records where a region of consistent memory lies, for the CPU and
//! for the device, and holds the bounds checks that guard every access to it.

use vstd::prelude::*;
use vstd::std_specs::ops::{BitAndSpec, BitAndSpecImpl, BitOrSpec, BitOrSpecImpl, NotSpec, NotSpecImpl};
use core::marker::PhantomData;
use crate::error::Error;

pub mod attrs;

verus! {

/// Possible attributes associated with a DMA mapping.
///
/// They can be combined with the operators `|`, `&`, and `!`. Raw values are in the
/// [`attrs`] module.
#[derive(Clone, Copy, PartialEq, Eq, Structural)]
pub struct Attrs(pub u32);

impl Attrs {
    /// The bits of this attribute set.
    pub open spec fn bits(self) -> u32 {
        self.0
    }

    /// Every attribute of `flags` is set in `self`.
    pub open spec fn includes(self, flags: Attrs) -> bool {
        self.0 & flags.0 == flags.0
    }

    /// Get the raw representation of this attribute, as the C interface takes it.
    pub fn as_raw(self) -> (r: u64)
        ensures
            r == self.bits() as u64,
    {
        self.0 as u64
    }

    /// Check whether `flags` is contained in `self`.
    pub fn contains(self, flags: Attrs) -> (r: bool)
        ensures
            r == self.includes(flags),
            r == (self.0 & flags.0 == flags.0),
    {
        (self & flags) == flags
    }
}

/// Containment orders attribute sets: every set contains itself and the empty set, containment
/// is transitive and antisymmetric, a union contains both of its parts and is contained in
/// every set that contains both, a set contains what it shares with another, and a set contains
/// another exactly when adding the other changes nothing.
pub proof fn lemma_contains_laws(a: Attrs, b: Attrs, c: Attrs)
    ensures
        a.includes(a),
        a.includes(Attrs(0)),
        a.includes(b) && b.includes(c) ==> a.includes(c),
        a.includes(b) && b.includes(a) ==> a == b,
        Attrs(a.0 | b.0).includes(a),
        Attrs(a.0 | b.0).includes(b),
        c.includes(a) && c.includes(b) ==> c.includes(Attrs(a.0 | b.0)),
        a.includes(Attrs(a.0 & b.0)),
        a.includes(b) <==> Attrs(a.0 | b.0) == a,
        Attrs(!(!a.0)) == a,
{
    let (x, y, z) = (a.0, b.0, c.0);
    assert(x & x == x) by (bit_vector);
    assert(x & 0u32 == 0u32) by (bit_vector);
    assert(x & y == y && y & z == z ==> x & z == z) by (bit_vector);
    assert(x & y == y && y & x == x ==> x == y) by (bit_vector);
    assert((x | y) & x == x) by (bit_vector);
    assert((x | y) & y == y) by (bit_vector);
    assert(z & x == x && z & y == y ==> z & (x | y) == (x | y)) by (bit_vector);
    assert(x & (x & y) == (x & y)) by (bit_vector);
    assert(x & y == y <==> (x | y) == x) by (bit_vector);
    assert(!(!x) == x) by (bit_vector);
}

/// Whether attribute bit `i` is set in the raw bits `x`.
pub open spec fn has_bit(x: u32, i: u32) -> bool {
    (x >> i) & 1 == 1
}

/// What the operators do, attribute by attribute: a union has exactly the attributes of either
/// part, an intersection exactly those of both, a complement exactly those the set lacks.
/// Hence a union contains both of its parts and adding a set to itself changes nothing, both
/// parts contain their intersection, and complementing twice gives the set back.
pub proof fn lemma_operator_laws(a: Attrs, b: Attrs, i: u32)
    requires
        i < 32,
    ensures
        has_bit(BitOrSpec::bitor_spec(a, b).0, i) <==> has_bit(a.0, i) || has_bit(b.0, i),
        has_bit(BitAndSpec::bitand_spec(a, b).0, i) <==> has_bit(a.0, i) && has_bit(b.0, i),
        has_bit(NotSpec::not_spec(a).0, i) <==> !has_bit(a.0, i),
        BitOrSpec::bitor_spec(a, b).includes(a),
        BitOrSpec::bitor_spec(a, b).includes(b),
        BitOrSpec::bitor_spec(a, a) == a,
        a.includes(BitAndSpec::bitand_spec(a, b)),
        b.includes(BitAndSpec::bitand_spec(a, b)),
        NotSpec::not_spec(NotSpec::not_spec(a)) == a,
        a.includes(b) && has_bit(b.0, i) ==> has_bit(a.0, i),
{
    let (x, y) = (a.0, b.0);
    assert(((x | y) >> i) & 1 == 1 <==> (x >> i) & 1 == 1 || (y >> i) & 1 == 1) by (bit_vector)
        requires
            i < 32,
    ;
    assert(((x & y) >> i) & 1 == 1 <==> (x >> i) & 1 == 1 && (y >> i) & 1 == 1) by (bit_vector)
        requires
            i < 32,
    ;
    assert(((!x) >> i) & 1 == 1 <==> !((x >> i) & 1 == 1)) by (bit_vector)
        requires
            i < 32,
    ;
    assert((x | y) & x == x) by (bit_vector);
    assert((x | y) & y == y) by (bit_vector);
    assert(x | x == x) by (bit_vector);
    assert(x & (x & y) == (x & y)) by (bit_vector);
    assert(y & (x & y) == (x & y)) by (bit_vector);
    assert(!(!x) == x) by (bit_vector);
    assert(x & y == y && (y >> i) & 1 == 1 ==> (x >> i) & 1 == 1) by (bit_vector)
        requires
            i < 32,
    ;
}

impl core::ops::BitOr for Attrs {
    type Output = Self;

    fn bitor(self, rhs: Self) -> (r: Self)
        ensures
            r.0 == self.0 | rhs.0,
    {
        Attrs(self.0 | rhs.0)
    }
}

impl BitOrSpecImpl for Attrs {
    open spec fn obeys_bitor_spec() -> bool {
        true
    }

    open spec fn bitor_req(self, rhs: Self) -> bool {
        true
    }

    open spec fn bitor_spec(self, rhs: Self) -> Self {
        Attrs(self.0 | rhs.0)
    }
}

impl core::ops::BitAnd for Attrs {
    type Output = Self;

    fn bitand(self, rhs: Self) -> (r: Self)
        ensures
            r.0 == self.0 & rhs.0,
    {
        Attrs(self.0 & rhs.0)
    }
}

impl BitAndSpecImpl for Attrs {
    open spec fn obeys_bitand_spec() -> bool {
        true
    }

    open spec fn bitand_req(self, rhs: Self) -> bool {
        true
    }

    open spec fn bitand_spec(self, rhs: Self) -> Self {
        Attrs(self.0 & rhs.0)
    }
}

impl core::ops::Not for Attrs {
    type Output = Self;

    fn not(self) -> (r: Self)
        ensures
            r.0 == !self.0,
    {
        Attrs(!self.0)
    }
}

impl NotSpecImpl for Attrs {
    open spec fn obeys_not_spec() -> bool {
        true
    }

    open spec fn not_req(self) -> bool {
        true
    }

    open spec fn not_spec(self) -> Self {
        Attrs(!self.0)
    }
}

/// A bus address that the device uses to reach a DMA region.
pub type DmaAddr = u64;

/// The bookkeeping of a region of consistent DMA memory that holds `count` values of type `T`.
///
/// It records the region's base address in the CPU's virtual address space, the DMA handle
/// that the device uses as the base of the region, and the attributes it was mapped with.
/// Every access to the region goes through the bounds checks below, in units of `T`.
pub struct CoherentAllocation<T> {
    dma_handle: DmaAddr,
    count: usize,
    cpu_addr: usize,
    dma_attrs: Attrs,
    _elem: PhantomData<T>,
}

impl<T> CoherentAllocation<T> {
    /// Number of values of type `T` that the region holds.
    pub closed spec fn len(&self) -> nat {
        self.count as nat
    }

    /// Base address of the region in the CPU's virtual address space.
    pub closed spec fn cpu_addr(&self) -> usize {
        self.cpu_addr
    }

    /// The DMA handle of the region.
    pub closed spec fn handle(&self) -> DmaAddr {
        self.dma_handle
    }

    /// The attributes that the region was mapped with.
    pub closed spec fn attrs(&self) -> Attrs {
        self.dma_attrs
    }

    /// The region is non-null, its values are not zero-sized, and it lies within the address
    /// space.
    #[verifier::type_invariant]
    closed spec fn inv(&self) -> bool {
        &&& self.cpu_addr != 0
        &&& vstd::layout::size_of::<T>() > 0
        &&& self.cpu_addr + self.count * vstd::layout::size_of::<T>() <= usize::MAX
    }

    /// The CPU address of the value at `offset`.
    pub open spec fn item_addr(&self, offset: int) -> int {
        self.cpu_addr() + offset * vstd::layout::size_of::<T>()
    }

    /// Whether the `count` values from `offset` on lie within the region.
    pub open spec fn range_ok(&self, offset: int, count: int) -> bool {
        offset + count <= self.len()
    }

    /// Whether the value at `offset` lies within the region.
    pub open spec fn index_ok(&self, offset: int) -> bool {
        offset < self.len()
    }

    /// The size in bytes of a region of `count` values of type `T`.
    ///
    /// Fails with [`Error::EOVERFLOW`] when that size does not fit a `usize`.
    pub fn alloc_size(count: usize) -> (r: Result<usize, Error>)
        requires
            vstd::layout::size_of::<T>() > 0,
        ensures
            count * vstd::layout::size_of::<T>() <= usize::MAX ==> r == Ok::<usize, Error>(
                (count * vstd::layout::size_of::<T>()) as usize,
            ),
            count * vstd::layout::size_of::<T>() > usize::MAX ==> r == Err::<usize, Error>(Error::EOVERFLOW),
    {
        match count.checked_mul(core::mem::size_of::<T>()) {
            Some(size) => Ok(size),
            None => Err(Error::EOVERFLOW),
        }
    }

    /// Records a region of `count` values that the allocator placed at `cpu_addr` for the CPU
    /// and at `dma_handle` for the device.
    ///
    /// A null `cpu_addr` means that the allocation failed: the result is then
    /// [`Error::ENOMEM`]. An allocated region lies within the address space.
    pub fn from_allocated(count: usize, cpu_addr: usize, dma_handle: DmaAddr, dma_attrs: Attrs) -> (r:
        Result<Self, Error>)
        requires
            vstd::layout::size_of::<T>() > 0,
            cpu_addr + count * vstd::layout::size_of::<T>() <= usize::MAX,
        ensures
            cpu_addr == 0 ==> r is Err && r->Err_0 == Error::ENOMEM,
            cpu_addr != 0 ==> r is Ok && r->Ok_0.len() == count && r->Ok_0.cpu_addr() == cpu_addr
                && r->Ok_0.handle() == dma_handle && r->Ok_0.attrs() == dma_attrs,
    {
        if cpu_addr == 0 {
            return Err(Error::ENOMEM);
        }
        Ok(CoherentAllocation { dma_handle, count, cpu_addr, dma_attrs, _elem: PhantomData })
    }

    /// Returns the base address to the allocated region in the CPU's virtual address space.
    pub fn start_ptr(&self) -> (r: usize)
        ensures
            r == self.cpu_addr(),
    {
        self.cpu_addr
    }

    /// Returns the base address to the allocated region in the CPU's virtual address space,
    /// for writing.
    pub fn start_ptr_mut(&mut self) -> (r: usize)
        ensures
            r == old(self).cpu_addr(),
            *final(self) == *old(self),
    {
        self.cpu_addr
    }

    /// Returns a DMA handle which may given to the device as the DMA address base of
    /// the region.
    pub fn dma_handle(&self) -> (r: DmaAddr)
        ensures
            r == self.handle(),
    {
        self.dma_handle
    }

    /// Returns the attributes that the region was mapped with.
    pub fn dma_attrs(&self) -> (r: Attrs)
        ensures
            r == self.attrs(),
    {
        self.dma_attrs
    }

    /// Returns the size of the region in bytes.
    pub fn size(&self) -> (r: usize)
        ensures
            r == self.len() * vstd::layout::size_of::<T>(),
    {
        proof {
            use_type_invariant(self);
        }
        self.count * core::mem::size_of::<T>()
    }

    /// The bounds check for an access to the `count` values from `offset` on, as a slice
    /// or as a write; returns the CPU address of the first of them.
    ///
    /// Fails with [`Error::EOVERFLOW`] when `offset + count` overflows, and with
    /// [`Error::EINVAL`] when the range reaches past the end of the region.
    pub fn range_start(&self, offset: usize, count: usize) -> (r: Result<usize, Error>)
        ensures
            offset + count > usize::MAX ==> r == Err::<usize, Error>(Error::EOVERFLOW),
            offset + count <= usize::MAX && offset + count > self.len() ==> r == Err::<
                usize,
                Error,
            >(Error::EINVAL),
            offset + count <= self.len() ==> r == Ok::<usize, Error>(
                (self.cpu_addr() + offset * vstd::layout::size_of::<T>()) as usize,
            ),
    {
        let end = match offset.checked_add(count) {
            Some(end) => end,
            None => return Err(Error::EOVERFLOW),
        };
        if end > self.count {
            return Err(Error::EINVAL);
        }
        Ok(self.addr_of(offset))
    }

    /// The bounds-checked CPU address of the value at `offset`.
    ///
    /// Fails with [`Error::EINVAL`] when `offset` lies past the region.
    pub fn item_from_index(&self, offset: usize) -> (r: Result<usize, Error>)
        ensures
            offset < self.len() ==> r == Ok::<usize, Error>(
                (self.cpu_addr() + offset * vstd::layout::size_of::<T>()) as usize,
            ),
            offset >= self.len() ==> r == Err::<usize, Error>(Error::EINVAL),
    {
        if offset >= self.count {
            return Err(Error::EINVAL);
        }
        Ok(self.addr_of(offset))
    }

    /// The CPU address of the value at `offset`, which lies within the region or at its end.
    fn addr_of(&self, offset: usize) -> (r: usize)
        requires
            offset <= self.len(),
        ensures
            r == self.item_addr(offset as int),
    {
        proof {
            use_type_invariant(self);
            vstd::arithmetic::mul::lemma_mul_inequality(
                offset as int,
                self.count as int,
                vstd::layout::size_of::<T>() as int,
            );
        }
        self.cpu_addr + offset * core::mem::size_of::<T>()
    }

    /// Every value of a range that passes [`CoherentAllocation::range_start`] passes
    /// [`CoherentAllocation::item_from_index`], and the values of the range lie one after another
    /// from the address that `range_start` returns.
    pub proof fn lemma_range_covers_indices(&self, offset: int, count: int, i: int)
        requires
            0 <= offset,
            0 <= count,
            offset + count <= self.len(),
            offset <= i < offset + count,
        ensures
            i < self.len(),
            self.item_addr(i) == self.item_addr(offset) + (i - offset) * vstd::layout::size_of::<T>(),
    {
        vstd::arithmetic::mul::lemma_mul_is_distributive_sub_other_way(
            vstd::layout::size_of::<T>() as int,
            i,
            offset,
        );
    }
}

} // verus!
