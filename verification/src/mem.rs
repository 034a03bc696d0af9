//! The memory bridge between drivers and DMA-capable devices: page
//! allocation for DMA and the translation between physical and virtual
//! addresses.
//!
//! All memory is mapped linearly: the virtual address of a physical address
//! is that address plus one fixed offset. Devices see the same, coherent
//! memory as the kernel, so sharing a buffer with a device is translation
//! only, and taking it back is nothing at all.

use vstd::prelude::*;
use axdriver_virtio::BufferDirection;

verus! {

/// `axdriver_virtio::BufferDirection`, the direction in which a buffer
/// passes between driver and device. The bridge carries it and never looks
/// inside.
#[verifier::external_type_specification]
#[verifier::external_body]
pub struct ExBufferDirection(BufferDirection);

/// Size in bytes of one page.
pub const PAGE_SIZE: usize = 0x1000;

/// The virtual address that stands for no buffer: that of a dangling byte
/// pointer. No page starts there.
pub const DANGLING: usize = 1;

/// The virtual address of `paddr` under the linear mapping with `offset`.
pub open spec fn spec_phys_to_virt(offset: usize, paddr: usize) -> int {
    paddr + offset
}

/// The physical address of `vaddr` under the linear mapping with `offset`.
pub open spec fn spec_virt_to_phys(offset: usize, vaddr: usize) -> int {
    vaddr - offset
}

/// The pair of physical and virtual address that an allocation comes to,
/// when the page allocator answered `allocated`. Pages whose physical
/// address is above zero are handed out with it. Failure is the pair of
/// physical address zero and the dangling address; pages that the mapping
/// cannot give a physical address above zero count as failure too.
pub open spec fn spec_dma_allocation(offset: usize, allocated: Option<usize>) -> (usize, usize) {
    match allocated {
        Some(vaddr) if vaddr > offset => ((vaddr - offset) as usize, vaddr),
        _ => (0, DANGLING),
    }
}

/// Pages allocated for DMA, or the record of a failed allocation.
///
/// A buffer comes from [`VirtIoHalImpl::dma_alloc`] alone and ends in
/// [`VirtIoHalImpl::dma_dealloc`]: it cannot be copied, so its pages are
/// given back once at most.
pub struct DmaBuffer {
    paddr: usize,
    vaddr: usize,
    pages: usize,
    direction: BufferDirection,
}

impl DmaBuffer {
    /// The physical address of the first page; zero for a failed allocation.
    pub closed spec fn spec_paddr(&self) -> usize {
        self.paddr
    }

    /// The virtual address of the first page; the dangling address for a
    /// failed allocation.
    pub closed spec fn spec_vaddr(&self) -> usize {
        self.vaddr
    }

    /// The number of pages; zero for a failed allocation.
    pub closed spec fn spec_pages(&self) -> usize {
        self.pages
    }

    /// The direction the buffer was asked for.
    pub closed spec fn spec_direction(&self) -> BufferDirection {
        self.direction
    }

    /// Whether this is the record of a failed allocation.
    pub open spec fn spec_is_failed(&self) -> bool {
        &&& self.spec_paddr() == 0
        &&& self.spec_vaddr() == DANGLING
        &&& self.spec_pages() == 0
    }

    /// Whether the buffer names pages of the allocator: they start on a
    /// page boundary, where the dangling address is not.
    pub open spec fn holds_pages(&self) -> bool {
        self.spec_vaddr() % PAGE_SIZE == 0
    }

    #[verifier::type_invariant]
    spec fn well_formed(&self) -> bool {
        self.spec_is_failed() || self.holds_pages()
    }

    /// The physical address of the first page; zero for a failed allocation.
    pub fn paddr(&self) -> (paddr: usize)
        ensures
            paddr == self.spec_paddr(),
    {
        self.paddr
    }

    /// The virtual address of the first page; the dangling address for a
    /// failed allocation.
    pub fn vaddr(&self) -> (vaddr: usize)
        ensures
            vaddr == self.spec_vaddr(),
    {
        self.vaddr
    }

    /// The number of pages; zero for a failed allocation.
    pub fn pages(&self) -> (pages: usize)
        ensures
            pages == self.spec_pages(),
    {
        self.pages
    }

    /// The direction the buffer was asked for.
    pub fn direction(&self) -> (direction: BufferDirection)
        ensures
            direction == self.spec_direction(),
    {
        self.direction
    }

    /// Whether this is the record of a failed allocation. Callers test this
    /// before they use the addresses.
    pub fn is_failed(&self) -> (failed: bool)
        ensures
            failed == self.spec_is_failed(),
            failed == !self.holds_pages(),
    {
        proof {
            use_type_invariant(self);
        }
        self.vaddr == DANGLING
    }
}

/// Calls `alloc_pages` of axalloc's global allocator for `pages` contiguous
/// pages aligned to the page size and accounted as DMA memory, and makes
/// the buffer of the pages handed out; the error of a failed call is
/// dropped. The contract claims of the pages that they start on a page
/// boundary, as the allocator documents for the alignment asked for.
/// Whether pages are handed out is the allocator's to say. The buffer has
/// no physical address yet.
#[verifier::external_body]
fn alloc_pages(pages: usize, direction: BufferDirection) -> (allocated: Option<DmaBuffer>)
    ensures
        allocated matches Some(buffer) ==> {
            &&& buffer.holds_pages()
            &&& buffer.spec_paddr() == 0
            &&& buffer.spec_pages() == pages
            &&& buffer.spec_direction() == direction
        },
{
    match axalloc::global_allocator().alloc_pages(pages, PAGE_SIZE, axalloc::UsageKind::Dma) {
        Ok(vaddr) => Some(DmaBuffer { paddr: 0, vaddr, pages, direction }),
        Err(_) => None,
    }
}

/// Calls `dealloc_pages` of axalloc's global allocator for the pages of
/// `buffer`, accounted as DMA memory. The allocator asks that the pages
/// came from its `alloc_pages` and have not gone back since: a buffer that
/// holds pages is made by the call above and nowhere else, and this call
/// consumes it. No claim is made of the outcome.
#[verifier::external_body]
fn dealloc_pages(buffer: DmaBuffer)
    requires
        buffer.holds_pages(),
{
    axalloc::global_allocator().dealloc_pages(buffer.vaddr, buffer.pages, axalloc::UsageKind::Dma)
}

/// The memory bridge handed to the VirtIO drivers.
pub struct VirtIoHalImpl {
    phys_virt_offset: usize,
}

impl VirtIoHalImpl {
    /// The offset of the linear mapping.
    pub closed spec fn spec_offset(&self) -> usize {
        self.phys_virt_offset
    }

    /// The bridge over the linear mapping with `phys_virt_offset`.
    pub fn new(phys_virt_offset: usize) -> (hal: VirtIoHalImpl)
        ensures
            hal.spec_offset() == phys_virt_offset,
    {
        VirtIoHalImpl { phys_virt_offset }
    }

    /// The offset of the linear mapping.
    pub fn offset(&self) -> (offset: usize)
        ensures
            offset == self.spec_offset(),
    {
        self.phys_virt_offset
    }

    /// The virtual address of `paddr`.
    pub fn phys_to_virt(&self, paddr: usize) -> (vaddr: usize)
        requires
            spec_phys_to_virt(self.spec_offset(), paddr) <= usize::MAX,
        ensures
            vaddr == spec_phys_to_virt(self.spec_offset(), paddr),
    {
        paddr + self.phys_virt_offset
    }

    /// The physical address of `vaddr`.
    pub fn virt_to_phys(&self, vaddr: usize) -> (paddr: usize)
        requires
            spec_virt_to_phys(self.spec_offset(), vaddr) >= 0,
        ensures
            paddr == spec_virt_to_phys(self.spec_offset(), vaddr),
    {
        vaddr - self.phys_virt_offset
    }

    /// The virtual address of `paddr`, unless it lies beyond the address space.
    pub fn checked_phys_to_virt(&self, paddr: usize) -> (vaddr: Option<usize>)
        ensures
            spec_phys_to_virt(self.spec_offset(), paddr) <= usize::MAX ==> vaddr == Some(
                spec_phys_to_virt(self.spec_offset(), paddr) as usize,
            ),
            spec_phys_to_virt(self.spec_offset(), paddr) > usize::MAX ==> vaddr is None,
    {
        if paddr <= usize::MAX - self.phys_virt_offset {
            Some(paddr + self.phys_virt_offset)
        } else {
            None
        }
    }

    /// The physical address of `vaddr`, unless it lies below the mapping.
    pub fn checked_virt_to_phys(&self, vaddr: usize) -> (paddr: Option<usize>)
        ensures
            spec_virt_to_phys(self.spec_offset(), vaddr) >= 0 ==> paddr == Some(
                spec_virt_to_phys(self.spec_offset(), vaddr) as usize,
            ),
            spec_virt_to_phys(self.spec_offset(), vaddr) < 0 ==> paddr is None,
    {
        if vaddr >= self.phys_virt_offset {
            Some(vaddr - self.phys_virt_offset)
        } else {
            None
        }
    }

    /// The pair of physical and virtual address that an allocation comes
    /// to, when the page allocator answered `allocated`.
    pub fn dma_allocation(&self, allocated: Option<usize>) -> (pair: (usize, usize))
        ensures
            pair == spec_dma_allocation(self.spec_offset(), allocated),
    {
        match allocated {
            Some(vaddr) => {
                if vaddr > self.phys_virt_offset {
                    (vaddr - self.phys_virt_offset, vaddr)
                } else {
                    (0, DANGLING)
                }
            },
            None => (0, DANGLING),
        }
    }

    /// Allocates `pages` pages for DMA.
    ///
    /// The pages come from the global page allocator, aligned to the page
    /// size. On success the buffer holds them, with the physical address of
    /// their virtual address, which is not zero. When the allocator has
    /// none, or gives pages that have no physical address above zero (these
    /// go back to it at once), the buffer is the record of a failed
    /// allocation: physical address zero and the dangling address. The
    /// direction is kept and has no other effect.
    pub fn dma_alloc(&self, pages: usize, direction: BufferDirection) -> (buffer: DmaBuffer)
        ensures
            buffer.spec_direction() == direction,
            buffer.spec_is_failed() || buffer.holds_pages(),
            buffer.spec_is_failed() <==> buffer.spec_paddr() == 0,
            buffer.holds_pages() ==> {
                &&& buffer.spec_pages() == pages
                &&& buffer.spec_vaddr() > self.spec_offset()
                &&& buffer.spec_paddr() == spec_virt_to_phys(
                    self.spec_offset(),
                    buffer.spec_vaddr(),
                )
                &&& (buffer.spec_paddr(), buffer.spec_vaddr()) == spec_dma_allocation(
                    self.spec_offset(),
                    Some(buffer.spec_vaddr()),
                )
            },
    {
        match alloc_pages(pages, direction) {
            Some(mut buffer) => {
                let (paddr, vaddr) = self.dma_allocation(Some(buffer.vaddr));
                if paddr == 0 {
                    dealloc_pages(buffer);
                    DmaBuffer { paddr, vaddr, pages: 0, direction }
                } else {
                    buffer.paddr = paddr;
                    buffer
                }
            },
            None => {
                let (paddr, vaddr) = self.dma_allocation(None);
                DmaBuffer { paddr, vaddr, pages: 0, direction }
            },
        }
    }

    /// Gives the pages of `buffer` back to the global page allocator and
    /// reports success, always. The pages are found by the buffer's virtual
    /// address; `paddr` is accepted and not used. For the record of a failed
    /// allocation there is nothing to give back.
    pub fn dma_dealloc(&self, paddr: usize, buffer: DmaBuffer) -> (status: i32)
        ensures
            status == 0,
    {
        if !buffer.is_failed() {
            dealloc_pages(buffer);
        }
        0
    }

    /// Allocates `pages` pages for DMA, for a driver that knows its buffers
    /// by address: the buffer stays in `ledger`, and the result is the pair
    /// of its physical and virtual address. On failure the pair is physical
    /// address zero and the dangling address, and the ledger stays as it
    /// is; callers test for that before they use the addresses.
    pub fn dma_alloc_raw(&self, ledger: &mut DmaLedger, pages: usize, direction: BufferDirection) -> (pair:
        (usize, usize))
        ensures
            pair.0 == 0 <==> pair == (0usize, DANGLING),
            pair.0 == 0 ==> final(ledger)@ == old(ledger)@,
            pair.0 != 0 ==> {
                &&& pair == spec_dma_allocation(self.spec_offset(), Some(pair.1))
                &&& pair.1 % PAGE_SIZE == 0
                &&& final(ledger)@ == old(ledger)@.push((pair.1, pages))
            },
    {
        let buffer = self.dma_alloc(pages, direction);
        let pair = (buffer.paddr(), buffer.vaddr());
        if !buffer.is_failed() {
            ledger.record(buffer);
        }
        pair
    }

    /// Gives the buffer of `pages` pages at the virtual address `vaddr`
    /// back to the global page allocator and reports success, always.
    /// `paddr` is accepted and not used. The buffer is the one recorded
    /// last in `ledger` under that address and page count, and leaves the
    /// ledger; where the ledger holds none, nothing is given back.
    pub fn dma_dealloc_raw(&self, ledger: &mut DmaLedger, paddr: usize, vaddr: usize, pages: usize) -> (status:
        i32)
        ensures
            status == 0,
            spec_last_index(old(ledger)@, (vaddr, pages)) < 0 ==> final(ledger)@ == old(ledger)@,
            spec_last_index(old(ledger)@, (vaddr, pages)) >= 0 ==> final(ledger)@ == old(
                ledger,
            )@.remove(spec_last_index(old(ledger)@, (vaddr, pages))),
    {
        match ledger.take(vaddr, pages) {
            Some(buffer) => self.dma_dealloc(paddr, buffer),
            None => 0,
        }
    }

    /// The virtual address of the device registers at `paddr`. Nothing is
    /// allocated, and `size` has no effect.
    pub fn mmio_phys_to_virt(&self, paddr: usize, size: usize) -> (vaddr: usize)
        requires
            spec_phys_to_virt(self.spec_offset(), paddr) <= usize::MAX,
        ensures
            vaddr == spec_phys_to_virt(self.spec_offset(), paddr),
    {
        self.phys_to_virt(paddr)
    }

    /// The physical address under which a device finds the buffer that
    /// starts at the virtual address `buffer`. Nothing is copied or
    /// synchronized, and `direction` has no effect.
    pub fn share(&self, buffer: usize, direction: BufferDirection) -> (paddr: usize)
        requires
            spec_virt_to_phys(self.spec_offset(), buffer) >= 0,
        ensures
            paddr == spec_virt_to_phys(self.spec_offset(), buffer),
    {
        self.virt_to_phys(buffer)
    }

    /// Does nothing: a device keeps its access to a buffer once shared.
    pub fn unshare(&self, paddr: usize, buffer: usize, direction: BufferDirection) {
    }
}

/// The pair of virtual address and page count by which a buffer is found.
pub open spec fn spec_key(buffer: DmaBuffer) -> (usize, usize) {
    (buffer.spec_vaddr(), buffer.spec_pages())
}

/// The index of the last of `keys` that equals `key`, or -1 if none does.
pub open spec fn spec_last_index(keys: Seq<(usize, usize)>, key: (usize, usize)) -> int
    decreases keys.len(),
{
    if keys.len() == 0 {
        -1
    } else if keys.last() == key {
        keys.len() - 1
    } else {
        spec_last_index(keys.drop_last(), key)
    }
}

/// The buffers that drivers hold at present, for drivers that know their
/// buffers by address and page count alone.
pub struct DmaLedger {
    buffers: Vec<DmaBuffer>,
}

impl DmaLedger {
    /// The keys of the buffers held, oldest first.
    pub closed spec fn view(&self) -> Seq<(usize, usize)> {
        self.buffers@.map_values(|b: DmaBuffer| spec_key(b))
    }

    /// A ledger without buffers.
    pub fn new() -> (ledger: DmaLedger)
        ensures
            ledger@.len() == 0,
    {
        let ledger = DmaLedger { buffers: Vec::new() };
        assert(ledger@ =~= Seq::empty());
        ledger
    }

    /// The number of buffers held.
    pub fn len(&self) -> (count: usize)
        ensures
            count == self@.len(),
    {
        self.buffers.len()
    }

    /// Takes `buffer` into the ledger, behind those it holds.
    pub fn record(&mut self, buffer: DmaBuffer)
        ensures
            final(self)@ == old(self)@.push(spec_key(buffer)),
    {
        self.buffers.push(buffer);
        assert(self@ =~= old(self)@.push(spec_key(buffer)));
    }

    /// Hands out the buffer recorded last among those of `pages` pages at
    /// `vaddr`, and holds it no longer. Without such a buffer the ledger
    /// stays as it is.
    pub fn take(&mut self, vaddr: usize, pages: usize) -> (found: Option<DmaBuffer>)
        ensures
            spec_last_index(old(self)@, (vaddr, pages)) < 0 ==> found is None && final(self)@ == old(
                self,
            )@,
            spec_last_index(old(self)@, (vaddr, pages)) >= 0 ==> found is Some && spec_key(
                found->Some_0,
            ) == (vaddr, pages) && final(self)@ == old(self)@.remove(
                spec_last_index(old(self)@, (vaddr, pages)),
            ),
    {
        let ghost keys = self@;
        let mut i: usize = self.buffers.len();
        assert(keys.take(i as int) =~= keys);
        while i > 0
            invariant
                i <= self.buffers@.len(),
                self@ == keys,
                keys == old(self)@,
                spec_last_index(keys, (vaddr, pages)) == spec_last_index(
                    keys.take(i as int),
                    (vaddr, pages),
                ),
            decreases i,
        {
            proof {
                assert(keys.take(keys.len() as int) =~= keys);
                assert(keys.take(i as int).drop_last() =~= keys.take(i - 1));
            }
            i -= 1;
            if self.buffers[i].vaddr == vaddr && self.buffers[i].pages == pages {
                let buffer = self.buffers.remove(i);
                assert(self@ =~= keys.remove(i as int));
                return Some(buffer);
            }
        }
        assert(keys.take(0) =~= Seq::empty());
        None
    }
}

/// Translation there and back gives the address one started from, in both
/// orders.
pub proof fn lemma_translation_round_trip(offset: usize, paddr: usize, vaddr: usize)
    ensures
        spec_phys_to_virt(offset, paddr) <= usize::MAX ==> spec_virt_to_phys(
            offset,
            spec_phys_to_virt(offset, paddr) as usize,
        ) == paddr,
        spec_virt_to_phys(offset, vaddr) >= 0 ==> spec_phys_to_virt(
            offset,
            spec_virt_to_phys(offset, vaddr) as usize,
        ) == vaddr,
{
}

/// An allocation that failed is told from one that succeeded by its
/// physical address alone: it is zero exactly for the failure pair, and the
/// pair of a success is the allocator's address with its translation.
pub proof fn lemma_dma_allocation(offset: usize, allocated: Option<usize>)
    ensures
        spec_dma_allocation(offset, allocated).0 == 0 <==> spec_dma_allocation(offset, allocated)
            == (0usize, DANGLING),
        spec_dma_allocation(offset, allocated).0 != 0 ==> allocated == Some(
            spec_dma_allocation(offset, allocated).1,
        ) && spec_dma_allocation(offset, allocated).0 == spec_virt_to_phys(
            offset,
            spec_dma_allocation(offset, allocated).1,
        ),
        allocated is None ==> spec_dma_allocation(offset, allocated) == (0usize, DANGLING),
{
}

/// Giving back what was just allocated leaves the ledger as it was before
/// the allocation: the buffer recorded last under a key is the one found
/// under it.
pub proof fn lemma_record_then_take(keys: Seq<(usize, usize)>, key: (usize, usize))
    ensures
        spec_last_index(keys.push(key), key) == keys.len(),
        keys.push(key).remove(spec_last_index(keys.push(key), key)) == keys,
{
    assert(keys.push(key).drop_last() =~= keys);
    assert(keys.push(key).remove(keys.len() as int) =~= keys);
}

/// A key that is found is found at a place that holds it, and no later
/// place holds it; a key that is not found is nowhere.
pub proof fn lemma_last_index(keys: Seq<(usize, usize)>, key: (usize, usize))
    ensures
        -1 <= spec_last_index(keys, key) < keys.len(),
        spec_last_index(keys, key) >= 0 ==> keys[spec_last_index(keys, key)] == key,
        forall|i: int| spec_last_index(keys, key) < i < keys.len() ==> keys[i] != key,
    decreases keys.len(),
{
    if keys.len() > 0 && keys.last() != key {
        let front = keys.drop_last();
        lemma_last_index(front, key);
        assert forall|i: int| spec_last_index(keys, key) < i < keys.len() implies keys[i]
            != key by {
            if i < front.len() {
                assert(front[i] == keys[i]);
            }
        }
    }
}

} // verus!
