use axdriver_virtio::BufferDirection;
use hal_core::mem::{DmaLedger, VirtIoHalImpl, DANGLING, PAGE_SIZE};
use std::sync::{Mutex, MutexGuard, OnceLock};

const GIGABYTE: usize = 1 << 30;
const HEAP_SIZE: usize = 1 << 20;

static HEAP_START: OnceLock<usize> = OnceLock::new();
static ALLOCATOR_IN_USE: Mutex<()> = Mutex::new(());

/// Keeps the tests that count the allocator's pages from running at once.
fn allocator() -> MutexGuard<'static, ()> {
    ALLOCATOR_IN_USE.lock().unwrap_or_else(|poisoned| poisoned.into_inner())
}

/// Gives the global allocator one megabyte to hand out, once, and returns
/// where it starts.
fn heap_start() -> usize {
    *HEAP_START.get_or_init(|| {
        // The page allocator covers the first 256 MB above a gigabyte
        // boundary: reserve enough to find such a boundary inside.
        let reserve: Vec<u8> = Vec::with_capacity(GIGABYTE + 2 * HEAP_SIZE);
        let address = reserve.as_ptr() as usize;
        std::mem::forget(reserve);
        let start = (address + GIGABYTE - 1) / GIGABYTE * GIGABYTE;
        axalloc::global_init(start, HEAP_SIZE);
        start
    })
}

fn in_heap(start: usize, vaddr: usize, pages: usize) -> bool {
    start <= vaddr && vaddr + pages * PAGE_SIZE <= start + HEAP_SIZE
}

#[test]
fn page_size_and_dangling_address() {
    assert_eq!(PAGE_SIZE, 4096);
    assert_eq!(DANGLING, 1);
    assert_eq!(DANGLING, std::ptr::NonNull::<u8>::dangling().as_ptr() as usize);
}

#[test]
fn linear_mapping_adds_and_subtracts_the_offset() {
    let hal = VirtIoHalImpl::new(0xffff_0000_0000_0000);
    assert_eq!(hal.offset(), 0xffff_0000_0000_0000);
    assert_eq!(hal.phys_to_virt(0x8000_1000), 0xffff_0000_8000_1000);
    assert_eq!(hal.virt_to_phys(0xffff_0000_8000_1000), 0x8000_1000);
    assert_eq!(hal.virt_to_phys(0xffff_0000_0000_0000), 0);
    assert_eq!(hal.phys_to_virt(0), 0xffff_0000_0000_0000);
}

#[test]
fn identity_mapping() {
    let hal = VirtIoHalImpl::new(0);
    assert_eq!(hal.phys_to_virt(0x1234), 0x1234);
    assert_eq!(hal.virt_to_phys(0x1234), 0x1234);
    assert_eq!(hal.phys_to_virt(usize::MAX), usize::MAX);
}

#[test]
fn translation_round_trip() {
    let hal = VirtIoHalImpl::new(0x4000_0000);
    for paddr in [0usize, 1, 0x1000, 0x8000_0000, 0xdead_b000] {
        assert_eq!(hal.virt_to_phys(hal.phys_to_virt(paddr)), paddr);
    }
    for vaddr in [0x4000_0000usize, 0x4000_0001, 0x9000_0000, usize::MAX] {
        assert_eq!(hal.phys_to_virt(hal.virt_to_phys(vaddr)), vaddr);
    }
}

#[test]
fn checked_translation_refuses_what_does_not_fit() {
    let hal = VirtIoHalImpl::new(0x1000);
    assert_eq!(hal.checked_phys_to_virt(0x2000), Some(0x3000));
    assert_eq!(hal.checked_phys_to_virt(usize::MAX - 0x1000), Some(usize::MAX));
    assert_eq!(hal.checked_phys_to_virt(usize::MAX - 0xfff), None);
    assert_eq!(hal.checked_phys_to_virt(usize::MAX), None);
    assert_eq!(hal.checked_virt_to_phys(0x3000), Some(0x2000));
    assert_eq!(hal.checked_virt_to_phys(0x1000), Some(0));
    assert_eq!(hal.checked_virt_to_phys(0xfff), None);
    assert_eq!(hal.checked_virt_to_phys(0), None);
}

#[test]
fn mmio_translation_ignores_the_size() {
    let hal = VirtIoHalImpl::new(0xffff_ff80_0000_0000);
    assert_eq!(hal.mmio_phys_to_virt(0x1000_1000, 0x1000), 0xffff_ff80_1000_1000);
    assert_eq!(hal.mmio_phys_to_virt(0x1000_1000, 0), 0xffff_ff80_1000_1000);
    assert_eq!(hal.mmio_phys_to_virt(0x1000_1000, usize::MAX), 0xffff_ff80_1000_1000);
}

#[test]
fn share_translates_and_unshare_does_nothing() {
    let hal = VirtIoHalImpl::new(0x8000_0000);
    assert_eq!(hal.share(0x8000_4010, BufferDirection::DriverToDevice), 0x4010);
    assert_eq!(hal.share(0x8000_4010, BufferDirection::DeviceToDriver), 0x4010);
    assert_eq!(hal.share(0x8000_4010, BufferDirection::Both), 0x4010);
    hal.unshare(0x4010, 0x8000_4010, BufferDirection::Both);
    assert_eq!(hal.share(0x8000_4010, BufferDirection::Both), 0x4010);
}

#[test]
fn allocation_pair_on_success() {
    let hal = VirtIoHalImpl::new(0x4000_0000);
    assert_eq!(hal.dma_allocation(Some(0x4020_3000)), (0x20_3000, 0x4020_3000));
    assert_eq!(hal.dma_allocation(Some(0x4000_1000)), (0x1000, 0x4000_1000));
    let identity = VirtIoHalImpl::new(0);
    assert_eq!(identity.dma_allocation(Some(0x7000)), (0x7000, 0x7000));
}

#[test]
fn allocation_pair_on_failure_is_the_sentinel() {
    let hal = VirtIoHalImpl::new(0x4000_0000);
    assert_eq!(hal.dma_allocation(None), (0, DANGLING));
}

#[test]
fn allocation_without_usable_physical_address_is_failure() {
    let hal = VirtIoHalImpl::new(0x4000_0000);
    // below the mapping
    assert_eq!(hal.dma_allocation(Some(0x3fff_f000)), (0, DANGLING));
    // physical address zero
    assert_eq!(hal.dma_allocation(Some(0x4000_0000)), (0, DANGLING));
    let identity = VirtIoHalImpl::new(0);
    assert_eq!(identity.dma_allocation(Some(0)), (0, DANGLING));
}

#[test]
fn dma_alloc_of_zero_pages_fails() {
    let _guard = allocator();
    let start = heap_start();
    let hal = VirtIoHalImpl::new(start - 0x10_0000);
    let buffer = hal.dma_alloc(0, BufferDirection::Both);
    assert!(buffer.is_failed());
    assert_eq!((buffer.paddr(), buffer.vaddr(), buffer.pages()), (0, DANGLING, 0));
    assert_eq!(hal.dma_dealloc(0, buffer), 0);
}

#[test]
fn dma_alloc_of_more_than_there_is_fails() {
    let _guard = allocator();
    let start = heap_start();
    let hal = VirtIoHalImpl::new(start - 0x10_0000);
    let used = axalloc::global_allocator().used_pages();
    let buffer = hal.dma_alloc(HEAP_SIZE / PAGE_SIZE + 1, BufferDirection::DeviceToDriver);
    assert!(buffer.is_failed());
    assert_eq!(buffer.paddr(), 0);
    assert_eq!(buffer.vaddr(), DANGLING);
    assert_eq!(axalloc::global_allocator().used_pages(), used);
    assert_eq!(hal.dma_dealloc(0, buffer), 0);
    assert_eq!(axalloc::global_allocator().used_pages(), used);
}

#[test]
fn dma_alloc_hands_out_aligned_pages_with_their_physical_address() {
    let _guard = allocator();
    let start = heap_start();
    let offset = start - 0x10_0000;
    let hal = VirtIoHalImpl::new(offset);
    let used = axalloc::global_allocator().used_pages();
    let buffer = hal.dma_alloc(3, BufferDirection::DriverToDevice);
    assert!(!buffer.is_failed());
    assert_eq!(buffer.pages(), 3);
    assert_eq!(buffer.vaddr() % PAGE_SIZE, 0);
    assert!(in_heap(start, buffer.vaddr(), 3));
    assert_eq!(buffer.paddr(), buffer.vaddr() - offset);
    assert_ne!(buffer.paddr(), 0);
    assert_eq!(buffer.direction(), BufferDirection::DriverToDevice);
    assert_eq!(axalloc::global_allocator().used_pages(), used + 3);
    assert_eq!(hal.dma_dealloc(buffer.paddr(), buffer), 0);
    assert_eq!(axalloc::global_allocator().used_pages(), used);
}

#[test]
fn dma_dealloc_ignores_the_physical_address() {
    let _guard = allocator();
    let start = heap_start();
    let hal = VirtIoHalImpl::new(start - 0x10_0000);
    let used = axalloc::global_allocator().used_pages();
    let buffer = hal.dma_alloc(1, BufferDirection::Both);
    assert!(!buffer.is_failed());
    assert_eq!(hal.dma_dealloc(0xdead_beef, buffer), 0);
    assert_eq!(axalloc::global_allocator().used_pages(), used);
}

#[test]
fn freed_pages_can_satisfy_a_later_allocation() {
    let _guard = allocator();
    let start = heap_start();
    let hal = VirtIoHalImpl::new(start - 0x10_0000);
    let first = hal.dma_alloc(4, BufferDirection::Both);
    assert!(!first.is_failed());
    let (first_vaddr, first_pages) = (first.vaddr(), first.pages());
    assert_eq!(hal.dma_dealloc(first.paddr(), first), 0);
    let second = hal.dma_alloc(2, BufferDirection::Both);
    assert!(!second.is_failed());
    assert!(first_vaddr <= second.vaddr());
    assert!(second.vaddr() + 2 * PAGE_SIZE <= first_vaddr + first_pages * PAGE_SIZE);
    assert_eq!(hal.dma_dealloc(second.paddr(), second), 0);
}

#[test]
fn two_live_buffers_do_not_overlap() {
    let _guard = allocator();
    let start = heap_start();
    let hal = VirtIoHalImpl::new(start - 0x10_0000);
    let a = hal.dma_alloc(2, BufferDirection::Both);
    let b = hal.dma_alloc(2, BufferDirection::Both);
    assert!(!a.is_failed() && !b.is_failed());
    assert!(
        a.vaddr() + 2 * PAGE_SIZE <= b.vaddr() || b.vaddr() + 2 * PAGE_SIZE <= a.vaddr()
    );
    assert_eq!(hal.dma_dealloc(a.paddr(), a), 0);
    assert_eq!(hal.dma_dealloc(b.paddr(), b), 0);
}

#[test]
fn pages_without_physical_address_go_back_to_the_allocator() {
    let _guard = allocator();
    let start = heap_start();
    // a mapping that starts above the heap: nothing there has a physical address
    let hal = VirtIoHalImpl::new(start + HEAP_SIZE);
    let used = axalloc::global_allocator().used_pages();
    let buffer = hal.dma_alloc(2, BufferDirection::Both);
    assert!(buffer.is_failed());
    assert_eq!((buffer.paddr(), buffer.vaddr(), buffer.pages()), (0, DANGLING, 0));
    assert_eq!(axalloc::global_allocator().used_pages(), used);
    assert_eq!(hal.dma_dealloc(0, buffer), 0);
}

#[test]
fn dma_alloc_without_memory_returns_the_sentinel() {
    let _guard = allocator();
    // one page more than the global allocator has, which may be none at all
    let hal = VirtIoHalImpl::new(0);
    let available = axalloc::global_allocator().available_pages();
    let buffer = hal.dma_alloc(available + 1, BufferDirection::Both);
    assert!(buffer.is_failed());
    assert_eq!(buffer.paddr(), 0);
    assert_eq!(buffer.vaddr(), DANGLING);
    assert_eq!(hal.dma_dealloc(0, buffer), 0);
}

#[test]
fn raw_allocation_records_the_buffer() {
    let _guard = allocator();
    let start = heap_start();
    let offset = start - 0x10_0000;
    let hal = VirtIoHalImpl::new(offset);
    let mut ledger = DmaLedger::new();
    assert_eq!(ledger.len(), 0);
    let used = axalloc::global_allocator().used_pages();
    let (paddr, vaddr) = hal.dma_alloc_raw(&mut ledger, 2, BufferDirection::Both);
    assert_ne!(paddr, 0);
    assert_eq!(vaddr % PAGE_SIZE, 0);
    assert!(in_heap(start, vaddr, 2));
    assert_eq!(paddr, vaddr - offset);
    assert_eq!(ledger.len(), 1);
    assert_eq!(axalloc::global_allocator().used_pages(), used + 2);
    assert_eq!(hal.dma_dealloc_raw(&mut ledger, paddr, vaddr, 2), 0);
    assert_eq!(ledger.len(), 0);
    assert_eq!(axalloc::global_allocator().used_pages(), used);
}

#[test]
fn raw_allocation_failure_is_the_sentinel_pair() {
    let _guard = allocator();
    let hal = VirtIoHalImpl::new(0);
    let mut ledger = DmaLedger::new();
    let available = axalloc::global_allocator().available_pages();
    let pair = hal.dma_alloc_raw(&mut ledger, available + 1, BufferDirection::Both);
    assert_eq!(pair, (0, DANGLING));
    assert_eq!(ledger.len(), 0);
    let pair = hal.dma_alloc_raw(&mut ledger, 0, BufferDirection::Both);
    assert_eq!(pair, (0, DANGLING));
    assert_eq!(ledger.len(), 0);
}

#[test]
fn raw_deallocation_of_unknown_buffer_gives_nothing_back() {
    let _guard = allocator();
    let start = heap_start();
    let hal = VirtIoHalImpl::new(start - 0x10_0000);
    let mut ledger = DmaLedger::new();
    let (paddr, vaddr) = hal.dma_alloc_raw(&mut ledger, 2, BufferDirection::Both);
    assert_ne!(paddr, 0);
    let used = axalloc::global_allocator().used_pages();
    // another address, another page count, and the sentinel
    assert_eq!(hal.dma_dealloc_raw(&mut ledger, paddr, vaddr + PAGE_SIZE, 2), 0);
    assert_eq!(hal.dma_dealloc_raw(&mut ledger, paddr, vaddr, 1), 0);
    assert_eq!(hal.dma_dealloc_raw(&mut ledger, 0, DANGLING, 0), 0);
    assert_eq!(ledger.len(), 1);
    assert_eq!(axalloc::global_allocator().used_pages(), used);
    assert_eq!(hal.dma_dealloc_raw(&mut ledger, paddr, vaddr, 2), 0);
    assert_eq!(axalloc::global_allocator().used_pages(), used - 2);
    // a second time there is nothing left to give back
    assert_eq!(hal.dma_dealloc_raw(&mut ledger, paddr, vaddr, 2), 0);
    assert_eq!(axalloc::global_allocator().used_pages(), used - 2);
    assert_eq!(ledger.len(), 0);
}

#[test]
fn ledger_hands_out_the_buffer_recorded_last() {
    let _guard = allocator();
    let start = heap_start();
    let hal = VirtIoHalImpl::new(start - 0x10_0000);
    let mut ledger = DmaLedger::new();
    let a = hal.dma_alloc(1, BufferDirection::DriverToDevice);
    let b = hal.dma_alloc(2, BufferDirection::DeviceToDriver);
    assert!(!a.is_failed() && !b.is_failed());
    let (a_vaddr, b_vaddr) = (a.vaddr(), b.vaddr());
    ledger.record(a);
    ledger.record(b);
    assert_eq!(ledger.len(), 2);
    assert!(ledger.take(a_vaddr, 2).is_none());
    assert!(ledger.take(b_vaddr, 1).is_none());
    assert_eq!(ledger.len(), 2);
    let found = ledger.take(a_vaddr, 1).unwrap();
    assert_eq!((found.vaddr(), found.pages()), (a_vaddr, 1));
    assert_eq!(found.direction(), BufferDirection::DriverToDevice);
    assert_eq!(ledger.len(), 1);
    assert!(ledger.take(a_vaddr, 1).is_none());
    assert_eq!(hal.dma_dealloc(found.paddr(), found), 0);
    let found = ledger.take(b_vaddr, 2).unwrap();
    assert_eq!((found.vaddr(), found.pages()), (b_vaddr, 2));
    assert_eq!(hal.dma_dealloc(found.paddr(), found), 0);
    assert_eq!(ledger.len(), 0);
}
