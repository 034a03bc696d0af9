use hal_core::trap::{
    AccessFlags, TrapRegistry, TrapReport, ACCESS_EXECUTE, ACCESS_READ, ACCESS_USER, ACCESS_WRITE,
};
use memory_addr::VirtAddr;
use std::cell::Cell;
use std::rc::Rc;

fn always(_vector: usize) -> bool {
    true
}

fn never(_vector: usize) -> bool {
    false
}

fn even_vectors(vector: usize) -> bool {
    vector % 2 == 0
}

#[test]
fn irq_without_handler_is_unhandled() {
    let registry: TrapRegistry<fn(usize) -> bool> = TrapRegistry::new();
    assert_eq!(registry.len(), 0);
    assert!(!registry.handle_irq(3));
    assert_eq!(registry.report(), TrapReport::NoHandler);
}

#[test]
fn irq_with_one_handler_returns_its_answer() {
    let mut registry: TrapRegistry<fn(usize) -> bool> = TrapRegistry::new();
    registry.register(even_vectors);
    assert_eq!(registry.report(), TrapReport::SingleHandler);
    assert!(registry.handle_irq(4));
    assert!(!registry.handle_irq(5));
}

#[test]
fn irq_with_several_handlers_calls_only_the_first() {
    let calls = Rc::new(Cell::new((0u32, 0u32)));
    let first = {
        let calls = calls.clone();
        Box::new(move |_v: usize| {
            calls.set((calls.get().0 + 1, calls.get().1));
            false
        }) as Box<dyn Fn(usize) -> bool>
    };
    let second = {
        let calls = calls.clone();
        Box::new(move |_v: usize| {
            calls.set((calls.get().0, calls.get().1 + 1));
            true
        }) as Box<dyn Fn(usize) -> bool>
    };
    let mut registry: TrapRegistry<Box<dyn Fn(usize) -> bool>> = TrapRegistry::new();
    registry.register(first);
    registry.register(second);
    assert_eq!(registry.len(), 2);
    assert_eq!(registry.report(), TrapReport::MultipleHandlers);
    assert!(!registry.handle_irq(1));
    assert_eq!(calls.get(), (1, 0));
}

#[test]
fn registration_order_decides() {
    let mut registry: TrapRegistry<fn(usize) -> bool> = TrapRegistry::new();
    registry.register(never);
    registry.register(always);
    assert!(!registry.handle_irq(0));

    let mut registry: TrapRegistry<fn(usize) -> bool> = TrapRegistry::new();
    registry.register(always);
    registry.register(never);
    registry.register(never);
    assert!(registry.handle_irq(0));
    assert_eq!(registry.len(), 3);
}

#[test]
fn irq_handler_receives_the_vector() {
    let seen = Rc::new(Cell::new(0usize));
    let handler = {
        let seen = seen.clone();
        Box::new(move |v: usize| {
            seen.set(v);
            true
        }) as Box<dyn Fn(usize) -> bool>
    };
    let mut registry: TrapRegistry<Box<dyn Fn(usize) -> bool>> = TrapRegistry::new();
    registry.register(handler);
    assert!(registry.handle_irq(33));
    assert_eq!(seen.get(), 33);
}

fn writes_only(_vaddr: VirtAddr, _flags: AccessFlags, is_write: bool) -> bool {
    is_write
}

fn user_reads_below_one_megabyte(vaddr: VirtAddr, flags: AccessFlags, is_write: bool) -> bool {
    vaddr.as_usize() < 0x10_0000 && flags.bits & ACCESS_USER != 0 && !is_write
}

#[test]
fn page_fault_without_handler_is_unhandled() {
    let registry: TrapRegistry<fn(VirtAddr, AccessFlags, bool) -> bool> = TrapRegistry::new();
    let flags = AccessFlags { bits: ACCESS_READ };
    assert!(!registry.handle_page_fault(VirtAddr::from_usize(0x1000), flags, false));
    assert_eq!(registry.report(), TrapReport::NoHandler);
}

#[test]
fn page_fault_arguments_reach_the_handler() {
    let mut registry: TrapRegistry<fn(VirtAddr, AccessFlags, bool) -> bool> = TrapRegistry::new();
    registry.register(user_reads_below_one_megabyte);
    let user_read = AccessFlags { bits: ACCESS_READ | ACCESS_USER };
    let kernel_read = AccessFlags { bits: ACCESS_READ };
    assert!(registry.handle_page_fault(VirtAddr::from_usize(0x1000), user_read, false));
    assert!(!registry.handle_page_fault(VirtAddr::from_usize(0x1000), kernel_read, false));
    assert!(!registry.handle_page_fault(VirtAddr::from_usize(0x1000), user_read, true));
    assert!(!registry.handle_page_fault(VirtAddr::from_usize(0x20_0000), user_read, false));
}

#[test]
fn page_fault_with_several_handlers_calls_only_the_first() {
    let mut registry: TrapRegistry<fn(VirtAddr, AccessFlags, bool) -> bool> = TrapRegistry::new();
    registry.register(writes_only);
    registry.register(user_reads_below_one_megabyte);
    assert_eq!(registry.report(), TrapReport::MultipleHandlers);
    let flags = AccessFlags { bits: ACCESS_WRITE | ACCESS_USER };
    assert!(registry.handle_page_fault(VirtAddr::from_usize(0x1000), flags, true));
    let flags = AccessFlags { bits: ACCESS_READ | ACCESS_USER };
    assert!(!registry.handle_page_fault(VirtAddr::from_usize(0x1000), flags, false));
}

#[test]
fn access_bits_are_distinct() {
    assert_eq!(ACCESS_READ, 1);
    assert_eq!(ACCESS_WRITE, 2);
    assert_eq!(ACCESS_EXECUTE, 4);
    assert_eq!(ACCESS_USER, 8);
}
