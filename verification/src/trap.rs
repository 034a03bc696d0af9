//! The trap handler registry.
//!
//! The modules that want to see a kind of trap register a handler for it
//! while the system is set up, before traps are enabled. The code that takes
//! a trap dispatches it to the registry of its kind. A registry only grows;
//! the handler registered first is the one that is called.

use vstd::prelude::*;
use memory_addr::VirtAddr;

verus! {

/// `memory_addr::VirtAddr`, a virtual memory address, as the page fault
/// handlers take it. The registry carries it and never looks inside.
#[verifier::external_type_specification]
#[verifier::external_body]
pub struct ExVirtAddr(VirtAddr);

/// The access was a read.
pub const ACCESS_READ: usize = 1;

/// The access was a write.
pub const ACCESS_WRITE: usize = 2;

/// The access was an instruction fetch.
pub const ACCESS_EXECUTE: usize = 4;

/// The access came from user mode.
pub const ACCESS_USER: usize = 8;

/// The permissions that a faulting access asked for, as a set of bits.
#[derive(Clone, Copy, Debug, PartialEq, Eq, Structural)]
pub struct AccessFlags {
    /// The union of the `ACCESS_` bits that apply.
    pub bits: usize,
}

/// What dispatching to a registry has to report about its configuration.
#[derive(Clone, Copy, Debug, PartialEq, Eq, Structural)]
pub enum TrapReport {
    /// No handler is registered: the trap goes unhandled.
    NoHandler,
    /// One handler is registered.
    SingleHandler,
    /// More than one handler is registered: only the first is called.
    MultipleHandlers,
}

/// The report for a registry of `count` handlers.
pub open spec fn spec_report(count: nat) -> TrapReport {
    if count == 0 {
        TrapReport::NoHandler
    } else if count == 1 {
        TrapReport::SingleHandler
    } else {
        TrapReport::MultipleHandlers
    }
}

/// The handlers registered for one kind of trap, in registration order.
pub struct TrapRegistry<H> {
    handlers: Vec<H>,
}

impl<H> TrapRegistry<H> {
    /// The handlers, in registration order.
    pub closed spec fn view(&self) -> Seq<H> {
        self.handlers@
    }

    /// A registry without handlers.
    pub fn new() -> (registry: Self)
        ensures
            registry@.len() == 0,
    {
        TrapRegistry { handlers: Vec::new() }
    }

    /// Adds `handler` behind the handlers registered so far, which stay as
    /// they are.
    pub fn register(&mut self, handler: H)
        ensures
            final(self)@ == old(self)@.push(handler),
            old(self)@.len() > 0 ==> final(self)@[0] == old(self)@[0],
    {
        self.handlers.push(handler);
    }

    /// The number of handlers registered.
    pub fn len(&self) -> (count: usize)
        ensures
            count == self@.len(),
    {
        self.handlers.len()
    }

    /// What dispatching to this registry has to report.
    pub fn report(&self) -> (report: TrapReport)
        ensures
            report == spec_report(self@.len()),
    {
        let count = self.handlers.len();
        if count == 0 {
            TrapReport::NoHandler
        } else if count == 1 {
            TrapReport::SingleHandler
        } else {
            TrapReport::MultipleHandlers
        }
    }
}

impl<H: Fn(usize) -> bool> TrapRegistry<H> {
    /// Dispatches the interrupt with number `vector`.
    ///
    /// Without a handler the interrupt is not handled. Otherwise the handler
    /// registered first is called, once, and its answer is the result;
    /// handlers registered after it are not called.
    pub fn handle_irq(&self, vector: usize) -> (handled: bool)
        requires
            self@.len() > 0 ==> call_requires(self@[0], (vector,)),
        ensures
            self@.len() == 0 ==> !handled,
            self@.len() > 0 ==> call_ensures(self@[0], (vector,), handled),
    {
        if self.handlers.len() == 0 {
            false
        } else {
            (self.handlers[0])(vector)
        }
    }
}

impl<H: Fn(VirtAddr, AccessFlags, bool) -> bool> TrapRegistry<H> {
    /// Dispatches the page fault at `vaddr` for an access with
    /// `access_flags`, a write if `is_write`.
    ///
    /// Without a handler the fault is not handled. Otherwise the handler
    /// registered first is called, once, and its answer is the result;
    /// handlers registered after it are not called.
    pub fn handle_page_fault(&self, vaddr: VirtAddr, access_flags: AccessFlags, is_write: bool) -> (handled:
        bool)
        requires
            self@.len() > 0 ==> call_requires(self@[0], (vaddr, access_flags, is_write)),
        ensures
            self@.len() == 0 ==> !handled,
            self@.len() > 0 ==> call_ensures(self@[0], (vaddr, access_flags, is_write), handled),
    {
        if self.handlers.len() == 0 {
            false
        } else {
            (self.handlers[0])(vaddr, access_flags, is_write)
        }
    }
}

/// Registration never changes which handler is called: after any further
/// registrations the first handler is the one registered first.
pub proof fn lemma_first_handler_stays<H>(handlers: Seq<H>, later: Seq<H>)
    requires
        handlers.len() > 0,
    ensures
        (handlers + later)[0] == handlers[0],
        spec_report((handlers + later).len()) != TrapReport::NoHandler,
{
}

} // verus!
