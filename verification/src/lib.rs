//! Device and event core of a small kernel's hardware abstraction layer:
//! the console adapters behind descriptors 0, 1 and 2, descriptor-based
//! read and write calls, the VirtIO probing decisions, the DMA memory
//! bridge and the trap handler registry.
//!
//! Hardware transfers, scheduling and locking are left to the embedding
//! kernel. Where an operation needs one of them, the library hands back the
//! next action to perform and is told what came of it.

pub mod error;
pub mod stdio;
pub mod io;
pub mod probe;
pub mod mem;
pub mod trap;
