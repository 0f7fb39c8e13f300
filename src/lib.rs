//! Control, instrumentation and memory layer around an x86-64 emulation core:
//! guest physical page map, page-table walker, per-CPU run state and
//! cancellation decisions, and the observer fan-out for architectural events.

use vstd::prelude::*;

mod fastmap;
pub mod hook;
pub mod bytes;
pub mod cpu;
pub mod mem;
pub mod opcode;
pub mod virt;

verus! {

/// A guest linear (virtual) address.
pub type Address = u64;

/// A guest physical address.
pub type PhyAddress = u64;

/// Number of virtual CPU slots in the per-CPU tables.
pub const NUM_CPUS: usize = 255;

} // verus!
