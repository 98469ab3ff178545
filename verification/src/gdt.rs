//! The stack that is reserved for double faults, so that their handler has a
//! valid stack even when the kernel's own stack has overflowed.

use vstd::prelude::*;

verus! {

/// The entry of the interrupt stack table that holds the stack reserved for
/// double faults. Nothing else runs on that stack.
pub const DOUBLE_FAULT_IST_INDEX: u16 = 0;

/// The size of that stack in bytes.
pub const STACK_SIZE: usize = 4096 * 5;

} // verus!
