//! Segment selectors of the kernel's Global Descriptor Table.
use vstd::prelude::*;

verus! {

/// Index of the double-fault stack in the interrupt stack table.
pub const DOUBLE_FAULT_IST_INDEX: u16 = 0;

/// The segment selectors used by the kernel, as raw selector values
/// (descriptor index times 8, plus the requested privilege level).
#[derive(Debug, Clone, Copy, PartialEq, Eq, Structural)]
pub struct Selectors {
    pub kernel_code: u16,
    pub kernel_data: u16,
    pub user_data: u16,
    pub user_code: u16,
    pub tss: u16,
}

} // verus!
