//! Page mappings requested by the kernel: a physical frame, the virtual page
//! it is mapped at, and the x86_64 page-table flags of the mapping.
use vstd::prelude::*;

verus! {

/// Page-table flag: the page is present.
pub const FLAG_PRESENT: u64 = 1;

/// Page-table flag: the page is writable.
pub const FLAG_WRITABLE: u64 = 2;

/// Page-table flag: the page is accessible from Ring 3.
pub const FLAG_USER_ACCESSIBLE: u64 = 4;

/// Page-table flag: caching is disabled for the page.
pub const FLAG_NO_CACHE: u64 = 16;

/// Flags of a page that user space reads and writes.
pub const USER_RW_FLAGS: u64 = 7;

/// Flags of a device page that the kernel reads and writes uncached.
pub const KERNEL_DEVICE_FLAGS: u64 = 19;

/// Flags of a device page that user space reads and writes uncached.
pub const USER_DEVICE_FLAGS: u64 = 23;

/// One mapping of a physical frame at a virtual page.
#[derive(Debug, Clone, Copy, PartialEq, Eq, Structural)]
pub struct PageMapping {
    /// Physical address of the frame.
    pub phys: u64,
    /// Virtual address of the page.
    pub virt: u64,
    /// Page-table flags of the mapping.
    pub flags: u64,
}

/// The flag constants combine as their names say.
pub proof fn lemma_flag_combinations()
    ensures
        USER_RW_FLAGS == FLAG_PRESENT | FLAG_WRITABLE | FLAG_USER_ACCESSIBLE,
        KERNEL_DEVICE_FLAGS == FLAG_PRESENT | FLAG_WRITABLE | FLAG_NO_CACHE,
        USER_DEVICE_FLAGS == FLAG_PRESENT | FLAG_WRITABLE | FLAG_USER_ACCESSIBLE | FLAG_NO_CACHE,
{
    assert(7u64 == 1u64 | 2u64 | 4u64) by (bit_vector);
    assert(19u64 == 1u64 | 2u64 | 16u64) by (bit_vector);
    assert(23u64 == 1u64 | 2u64 | 4u64 | 16u64) by (bit_vector);
}

} // verus!
