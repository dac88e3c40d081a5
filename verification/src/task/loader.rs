//! The boot-module loader: the bootloader's module record and the user stack
//! built for the first process.
use vstd::prelude::*;

verus! {

/// A file loaded into memory by the bootloader, with its addresses as plain
/// values.
#[derive(Debug, Clone, Copy, PartialEq, Eq, Structural)]
pub struct LimineModuleSafe {
    pub revision: u64,
    pub base: u64,
    pub length: u64,
    pub path: u64,
    pub cmdline: u64,
}

/// Top of the first process's user stack.
pub const USER_STACK_TOP: u64 = 0x0000_7FFF_FFFF_0000;

/// Pages of the first process's user stack (128 KiB).
pub const USER_STACK_PAGES: u64 = 32;

/// The virtual pages of the user stack, from the top down: page `i` (from 1
/// to 32) lies `i` pages below the stack top.
pub fn user_stack_pages() -> (r: Vec<u64>)
    ensures
        r@.len() == USER_STACK_PAGES,
        forall|k: int| 0 <= k < USER_STACK_PAGES ==> #[trigger] r@[k] == USER_STACK_TOP - (k + 1) * 4096,
{
    let mut v: Vec<u64> = Vec::new();
    let mut i: u64 = 1;
    while i <= USER_STACK_PAGES
        invariant
            1 <= i <= USER_STACK_PAGES + 1,
            v@.len() == i - 1,
            forall|k: int| 0 <= k < i - 1 ==> #[trigger] v@[k] == USER_STACK_TOP - (k + 1) * 4096,
        decreases USER_STACK_PAGES + 1 - i,
    {
        v.push(USER_STACK_TOP - i * 4096);
        i += 1;
    }
    v
}

/// The first boot module is the supervisor process; `None` without modules.
pub fn god_process_module(modules: &[LimineModuleSafe]) -> (r: Option<LimineModuleSafe>)
    ensures
        modules@.len() == 0 ==> r is None,
        modules@.len() > 0 ==> r == Some(modules@[0]),
{
    if modules.len() == 0 {
        None
    } else {
        Some(modules[0])
    }
}

} // verus!
