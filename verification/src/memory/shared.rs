//! Shared memory grants: a token-gated allocation of a physical frame mapped
//! into a process at a requested virtual address.
use vstd::prelude::*;
use crate::memory::frame::{FrameAllocator, MemoryMapEntry, alloc_step, map_in_range};
use crate::memory::mapper::{PageMapping, USER_RW_FLAGS};
use crate::security::cdt::CapabilityDerivationTree;
use crate::security::token::{Token, RIGHT_GOD};

verus! {

/// What a grant request comes to.
#[derive(Debug, PartialEq, Eq, Structural)]
pub enum GrantOutcome {
    /// The token does not validate: nothing is allocated and the caller gets 0.
    Rejected,
    /// The token validates but no physical frame is left.
    OutOfMemory,
    /// A frame was allocated; it is to be mapped as described and the caller
    /// gets the virtual address.
    Granted(PageMapping),
}

/// The token that a grant request presents: the given identifier with
/// universal rights.
pub open spec fn grant_token(token_id: u64) -> Token {
    Token { id: token_id, rights: RIGHT_GOD }
}

impl GrantOutcome {
    /// The value the system call returns once the grant has been carried out:
    /// the virtual address of a granted frame whose mapping was made
    /// (`mapped`), and 0 on every failure: a rejected token, exhausted
    /// memory, or a page that could not be mapped.
    pub fn syscall_value(&self, mapped: bool) -> (r: u64)
        ensures
            mapped ==> (self matches GrantOutcome::Granted(m) ==> r == m.virt),
            !(self is Granted && mapped) ==> r == 0,
    {
        match self {
            GrantOutcome::Granted(m) => if mapped {
                m.virt
            } else {
                0
            },
            _ => 0,
        }
    }
}

/// Grants a physical frame to the kernel-validated holder of token
/// `token_id` at `requested_vaddr`: the token (with universal rights) must
/// validate for PID 0; then one frame is allocated and is to be mapped
/// user-accessible and writable at the requested address.
pub fn grant_frame(
    tree: &CapabilityDerivationTree,
    alloc: &mut FrameAllocator,
    entries: &[MemoryMapEntry],
    token_id: u64,
    requested_vaddr: u64,
) -> (r: GrantOutcome)
    requires
        map_in_range(entries@),
    ensures
        !tree.spec_validate(0, grant_token(token_id)) ==> r == GrantOutcome::Rejected && final(alloc)@
            == old(alloc)@,
        tree.spec_validate(0, grant_token(token_id)) ==> {
            let s = alloc_step(entries@, old(alloc)@.0, old(alloc)@.1);
            &&& final(alloc)@ == (s.0, s.1)
            &&& s.2 is None ==> r == GrantOutcome::OutOfMemory
            &&& s.2 matches Some(f) ==> r == GrantOutcome::Granted(
                PageMapping { phys: f, virt: requested_vaddr, flags: USER_RW_FLAGS },
            )
        },
{
    let token = Token { id: token_id, rights: RIGHT_GOD };
    if !tree.validate(0, token) {
        return GrantOutcome::Rejected;
    }
    match alloc.allocate_frame_raw(entries) {
        None => GrantOutcome::OutOfMemory,
        Some(phys_frame) => GrantOutcome::Granted(
            PageMapping { phys: phys_frame, virt: requested_vaddr, flags: USER_RW_FLAGS },
        ),
    }
}

} // verus!
