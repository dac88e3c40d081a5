//! Handle of an x86_64 processor core.
use vstd::prelude::*;

verus! {

/// Concrete handle for an x86_64 processor core.
pub struct X86Cpu;

impl X86Cpu {
    /// The handle of the executing core.
    pub fn new() -> (c: Self)
        ensures
            c == X86Cpu,
    {
        X86Cpu {}
    }
}

/// CR4 bit: process-context identifiers.
pub const CR4_PCID: u64 = 0x2_0000;

/// CR4 bit: FXSAVE/FXRSTOR and SSE enabled by the operating system.
pub const CR4_OSFXSR: u64 = 0x200;

/// CR4 bit: unmasked SIMD floating-point exceptions handled by the system.
pub const CR4_OSXMMEXCPT: u64 = 0x400;

/// CR4 with process-context identifiers and SSE (with its exceptions)
/// enabled, every other bit kept: bits 17, 9 and 10 set.
pub fn features_cr4(cr4: u64) -> (r: u64)
    ensures
        r == cr4 | 0x2_0600u64,
{
    let r = cr4 | (CR4_PCID | CR4_OSFXSR | CR4_OSXMMEXCPT);
    assert(r == cr4 | 0x2_0600u64) by (bit_vector)
        requires
            r == cr4 | (0x2_0000u64 | 0x200u64 | 0x400u64),
    ;
    r
}

} // verus!
