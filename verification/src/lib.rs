//! Verified core of the Stardust kernel and its userland runtime: capability
//! tokens and the capability derivation tree, the thread scheduler, the bump
//! frame allocator, the system-call decoder, ELF and USTAR parsing, serial
//! number formatting, and the pure decision logic of the userland drivers and
//! of the WebAssembly desktop.
use vstd::prelude::*;

pub mod arch;
pub mod hal;
pub mod memory;
pub mod oracle;
pub mod security;
pub mod smp;
pub mod task;
pub mod userland;
