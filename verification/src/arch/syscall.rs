//! The system-call interface: argument validation and decoding of the
//! dispatcher, and the values of the SYSCALL model-specific registers.
use vstd::prelude::*;
use crate::arch::gdt::Selectors;
use crate::oracle::{hex_digits, push_str_bytes, speak_hex};
use vstd::string::StringSliceAdditionalSpecFns;

verus! {

/// Model-specific register that enables SYSCALL/SYSRET (bit 0).
pub const IA32_EFER: u32 = 0xC000_0080;

/// Model-specific register holding the SYSCALL/SYSRET segment selectors.
pub const IA32_STAR: u32 = 0xC000_0081;

/// Model-specific register holding the SYSCALL entry point.
pub const IA32_LSTAR: u32 = 0xC000_0082;

/// Model-specific register holding the RFLAGS bits cleared on SYSCALL.
pub const IA32_FMASK: u32 = 0xC000_0084;

/// RFLAGS mask applied on SYSCALL: interrupts (bit 9) are disabled on entry.
pub const SYSCALL_FMASK: u64 = 0x200;

pub const SYS_GRANT_SHARED_MEMORY: u64 = 1;
pub const SYS_IOMMU_LOCKDOWN: u64 = 2;
pub const SYS_MAP_FRAMEBUFFER: u64 = 3;
pub const SYS_BATCH_EXECUTE: u64 = 4;
pub const SYS_PORT_IN: u64 = 5;
pub const SYS_CHECK_IRQ: u64 = 6;
pub const SYS_SPAWN_PROCESS: u64 = 7;
pub const SYS_PORT_OUT: u64 = 8;
pub const SYS_IPC_SEND: u64 = 9;
pub const SYS_IPC_RECEIVE: u64 = 10;

/// Exclusive upper bound of the user half of the address space accepted for
/// system-call buffers.
pub const USER_SPACE_LIMIT: u64 = 0x0000_7FFF_FFFF_F000;

/// Value returned for a refused system call.
pub const SYSCALL_REFUSED: u64 = 0xFFFF_FFFF_FFFF_FFFF;

/// Bytes of one region mapped by an IOMMU lockdown.
pub const IOMMU_WINDOW: u64 = 0x20_0000;

/// Number of interrupt vectors with a mailbox.
pub const IRQ_VECTORS: u64 = 256;

/// A user buffer of `size` bytes at `vaddr` is non-empty and lies entirely
/// below the user-space limit.
pub open spec fn safe_user_range(vaddr: u64, size: u64) -> bool {
    size > 0 && vaddr + size < USER_SPACE_LIMIT
}

/// Whether a user buffer lies within the canonical lower half, away from the
/// kernel.
pub fn is_safe_user_ptr(vaddr: u64, size: u64) -> (r: bool)
    ensures
        r == safe_user_range(vaddr, size),
{
    let end_addr = vaddr.saturating_add(size);
    end_addr < USER_SPACE_LIMIT && vaddr < end_addr
}

/// Every byte of a buffer accepted by `is_safe_user_ptr` lies below the user
/// space limit.
pub proof fn lemma_safe_range_is_user(vaddr: u64, size: u64, a: int)
    requires
        safe_user_range(vaddr, size),
        vaddr <= a < vaddr + size,
    ensures
        a < USER_SPACE_LIMIT,
{
}

/// A system call, decoded and checked.
#[derive(Debug, Clone, Copy, PartialEq, Eq, Structural)]
pub enum SyscallRequest {
    /// The call is refused; it returns `SYSCALL_REFUSED`.
    Refused,
    /// Grant a frame at `vaddr` against token `token_id`.
    GrantSharedMemory { token_id: u64, vaddr: u64 },
    /// Lock down DMA of `device_id` to the window at `vaddr`.
    IommuLockdown { device_id: u16, vaddr: u64 },
    /// Map the framebuffer at `vaddr`.
    MapFramebuffer { vaddr: u64 },
    /// Log `count` batched commands read from `commands_ptr`.
    BatchExecute { commands_ptr: u64, count: u64 },
    /// Read `size` bytes (1, 2 or 4) from I/O port `port`.
    PortIn { port: u16, size: u64 },
    /// Swap the mailbox of interrupt vector `vector` (below 256) with 0.
    CheckIrq { vector: u64 },
    /// Spawn a thread at `entry_point` with stack `stack_ptr`.
    SpawnProcess { entry_point: u64, stack_ptr: u64 },
    /// Write the low `size` bytes (1, 2 or 4) of `value` to I/O port `port`.
    PortOut { port: u16, size: u64, value: u64 },
    /// Store `payload` in the global IPC mailbox.
    IpcSend { payload: u64 },
    /// Swap the global IPC mailbox with 0.
    IpcReceive,
    /// The call completes at once with the given value.
    Immediate(u64),
    /// An unknown system call number; it returns 0.
    Unknown,
}

/// The decoded form of a system call, as the dispatcher reads its number and
/// two arguments.
pub open spec fn spec_decode_syscall(syscall_id: u64, arg1: u64, arg2: u64) -> SyscallRequest {
    if syscall_id == SYS_GRANT_SHARED_MEMORY {
        if safe_user_range(arg2, 4096) {
            SyscallRequest::GrantSharedMemory { token_id: arg1, vaddr: arg2 }
        } else {
            SyscallRequest::Refused
        }
    } else if syscall_id == SYS_IOMMU_LOCKDOWN {
        if safe_user_range(arg2, IOMMU_WINDOW) {
            SyscallRequest::IommuLockdown { device_id: (arg1 % 0x10000) as u16, vaddr: arg2 }
        } else {
            SyscallRequest::Refused
        }
    } else if syscall_id == SYS_MAP_FRAMEBUFFER {
        SyscallRequest::MapFramebuffer { vaddr: arg1 }
    } else if syscall_id == SYS_BATCH_EXECUTE {
        if arg2 * 8 <= u64::MAX && safe_user_range(arg1, (arg2 * 8) as u64) {
            SyscallRequest::BatchExecute { commands_ptr: arg1, count: arg2 }
        } else {
            SyscallRequest::Refused
        }
    } else if syscall_id == SYS_PORT_IN {
        if arg2 == 1 || arg2 == 2 || arg2 == 4 {
            SyscallRequest::PortIn { port: (arg1 % 0x10000) as u16, size: arg2 }
        } else {
            SyscallRequest::Refused
        }
    } else if syscall_id == SYS_CHECK_IRQ {
        if arg1 < IRQ_VECTORS {
            SyscallRequest::CheckIrq { vector: arg1 }
        } else {
            SyscallRequest::Immediate(0)
        }
    } else if syscall_id == SYS_SPAWN_PROCESS {
        SyscallRequest::SpawnProcess { entry_point: arg1, stack_ptr: arg2 }
    } else if syscall_id == SYS_PORT_OUT {
        let size = (arg1 / 0x10000) % 0x10000;
        if size == 1 || size == 2 || size == 4 {
            SyscallRequest::PortOut { port: (arg1 % 0x10000) as u16, size: size as u64, value: arg2 }
        } else {
            SyscallRequest::Refused
        }
    } else if syscall_id == SYS_IPC_SEND {
        SyscallRequest::IpcSend { payload: arg2 }
    } else if syscall_id == SYS_IPC_RECEIVE {
        SyscallRequest::IpcReceive
    } else {
        SyscallRequest::Unknown
    }
}

/// The low 16 bits of `x`.
fn low16(x: u64) -> (r: u16)
    ensures
        r == x % 0x10000,
{
    let m = x & 0xFFFF;
    assert(m == x % 0x10000) by (bit_vector)
        requires
            m == x & 0xFFFF,
    ;
    m as u16
}

/// Decodes and checks a system call: buffer arguments must lie in user space
/// (a batch whose byte size does not fit in 64 bits is refused), port widths
/// must be 1, 2 or 4 bytes, interrupt vectors below 256.
pub fn decode_syscall(syscall_id: u64, arg1: u64, arg2: u64) -> (r: SyscallRequest)
    ensures
        r == spec_decode_syscall(syscall_id, arg1, arg2),
{
    if syscall_id == SYS_GRANT_SHARED_MEMORY {
        if !is_safe_user_ptr(arg2, 4096) {
            return SyscallRequest::Refused;
        }
        SyscallRequest::GrantSharedMemory { token_id: arg1, vaddr: arg2 }
    } else if syscall_id == SYS_IOMMU_LOCKDOWN {
        if !is_safe_user_ptr(arg2, IOMMU_WINDOW) {
            return SyscallRequest::Refused;
        }
        SyscallRequest::IommuLockdown { device_id: low16(arg1), vaddr: arg2 }
    } else if syscall_id == SYS_MAP_FRAMEBUFFER {
        SyscallRequest::MapFramebuffer { vaddr: arg1 }
    } else if syscall_id == SYS_BATCH_EXECUTE {
        let size = match arg2.checked_mul(8) {
            None => return SyscallRequest::Refused,
            Some(size) => size,
        };
        if !is_safe_user_ptr(arg1, size) {
            return SyscallRequest::Refused;
        }
        SyscallRequest::BatchExecute { commands_ptr: arg1, count: arg2 }
    } else if syscall_id == SYS_PORT_IN {
        if arg2 == 1 || arg2 == 2 || arg2 == 4 {
            SyscallRequest::PortIn { port: low16(arg1), size: arg2 }
        } else {
            SyscallRequest::Refused
        }
    } else if syscall_id == SYS_CHECK_IRQ {
        if arg1 < IRQ_VECTORS {
            SyscallRequest::CheckIrq { vector: arg1 }
        } else {
            SyscallRequest::Immediate(0)
        }
    } else if syscall_id == SYS_SPAWN_PROCESS {
        SyscallRequest::SpawnProcess { entry_point: arg1, stack_ptr: arg2 }
    } else if syscall_id == SYS_PORT_OUT {
        let size = (arg1 >> 16) & 0xFFFF;
        assert(size == (arg1 / 0x10000) % 0x10000) by (bit_vector)
            requires
                size == (arg1 >> 16) & 0xFFFF,
        ;
        if size == 1 || size == 2 || size == 4 {
            SyscallRequest::PortOut { port: low16(arg1), size, value: arg2 }
        } else {
            SyscallRequest::Refused
        }
    } else if syscall_id == SYS_IPC_SEND {
        SyscallRequest::IpcSend { payload: arg2 }
    } else if syscall_id == SYS_IPC_RECEIVE {
        SyscallRequest::IpcReceive
    } else {
        SyscallRequest::Unknown
    }
}

/// Every system call that names a user buffer is refused unless the whole
/// buffer lies in user space.
pub proof fn lemma_buffers_checked(syscall_id: u64, arg1: u64, arg2: u64)
    ensures
        spec_decode_syscall(syscall_id, arg1, arg2) matches SyscallRequest::GrantSharedMemory {
            vaddr,
            ..
        } ==> safe_user_range(vaddr, 4096),
        spec_decode_syscall(syscall_id, arg1, arg2) matches SyscallRequest::IommuLockdown {
            vaddr,
            ..
        } ==> safe_user_range(vaddr, IOMMU_WINDOW),
        spec_decode_syscall(syscall_id, arg1, arg2) matches SyscallRequest::BatchExecute {
            commands_ptr,
            count,
        } ==> safe_user_range(commands_ptr, (count * 8) as u64),
{
}

/// What each system call number asks for, and when it is refused:
/// 1 grants a page at `arg2` for token `arg1`, 2 locks device `arg1` (low 16
/// bits) down to a 2 MiB window at `arg2`, 3 maps the framebuffer at `arg1`,
/// 4 logs `arg2` batched commands at `arg1`, 5 reads 1, 2 or 4 bytes from
/// port `arg1` (low 16 bits), 6 checks interrupt vector `arg1` (vectors from
/// 256 on answer 0 at once), 7 spawns a thread at `arg1` with stack `arg2`,
/// 8 writes `arg2` to the port in the low 16 bits of `arg1` with the width
/// (1, 2 or 4) in the next 16 bits, 9 posts `arg2`, 10 receives; any other
/// number is unknown. Every buffer must be non-empty and end below
/// 0x7FFF_FFFF_F000.
pub proof fn lemma_decode_syscall_meaning(syscall_id: u64, arg1: u64, arg2: u64)
    ensures
        ({
            let r = spec_decode_syscall(syscall_id, arg1, arg2);
            let port = (arg1 % 0x10000) as u16;
            let width = (arg1 / 0x10000) % 0x10000;
            &&& syscall_id == 1 ==> r == if arg2 + 4096 < 0x7FFF_FFFF_F000 {
                SyscallRequest::GrantSharedMemory { token_id: arg1, vaddr: arg2 }
            } else {
                SyscallRequest::Refused
            }
            &&& syscall_id == 2 ==> r == if arg2 + 0x20_0000 < 0x7FFF_FFFF_F000 {
                SyscallRequest::IommuLockdown { device_id: port, vaddr: arg2 }
            } else {
                SyscallRequest::Refused
            }
            &&& syscall_id == 3 ==> r == SyscallRequest::MapFramebuffer { vaddr: arg1 }
            &&& syscall_id == 4 ==> r == if 1 <= arg2 && arg1 + arg2 * 8 < 0x7FFF_FFFF_F000 {
                SyscallRequest::BatchExecute { commands_ptr: arg1, count: arg2 }
            } else {
                SyscallRequest::Refused
            }
            &&& syscall_id == 5 ==> r == if arg2 == 1 || arg2 == 2 || arg2 == 4 {
                SyscallRequest::PortIn { port, size: arg2 }
            } else {
                SyscallRequest::Refused
            }
            &&& syscall_id == 6 ==> r == if arg1 < 256 {
                SyscallRequest::CheckIrq { vector: arg1 }
            } else {
                SyscallRequest::Immediate(0)
            }
            &&& syscall_id == 7 ==> r == SyscallRequest::SpawnProcess { entry_point: arg1, stack_ptr: arg2 }
            &&& syscall_id == 8 ==> r == if width == 1 || width == 2 || width == 4 {
                SyscallRequest::PortOut { port, size: width as u64, value: arg2 }
            } else {
                SyscallRequest::Refused
            }
            &&& syscall_id == 9 ==> r == SyscallRequest::IpcSend { payload: arg2 }
            &&& syscall_id == 10 ==> r == SyscallRequest::IpcReceive
            &&& (syscall_id == 0 || syscall_id > 10) ==> r == SyscallRequest::Unknown
        }),
{
}

/// One command of a batch: its action (high 32 bits) and payload (low 32 bits).
pub fn decode_batch_command(cmd: u64) -> (r: (u64, u64))
    ensures
        r.0 == cmd / 0x1_0000_0000,
        r.1 == cmd % 0x1_0000_0000,
{
    let action = cmd >> 32;
    let payload = cmd & 0xFFFF_FFFF;
    assert(action == cmd / 0x1_0000_0000 && payload == cmd % 0x1_0000_0000) by (bit_vector)
        requires
            action == cmd >> 32,
            payload == cmd & 0xFFFF_FFFF,
    ;
    (action, payload)
}

/// The line that the batch router logs for one command: its action and
/// payload in hexadecimal.
pub open spec fn batch_report_bytes(cmd: u64) -> Seq<u8> {
    "    -> Action 0x".spec_bytes() + hex_digits((cmd / 0x1_0000_0000) as nat) + ", Payload 0x".spec_bytes()
        + hex_digits((cmd % 0x1_0000_0000) as nat) + "\n".spec_bytes()
}

/// The log line of one batched command.
pub fn batch_command_report(cmd: u64) -> (r: Vec<u8>)
    ensures
        r@ == batch_report_bytes(cmd),
{
    let (action, payload) = decode_batch_command(cmd);
    let mut out: Vec<u8> = Vec::new();
    push_str_bytes(&mut out, "    -> Action 0x");
    let mut a = speak_hex(action);
    out.append(&mut a);
    push_str_bytes(&mut out, ", Payload 0x");
    let mut p = speak_hex(payload);
    out.append(&mut p);
    push_str_bytes(&mut out, "\n");
    out
}

/// The result of a framebuffer mapping request.
#[derive(Debug, PartialEq, Eq, Structural)]
pub enum FramebufferPlan {
    /// No framebuffer exists: the call returns 0.
    NoFramebuffer,
    /// The target range is not in user space: the call is refused.
    Refused,
    /// Map `pages` frames from `phys` at `virt` (uncached, user-accessible)
    /// and return `(pitch << 32) | height`.
    MapPages { phys: u64, virt: u64, pages: u64, result: u64 },
}

/// Whether the byte size of a framebuffer overflows 64 bits.
pub open spec fn framebuffer_size_overflows(fb: Option<(u64, u64, u64, u64)>) -> bool {
    fb matches Some(d) && d.2 * d.3 > u64::MAX
}

/// The mapping that maps the framebuffer `fb` (physical address, width,
/// height, pitch) at user address `vaddr`: all `height * pitch` bytes, in
/// whole pages.
pub fn plan_framebuffer_mapping(fb: Option<(u64, u64, u64, u64)>, vaddr: u64) -> (r: FramebufferPlan)
    requires
        !framebuffer_size_overflows(fb),
    ensures
        fb is None ==> r == FramebufferPlan::NoFramebuffer,
        fb matches Some(d) ==> {
            let size = d.2 * d.3;
            &&& !safe_user_range(vaddr, size as u64) ==> r == FramebufferPlan::Refused
            &&& safe_user_range(vaddr, size as u64) ==> r == FramebufferPlan::MapPages {
                phys: d.0,
                virt: vaddr,
                pages: ((size + 4095) / 4096) as u64,
                result: (d.3 << 32u64) | d.2,
            }
        },
{
    match fb {
        None => FramebufferPlan::NoFramebuffer,
        Some((phys_addr, _width, height, pitch)) => {
            let size_in_bytes = height * pitch;
            if !is_safe_user_ptr(vaddr, size_in_bytes) {
                return FramebufferPlan::Refused;
            }
            let pages = (size_in_bytes + 4095) / 4096;
            let result = (pitch << 32u64) | height;
            FramebufferPlan::MapPages { phys: phys_addr, virt: vaddr, pages, result }
        },
    }
}

/// The STAR register value for SYSCALL/SYSRET: the user base selector (user
/// data selector minus 8) in bits 48..63 and the kernel code selector in
/// bits 32..47.
pub fn star_value(selectors: &Selectors) -> (r: u64)
    requires
        selectors.user_data >= 8,
    ensures
        r == ((selectors.user_data - 8) as u64) * 0x1_0000_0000_0000 + (selectors.kernel_code as u64)
            * 0x1_0000_0000,
{
    let kernel_base = selectors.kernel_code as u64;
    let user_base = (selectors.user_data - 8) as u64;
    let star = (user_base << 48) | (kernel_base << 32);
    assert(star == user_base * 0x1_0000_0000_0000 + kernel_base * 0x1_0000_0000) by (bit_vector)
        requires
            star == (user_base << 48) | (kernel_base << 32),
            user_base < 0x10000,
            kernel_base < 0x10000,
    ;
    star
}

/// EFER with SYSCALL/SYSRET enabled (bit 0 set), every other bit kept.
pub fn efer_with_syscall(efer: u64) -> (r: u64)
    ensures
        r == efer | 1,
{
    efer | 1
}

/// The values of the four system-call model-specific registers.
#[derive(Debug, Clone, Copy, PartialEq, Eq, Structural)]
pub struct SyscallMsrs {
    /// IA32_EFER.
    pub efer: u64,
    /// IA32_STAR.
    pub star: u64,
    /// IA32_LSTAR: the entry point of SYSCALL.
    pub lstar: u64,
    /// IA32_FMASK.
    pub fmask: u64,
}

/// The system-call registers of a core whose EFER reads `efer`, with the
/// kernel's selectors and the SYSCALL entry point at `entry`.
pub open spec fn syscall_msr_values(selectors: Selectors, efer: u64, entry: u64) -> SyscallMsrs {
    SyscallMsrs {
        efer: efer | 1,
        star: (((selectors.user_data - 8) as u64) * 0x1_0000_0000_0000 + (selectors.kernel_code as u64)
            * 0x1_0000_0000) as u64,
        lstar: entry,
        fmask: SYSCALL_FMASK,
    }
}

/// The values that enable system calls on a core (the same on the boot
/// processor and on every application processor).
pub fn syscall_msrs(selectors: &Selectors, efer: u64, entry: u64) -> (r: SyscallMsrs)
    requires
        selectors.user_data >= 8,
    ensures
        r == syscall_msr_values(*selectors, efer, entry),
{
    SyscallMsrs { efer: efer_with_syscall(efer), star: star_value(selectors), lstar: entry, fmask: SYSCALL_FMASK }
}

/// Setting up system calls is idempotent: on a core already set up (its EFER
/// holding the value written the first time), a second setup writes the same
/// four values again.
pub proof fn lemma_msr_setup_idempotent(selectors: Selectors, efer: u64, entry: u64)
    ensures
        syscall_msr_values(selectors, syscall_msr_values(selectors, efer, entry).efer, entry)
            == syscall_msr_values(selectors, efer, entry),
{
    assert((efer | 1) | 1 == efer | 1) by (bit_vector);
}

/// With the kernel's segment layout (user code right after user data),
/// SYSRET, which loads SS from STAR[63:48] + 8 and CS from STAR[63:48] + 16,
/// lands in the user data and user code selectors.
pub proof fn lemma_sysret_lands_in_user_segments(selectors: Selectors)
    requires
        selectors.user_data >= 8,
        selectors.user_code == selectors.user_data + 8,
    ensures
        ({
            let star = ((selectors.user_data - 8) as u64) * 0x1_0000_0000_0000 + (
            selectors.kernel_code as u64) * 0x1_0000_0000;
            &&& star / 0x1_0000_0000_0000 + 8 == selectors.user_data
            &&& star / 0x1_0000_0000_0000 + 16 == selectors.user_code
            &&& (star / 0x1_0000_0000) % 0x10000 == selectors.kernel_code
        }),
{
    let u = (selectors.user_data - 8) as u64;
    let k = selectors.kernel_code as u64;
    assert((u * 0x1_0000_0000_0000 + k * 0x1_0000_0000) / 0x1_0000_0000_0000 == u) by (nonlinear_arith)
        requires
            u < 0x10000,
            k < 0x10000,
    ;
    assert(((u * 0x1_0000_0000_0000 + k * 0x1_0000_0000) / 0x1_0000_0000) % 0x10000 == k) by (nonlinear_arith)
        requires
            u < 0x10000,
            k < 0x10000,
    ;
}

} // verus!
