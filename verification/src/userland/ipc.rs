//! The runtime library's side of the system-call ABI: the IPC message
//! layout, how arguments are packed, and how results are read.
use vstd::prelude::*;
use crate::arch::syscall::{SyscallRequest, SYS_PORT_OUT, SYSCALL_REFUSED, spec_decode_syscall};

verus! {

/// The standard layout of structured data exchanged between address spaces.
#[derive(Debug, Clone, Copy)]
pub struct IpcMessage {
    pub sender_id: u32,
    pub target_id: u32,
    pub action: u16,
    pub flags: u16,
    pub payload: [u8; 52],
}

/// Action code of trace commands sent through the batch interface.
pub const TRACE_ACTION: u64 = 0xDB60;

/// The batch command that traces `data`: the trace action in the high 32
/// bits, the data below.
pub open spec fn trace_command_value(data: u64) -> u64 {
    0x0000_DB60_0000_0000u64 | data
}

/// The batch command a program submits to trace an event.
pub fn trace_command(data: u64) -> (r: u64)
    ensures
        r == trace_command_value(data),
{
    0x0000_DB60_0000_0000u64 | data
}

/// A trace of a 32-bit value reaches the kernel's batch router as the trace
/// action with the value as payload.
pub proof fn lemma_trace_command_decodes(data: u64)
    requires
        data < 0x1_0000_0000,
    ensures
        trace_command_value(data) / 0x1_0000_0000 == TRACE_ACTION,
        trace_command_value(data) % 0x1_0000_0000 == data,
{
    let c = trace_command_value(data);
    assert(c / 0x1_0000_0000 == 0xDB60 && c % 0x1_0000_0000 == data) by (bit_vector)
        requires
            c == 0x0000_DB60_0000_0000u64 | data,
            data < 0x1_0000_0000,
    ;
}

/// The first argument of a port write of `size` bytes to `port`: the size in
/// bits 16..31, the port below.
pub open spec fn port_out_arg_value(port: u16, size: u64) -> u64 {
    (size * 0x1_0000 + port) as u64
}

/// Packs the port and access size of a port write.
pub fn port_out_arg(port: u16, size: u64) -> (r: u64)
    requires
        size < 0x1_0000,
    ensures
        r == port_out_arg_value(port, size),
{
    let p = port as u64;
    let r = (size << 16u64) | p;
    assert(r == size * 0x1_0000 + p) by (bit_vector)
        requires
            r == (size << 16u64) | p,
            size < 0x1_0000,
            p < 0x1_0000,
    ;
    r
}

/// A byte or double-word port write packed by the runtime is decoded by the
/// kernel as a write of that width to that port.
pub proof fn lemma_port_out_round_trip(port: u16, size: u64, value: u64)
    requires
        size == 1 || size == 2 || size == 4,
    ensures
        spec_decode_syscall(SYS_PORT_OUT, port_out_arg_value(port, size), value) == (SyscallRequest::PortOut {
            port,
            size,
            value,
        }),
{
    let a = port_out_arg_value(port, size);
    assert((a / 0x10000) % 0x10000 == size && a % 0x10000 == port) by (nonlinear_arith)
        requires
            a == size * 0x1_0000 + port,
            size <= 4,
            port < 0x10000,
    ;
}

/// The outcome of a memory grant as the runtime reports it.
pub fn grant_result(raw: u64) -> (r: Result<(), ()>)
    ensures
        r is Err <==> raw == SYSCALL_REFUSED,
{
    if raw == SYSCALL_REFUSED {
        Err(())
    } else {
        Ok(())
    }
}

/// Whether an interrupt check found the interrupt pending.
pub fn irq_pending(raw: u64) -> (r: bool)
    ensures
        r == (raw != 0),
{
    raw != 0
}

} // verus!
