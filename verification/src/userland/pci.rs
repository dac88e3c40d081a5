//! The GPU driver's PCI enumeration: configuration-space addresses, device
//! presence and class checks, and the reports it traces to the kernel.
use vstd::prelude::*;

verus! {

/// I/O port of the PCI configuration address register.
pub const PCI_CONFIG_ADDRESS: u16 = 0xCF8;

/// I/O port of the PCI configuration data register.
pub const PCI_CONFIG_DATA: u16 = 0xCFC;

/// Vendor identifier read from an empty slot.
pub const NO_DEVICE_VENDOR: u32 = 0xFFFF;

/// PCI class code of display controllers.
pub const DISPLAY_CONTROLLER_CLASS: u32 = 0x03;

/// Trace code: the PCI scan starts.
pub const TRACE_SCAN_START: u64 = 0x7000;

/// Trace code: a display controller was found.
pub const TRACE_DISPLAY_FOUND: u64 = 0x7001;

/// Trace code: the PCI scan is complete.
pub const TRACE_SCAN_DONE: u64 = 0x700F;

/// The configuration-space address of a register (PCI configuration
/// mechanism #1): the enable bit, bus, slot, function and the register
/// offset rounded down to a double word.
pub open spec fn config_address(bus: u8, slot: u8, func: u8, offset: u8) -> u32 {
    0x8000_0000u32 | ((bus as u32) << 16u32) | ((slot as u32) << 11u32) | ((func as u32) << 8u32) | ((
    offset as u32) & 0xFCu32)
}

/// The address written to the configuration address port before reading a
/// double word of configuration space.
pub fn pci_config_address(bus: u8, slot: u8, func: u8, offset: u8) -> (r: u32)
    ensures
        r == config_address(bus, slot, func, offset),
{
    0x8000_0000 | ((bus as u32) << 16) | ((slot as u32) << 11) | ((func as u32) << 8) | (offset as u32 & 0xFC)
}

/// For a slot below 32 and a function below 8, the address holds each field
/// in its own bits: it can be read back.
pub proof fn lemma_config_address_fields(bus: u8, slot: u8, func: u8, offset: u8)
    requires
        slot < 32,
        func < 8,
    ensures
        (config_address(bus, slot, func, offset) >> 16u32) & 0xFFu32 == bus as u32,
        (config_address(bus, slot, func, offset) >> 11u32) & 0x1Fu32 == slot as u32,
        (config_address(bus, slot, func, offset) >> 8u32) & 0x7u32 == func as u32,
        config_address(bus, slot, func, offset) & 0xFFu32 == (offset as u32) & 0xFCu32,
        config_address(bus, slot, func, offset) & 0x8000_0000u32 != 0,
{
    let b = bus as u32;
    let s = slot as u32;
    let f = func as u32;
    let o = offset as u32;
    let a = config_address(bus, slot, func, offset);
    assert(a == 0x8000_0000u32 | (b << 16u32) | (s << 11u32) | (f << 8u32) | (o & 0xFCu32));
    assert((a >> 16u32) & 0xFFu32 == b && (a >> 11u32) & 0x1Fu32 == s && (a >> 8u32) & 0x7u32 == f && a & 0xFFu32
        == o & 0xFCu32 && a & 0x8000_0000u32 != 0) by (bit_vector)
        requires
            a == 0x8000_0000u32 | (b << 16u32) | (s << 11u32) | (f << 8u32) | (o & 0xFCu32),
            b < 256,
            s < 32,
            f < 8,
            o < 256,
    ;
}

/// Whether the vendor/device register of a slot shows a device.
pub fn device_present(vendor_device: u32) -> (r: bool)
    ensures
        r == (vendor_device % 0x10000 != NO_DEVICE_VENDOR),
{
    let vendor = vendor_device & 0xFFFF;
    assert(vendor == vendor_device % 0x10000) by (bit_vector)
        requires
            vendor == vendor_device & 0xFFFF,
    ;
    vendor != NO_DEVICE_VENDOR
}

/// Whether the class register of a device shows a display controller.
pub fn is_display_controller(class_reg: u32) -> (r: bool)
    ensures
        r == (class_reg / 0x100_0000 == DISPLAY_CONTROLLER_CLASS),
{
    let class = (class_reg >> 24) & 0xFF;
    assert(class == class_reg / 0x100_0000) by (bit_vector)
        requires
            class == (class_reg >> 24) & 0xFF,
    ;
    class == DISPLAY_CONTROLLER_CLASS
}

/// The trace payload that reports a display controller: 0x9000_0000 or-ed
/// with the vendor identifier shifted left by 16 and the device identifier.
pub open spec fn display_report_value(vendor_device: u32) -> u64 {
    0x9000_0000u64 | ((vendor_device as u64 % 0x10000) << 16u64) | (vendor_device as u64 / 0x10000)
}

/// The trace payload that reports a display controller.
pub fn display_report(vendor_device: u32) -> (r: u64)
    ensures
        r == display_report_value(vendor_device),
{
    let vendor = (vendor_device & 0xFFFF) as u64;
    let device = ((vendor_device >> 16) & 0xFFFF) as u64;
    assert(vendor == vendor_device % 0x10000 && device == vendor_device / 0x10000) by (bit_vector)
        requires
            vendor == vendor_device & 0xFFFF,
            device == (vendor_device >> 16) & 0xFFFF,
    ;
    0x9000_0000u64 | (vendor << 16u64) | device
}

} // verus!
