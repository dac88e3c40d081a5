use stardust::arch::apic::{
    broadcast_tlb_shootdown, get_apic_base, ioapic_route, setup_apic_registers, ShootdownIpi,
};
use stardust::arch::cpu::{features_cr4, X86Cpu};
use stardust::arch::gdt::Selectors;
use stardust::arch::iommu::{lockdown_report, map_device_dma, IommuTable};
use stardust::arch::syscall::{batch_command_report, syscall_msrs, SyscallMsrs};
use stardust::arch::syscall::{
    decode_batch_command, decode_syscall, efer_with_syscall, is_safe_user_ptr, plan_framebuffer_mapping,
    star_value, FramebufferPlan, SyscallRequest, SYS_BATCH_EXECUTE, SYS_CHECK_IRQ, SYS_GRANT_SHARED_MEMORY,
    SYS_IOMMU_LOCKDOWN, SYS_IPC_RECEIVE, SYS_IPC_SEND, SYS_MAP_FRAMEBUFFER, SYS_PORT_IN, SYS_PORT_OUT,
    SYS_SPAWN_PROCESS, USER_SPACE_LIMIT,
};
use stardust::hal::display::{get_framebuffer_details, FramebufferInfo};

fn kernel_selectors() -> Selectors {
    Selectors { kernel_code: 0x08, kernel_data: 0x10, user_data: 0x1B, user_code: 0x23, tss: 0x28 }
}

#[test]
fn user_pointer_checks() {
    assert!(is_safe_user_ptr(0x1000, 4096));
    assert!(is_safe_user_ptr(USER_SPACE_LIMIT - 4097, 4096));
    assert!(!is_safe_user_ptr(USER_SPACE_LIMIT - 4096, 4096));
    assert!(!is_safe_user_ptr(0x1000, 0));
    assert!(!is_safe_user_ptr(0xFFFF_8000_0000_0000, 8));
    assert!(!is_safe_user_ptr(u64::MAX, 2));
}

#[test]
fn decode_grant_and_lockdown() {
    assert_eq!(
        decode_syscall(SYS_GRANT_SHARED_MEMORY, 0, 0x4000_0000),
        SyscallRequest::GrantSharedMemory { token_id: 0, vaddr: 0x4000_0000 }
    );
    assert_eq!(decode_syscall(SYS_GRANT_SHARED_MEMORY, 0, 0xFFFF_8000_0000_0000), SyscallRequest::Refused);
    assert_eq!(
        decode_syscall(SYS_IOMMU_LOCKDOWN, 0x1_10DE, 0xA000_0000),
        SyscallRequest::IommuLockdown { device_id: 0x10DE, vaddr: 0xA000_0000 }
    );
    assert_eq!(decode_syscall(SYS_IOMMU_LOCKDOWN, 0x10DE, USER_SPACE_LIMIT), SyscallRequest::Refused);
}

#[test]
fn decode_framebuffer_batch_and_ports() {
    assert_eq!(decode_syscall(SYS_MAP_FRAMEBUFFER, 0xB000_0000, 9), SyscallRequest::MapFramebuffer { vaddr: 0xB000_0000 });
    assert_eq!(
        decode_syscall(SYS_BATCH_EXECUTE, 0x5000, 3),
        SyscallRequest::BatchExecute { commands_ptr: 0x5000, count: 3 }
    );
    assert_eq!(decode_syscall(SYS_BATCH_EXECUTE, 0x5000, 0), SyscallRequest::Refused);
    assert_eq!(decode_syscall(SYS_BATCH_EXECUTE, USER_SPACE_LIMIT - 8, 1), SyscallRequest::Refused);
    assert_eq!(decode_syscall(SYS_PORT_IN, 0x60, 1), SyscallRequest::PortIn { port: 0x60, size: 1 });
    assert_eq!(decode_syscall(SYS_PORT_IN, 0x1_0CFC, 4), SyscallRequest::PortIn { port: 0x0CFC, size: 4 });
    assert_eq!(decode_syscall(SYS_PORT_IN, 0x60, 3), SyscallRequest::Refused);
    assert_eq!(
        decode_syscall(SYS_PORT_OUT, (4 << 16) | 0xCF8, 0x8000_0808),
        SyscallRequest::PortOut { port: 0xCF8, size: 4, value: 0x8000_0808 }
    );
    assert_eq!(decode_syscall(SYS_PORT_OUT, (8 << 16) | 0x60, 1), SyscallRequest::Refused);
}

#[test]
fn decode_irq_spawn_ipc_and_unknown() {
    assert_eq!(decode_syscall(SYS_CHECK_IRQ, 33, 0), SyscallRequest::CheckIrq { vector: 33 });
    assert_eq!(decode_syscall(SYS_CHECK_IRQ, 256, 0), SyscallRequest::Immediate(0));
    assert_eq!(
        decode_syscall(SYS_SPAWN_PROCESS, 0x40_1000, 0x6000_0001_0000),
        SyscallRequest::SpawnProcess { entry_point: 0x40_1000, stack_ptr: 0x6000_0001_0000 }
    );
    assert_eq!(decode_syscall(SYS_IPC_SEND, 1, 0x5E00_0A05), SyscallRequest::IpcSend { payload: 0x5E00_0A05 });
    assert_eq!(decode_syscall(SYS_IPC_RECEIVE, 1, 0), SyscallRequest::IpcReceive);
    assert_eq!(decode_syscall(0, 1, 2), SyscallRequest::Unknown);
    assert_eq!(decode_syscall(99, 1, 2), SyscallRequest::Unknown);
}

#[test]
fn batch_command_fields() {
    assert_eq!(decode_batch_command(0x0000_DB60_0000_8060), (0xDB60, 0x8060));
    assert_eq!(decode_batch_command(u64::MAX), (0xFFFF_FFFF, 0xFFFF_FFFF));
    assert_eq!(decode_batch_command(0), (0, 0));
}

#[test]
fn framebuffer_mapping_plans() {
    assert_eq!(plan_framebuffer_mapping(None, 0xB000_0000), FramebufferPlan::NoFramebuffer);
    assert_eq!(
        plan_framebuffer_mapping(Some((0xFD00_0000, 1024, 768, 4096)), 0xB000_0000),
        FramebufferPlan::MapPages { phys: 0xFD00_0000, virt: 0xB000_0000, pages: 768, result: (4096u64 << 32) | 768 }
    );
    assert_eq!(
        plan_framebuffer_mapping(Some((0xFD00_0000, 800, 3, 3200)), 0xB000_0000),
        FramebufferPlan::MapPages { phys: 0xFD00_0000, virt: 0xB000_0000, pages: 3, result: (3200u64 << 32) | 3 }
    );
    assert_eq!(
        plan_framebuffer_mapping(Some((0xFD00_0000, 1024, 768, 4096)), 0xFFFF_8000_0000_0000),
        FramebufferPlan::Refused
    );
    assert_eq!(plan_framebuffer_mapping(Some((0xFD00_0000, 0, 0, 4096)), 0xB000_0000), FramebufferPlan::Refused);
}

#[test]
fn star_and_efer_values() {
    let sel = kernel_selectors();
    let star = star_value(&sel);
    assert_eq!(star, 0x0013_0008_0000_0000);
    assert_eq!((star >> 48) + 8, sel.user_data as u64);
    assert_eq!((star >> 48) + 16, sel.user_code as u64);
    assert_eq!((star >> 32) & 0xFFFF, sel.kernel_code as u64);
    assert_eq!(efer_with_syscall(0xD00), 0xD01);
    assert_eq!(efer_with_syscall(0xD01), 0xD01);
}

#[test]
fn apic_base_and_registers() {
    assert_eq!(get_apic_base(0xFEE0_0900, 0xFFFF_8000_0000_0000), 0xFFFF_8000_FEE0_0000);
    assert_eq!(get_apic_base(0xFEE0_0FFF, 0), 0xFEE0_0000);
    assert_eq!(
        setup_apic_registers(),
        vec![(0xF0, 0x1FF), (0x3E0, 3), (0x320, 0x20020), (0x380, 10_000_000)]
    );
    assert_eq!(ioapic_route(1, 33), [(0x12, 33), (0x13, 0)]);
    assert_eq!(ioapic_route(0, 32), [(0x10, 32), (0x11, 0)]);
}

#[test]
fn tlb_shootdown_targets() {
    assert_eq!(
        broadcast_tlb_shootdown(0b1110),
        vec![
            ShootdownIpi { icr_high: 0x0100_0000, icr_low: 251 },
            ShootdownIpi { icr_high: 0x0200_0000, icr_low: 251 },
            ShootdownIpi { icr_high: 0x0300_0000, icr_low: 251 },
        ]
    );
    assert_eq!(broadcast_tlb_shootdown(0b0100), vec![ShootdownIpi { icr_high: 0x0200_0000, icr_low: 251 }]);
    assert_eq!(broadcast_tlb_shootdown(0b0001), vec![]);
    assert_eq!(broadcast_tlb_shootdown(0xF0), vec![]);
}

#[test]
fn iommu_and_cpu() {
    let mut table = IommuTable::new();
    assert!(!table.dma_allowed(0x10DE, 0xA000_0000));
    assert!(map_device_dma(&mut table, 0x10DE, 0xA000_0000));
    assert!(table.dma_allowed(0x10DE, 0xA000_0000));
    assert!(table.dma_allowed(0x10DE, 0xA01F_FFFF));
    assert!(!table.dma_allowed(0x10DE, 0xA020_0000));
    assert!(!table.dma_allowed(0x10DE, 0x9FFF_FFFF));
    assert!(!table.dma_allowed(0x1234, 0xA000_0000));
    assert!(map_device_dma(&mut table, 0x1234, 0x10_0000));
    assert!(map_device_dma(&mut table, 0x10DE, 0xB000_0000));
    assert!(!table.dma_allowed(0x10DE, 0xA000_0000));
    assert!(table.dma_allowed(0x10DE, 0xB000_0010));
    assert!(table.dma_allowed(0x1234, 0x10_0000));
    let _cpu: X86Cpu = X86Cpu::new();
}

#[test]
fn framebuffer_details_translate_direct_map() {
    assert_eq!(get_framebuffer_details(None, 0xFFFF_8000_0000_0000), None);
    let fb = FramebufferInfo { virt_addr: 0xFFFF_8000_FD00_0000, width: 1024, height: 768, pitch: 4096 };
    assert_eq!(get_framebuffer_details(Some(fb), 0xFFFF_8000_0000_0000), Some((0xFD00_0000, 1024, 768, 4096)));
    let low = FramebufferInfo { virt_addr: 0x1000, width: 640, height: 480, pitch: 2560 };
    assert_eq!(get_framebuffer_details(Some(low), 0xFFFF_8000_0000_0000), Some((0, 640, 480, 2560)));
}

#[test]
fn lockdown_and_batch_reports() {
    assert_eq!(
        lockdown_report(0x10DE, 0xA000_0000),
        b"\n[*] IOMMU: Locking down PCIe Device ID 0x10DE\n    -> Restricting DMA access to safe virtual region: 0xA0000000\n[+] Hardware Sandboxing Applied. Device is secured.\n".to_vec()
    );
    assert_eq!(batch_command_report(0x0000_DB60_0000_8060), b"    -> Action 0xDB60, Payload 0x8060\n".to_vec());
    assert_eq!(batch_command_report(0), b"    -> Action 0x0, Payload 0x0\n".to_vec());
}

#[test]
fn oversized_batches_are_refused() {
    assert_eq!(decode_syscall(SYS_BATCH_EXECUTE, 0x5000, u64::MAX / 8 + 1), SyscallRequest::Refused);
    assert_eq!(decode_syscall(SYS_BATCH_EXECUTE, 0x5000, u64::MAX), SyscallRequest::Refused);
}

#[test]
fn cr4_features_and_syscall_registers() {
    assert_eq!(features_cr4(0x20), 0x2_0620);
    assert_eq!(features_cr4(0x2_0620), 0x2_0620);
    let sel = kernel_selectors();
    let first = syscall_msrs(&sel, 0xD00, 0xFFFF_FFFF_8000_1234);
    assert_eq!(
        first,
        SyscallMsrs { efer: 0xD01, star: 0x0013_0008_0000_0000, lstar: 0xFFFF_FFFF_8000_1234, fmask: 0x200 }
    );
    // A second setup on the same core writes the same values again.
    assert_eq!(syscall_msrs(&sel, first.efer, 0xFFFF_FFFF_8000_1234), first);
}
