pub mod apic;
pub mod cpu;
pub mod gdt;
pub mod iommu;
pub mod syscall;
