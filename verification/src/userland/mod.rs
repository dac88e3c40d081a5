pub mod elf;
pub mod hid;
pub mod initrc;
pub mod ipc;
pub mod marshal;
pub mod pci;
pub mod tar;
pub mod ui;
