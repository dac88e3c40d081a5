pub mod elf;
pub mod loader;
pub mod scheduler;
pub mod thread;
