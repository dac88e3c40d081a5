[package]
name = "stardust"
version = "0.1.0"
edition = "2021"
publish = false

[dependencies]
lazy_static = { version = "=1.5.1", features = ["spin_no_std"] }
limine = "=0.5.0"
linked_list_allocator = "=0.10.6"
spin = "=0.12.3"
wasmi = { version = "=2.0.0", default-features = false, features = ["validate"] }
x86_64 = { version = "=0.14.13", default-features = false, features = ["instructions"] }
