[package]
name = "async_os"
version = "0.1.0"
edition = "2021"
publish = false

[dependencies]
bit_field = "0.10"
bitflags = "1.3"
spin = "0.9"
lazy_static = { version = "1.4", features = ["spin_no_std"] }
log = "0.4"
buddy_system_allocator = "*"
uart8250 = "*"
nb = "1"
array-init = "2"
