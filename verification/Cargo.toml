[package]
name = "naos_linux"
version = "0.1.0"
edition = "2021"
publish = false

[dependencies]
anyhow = "=1.0.104"
clap = { version = "=4.6.7", features = ["derive"] }
kvm-bindings = { version = "=0.14.2", features = ["fam-wrappers"] }
kvm-ioctls = "=0.25.1"
libc = "=0.2.191"
linux-loader = { version = "=0.13.2", features = ["elf", "bzimage"] }
vm-memory = { version = "=0.17.1", features = ["backend-mmap"] }
vm-superio = "=0.8.2"
vmm-sys-util = "=0.15.0"
