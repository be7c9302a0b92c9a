[package]
name = "tdx_q35"
version = "0.1.0"
edition = "2021"
publish = false

[dependencies]
acpi_tables = "*"
anyhow = "*"
byteorder = "*"
igvm = "*"
igvm_defs = "*"
kvm-bindings = { version = "*", features = ["fam-wrappers"] }
kvm-ioctls = "*"
libc = "*"
linux-loader = { version = "*", features = ["bzimage", "elf"] }
log = "*"
serde = { version = "1", features = ["derive"] }
thiserror = "*"
uuid = "1"
vfio-ioctls = "*"
vm-memory = { version = "*", features = ["backend-mmap", "backend-atomic", "backend-bitmap"] }
vmm-sys-util = "*"
