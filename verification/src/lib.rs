//! Q35 platform and Intel TDX support logic of a virtual machine monitor.
//!
//! Device models, firmware tables, memory bookkeeping and the decisions taken
//! around the KVM interface live here as pure, verified state machines. Time,
//! file descriptors, guest memory and ioctls are handed in and out as plain
//! values by the embedding program.
pub mod arch;
pub mod bytes;
pub mod devices;
pub mod kvm;
pub mod memory;
pub mod pci;
pub mod vmm;
