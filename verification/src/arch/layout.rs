//! Where things lie in the guest's address space.
use vstd::prelude::*;

verus! {

/// Start of the memory window for 32-bit devices.
pub const MEM_32BIT_DEVICES_START: u64 = 0xc000_0000;

/// Start of the PCI configuration space.
pub const PCI_MMCONFIG_START: u64 = 0xe800_0000;

/// PCI configuration space of one segment: one bus of 32 devices with 8
/// functions of 4 KiB each.
pub const PCI_MMIO_CONFIG_SIZE_PER_SEGMENT: u64 = 0x10_0000;

/// Start of the memory above 4 GiB.
pub const RAM_64BIT_START: u64 = 0x1_0000_0000;

} // verus!
