//! Kinds of memory and devices.
use vstd::prelude::*;

verus! {

/// Smallest page size.
pub const PAGE_SIZE: usize = 4096;

/// What a range of guest memory is for.
#[derive(Clone, Copy, Debug, PartialEq, Eq, Structural)]
pub enum RegionType {
    /// Memory.
    Ram,
    /// Part of a region that is managed separately, such as the hole below
    /// 4 GiB.
    SubRegion,
    /// A range to allocate nothing in.
    Reserved,
}

/// Devices that can be attached to the platform.
#[derive(Clone, Copy, Debug, PartialEq, Eq, Hash, Structural)]
pub enum DeviceType {
    /// A virtio device of a given type.
    Virtio(u32),
    Serial,
    Rtc,
    Gpio,
    FwCfg,
}

/// Where a memory-mapped device lies and how it interrupts.
#[derive(Clone, Copy, Debug, PartialEq, Eq, Structural)]
pub struct MmioDeviceInfo {
    pub addr: u64,
    pub len: u64,
    pub irq: u32,
}

impl MmioDeviceInfo {
    pub fn addr(&self) -> (r: u64)
        ensures
            r == self.addr,
    {
        self.addr
    }

    pub fn irq(&self) -> (r: u32)
        ensures
            r == self.irq,
    {
        self.irq
    }

    pub fn length(&self) -> (r: u64)
        ensures
            r == self.len,
    {
        self.len
    }
}

/// Where a PCI segment lies.
#[derive(Clone, Copy, Debug, PartialEq, Eq, Structural)]
pub struct PciSpaceInfo {
    pub pci_segment_id: u16,
    pub mmio_config_address: u64,
    pub pci_device_space_start: u64,
    pub pci_device_space_size: u64,
}

} // verus!
