//! A PCI segment: one bus, its configuration space and its resources.
use crate::arch::layout::PCI_MMIO_CONFIG_SIZE_PER_SEGMENT;
use crate::pci::bus::{PciBus, PciConfigIo, PciConfigMmio, PciRootError};
use crate::pci::device::{
    PciDevice, PciFunction, PciLpcBridge, PciQ35Ahci, PciQ35Smbus, PciRoot,
};
use crate::vmm::aml::AmlOp;
use crate::vmm::segment_aml::{make_segment_aml, SegmentLayout};
use vstd::prelude::*;

verus! {

/// First port of port-mapped configuration access.
pub const PCI_CONFIG_IO_PORT: u64 = 0xcf8;

/// Number of ports of port-mapped configuration access.
pub const PCI_CONFIG_IO_PORT_SIZE: u64 = 0x8;

/// Where q35 firmware looks for configuration space of the first segment.
pub const Q35_COMPAT_MMIO_CONFIG_ADDRESS: u64 = 0xe000_0000;

/// Device number of the ICH9 functions.
pub const ICH9_DEVICE_ID: u8 = 31;

/// Number of interrupt lines that PCI devices share.
pub const NUM_LEGACY_IRQS: usize = 8;

/// What can go wrong with a segment.
#[derive(Clone, Copy, Debug, PartialEq, Eq, Structural)]
pub enum DeviceManagerError {
    /// A device number could not be allocated.
    AllocatePciDeviceId(PciRootError),
    /// A device number could not be reserved.
    ReservePciDeviceId(PciRootError),
    /// A device could not be added to the bus.
    AddPciDevice(PciRootError),
    /// A window could not be added to a bus.
    BusError,
    /// There is no interrupt line left.
    AllocateIrq,
}

/// Address of a function: segment, bus, device and function.
#[derive(Clone, Copy, Debug, PartialEq, Eq, Structural)]
pub struct PciBdf(u32);

impl PciBdf {
    /// The parts of the address.
    pub closed spec fn parts(&self) -> (int, int, int, int) {
        (
            self.0 as int / 0x1_0000,
            self.0 as int / 0x100 % 0x100,
            self.0 as int / 8 % 32,
            self.0 as int % 8,
        )
    }

    /// An address. The device is taken modulo 32, the function modulo 8.
    pub fn new(segment: u16, bus: u8, device: u8, function: u8) -> (r: Self)
        ensures
            r.parts() == (segment as int, bus as int, device as int % 32, function as int % 8),
    {
        let device: u32 = device as u32 % 32;
        let function: u32 = function as u32 % 8;
        let x: u32 = 0x1_0000 * segment as u32 + 0x100 * bus as u32 + 8 * device + function;
        assert(x / 8 == 0x2000 * segment + 32 * bus + device);
        assert(x / 0x100 == 0x100 * segment + bus);
        assert(x / 0x1_0000 == segment);
        PciBdf(x)
    }

    pub fn segment(&self) -> (r: u16)
        ensures
            r == self.parts().0,
    {
        (self.0 / 0x1_0000) as u16
    }

    pub fn bus(&self) -> (r: u8)
        ensures
            r == self.parts().1,
    {
        (self.0 / 0x100 % 0x100) as u8
    }

    pub fn device(&self) -> (r: u8)
        ensures
            r == self.parts().2,
    {
        (self.0 / 8 % 32) as u8
    }

    pub fn function(&self) -> (r: u8)
        ensures
            r == self.parts().3,
    {
        (self.0 % 8) as u8
    }
}

/// A PCI segment.
pub struct PciSegment<D> {
    pub id: u16,
    pub pci_bus: PciBus<PciFunction<D>>,
    pub pci_config_mmio: PciConfigMmio,
    pub mmio_config_address: u64,
    pub proximity_domain: u32,
    /// Port-mapped access; only the default segment has it.
    pub pci_config_io: Option<PciConfigIo>,
    /// Bitmap of devices to plug in.
    pub pci_devices_up: u32,
    /// Bitmap of devices to unplug.
    pub pci_devices_down: u32,
    /// Interrupt line of each device.
    pub pci_irq_slots: [u8; 32],
    /// First and last address of the memory below 4 GiB.
    pub start_of_mem32_area: u64,
    pub end_of_mem32_area: u64,
    /// First and last address of the memory above.
    pub start_of_mem64_area: u64,
    pub end_of_mem64_area: u64,
}

/// A range of addresses that a device manager hands out.
#[derive(Clone, Copy, Debug, PartialEq, Eq, Structural)]
pub struct AddressRange {
    pub base: u64,
    pub end: u64,
}

/// A window to add to a bus of the machine: the port bus or the memory bus.
#[derive(Clone, Copy, Debug, PartialEq, Eq, Structural)]
pub struct BusWindow {
    pub port_bus: bool,
    pub addr: u64,
    pub size: u64,
}

/// The windows of a segment's configuration space in memory, in the order in
/// which they are added. The first segment of a q35 machine is also at the
/// address where firmware expects it.
pub open spec fn config_windows(id: u16, base: u64, q35_host_bridge: bool) -> Seq<BusWindow> {
    let addr = (base + 0x10_0000 * id) as u64;
    let own = BusWindow { port_bus: false, addr, size: 0x10_0000 };
    if q35_host_bridge && id == 0 && addr != Q35_COMPAT_MMIO_CONFIG_ADDRESS {
        seq![
            own,
            BusWindow { port_bus: false, addr: Q35_COMPAT_MMIO_CONFIG_ADDRESS, size: 0x10_0000 },
        ]
    } else {
        seq![own]
    }
}

/// The window of port-mapped configuration access.
pub open spec fn port_window() -> BusWindow {
    BusWindow { port_bus: true, addr: PCI_CONFIG_IO_PORT, size: PCI_CONFIG_IO_PORT_SIZE }
}

/// State of the device numbers of a new bus.
pub open spec fn fresh_ids(ich9: bool) -> Seq<crate::pci::bus::DeviceIdState> {
    Seq::new(
        32,
        |i: int|
            if i == 0 || (ich9 && i == 31) {
                crate::pci::bus::DeviceIdState::Allocated
            } else {
                crate::pci::bus::DeviceIdState::Free
            },
    )
}

/// Whether a function is a fresh host bridge of a kind.
pub open spec fn is_host_bridge<D>(f: PciFunction<D>, q35: bool) -> bool {
    match f {
        PciFunction::Root(d) => if q35 {
            &&& d.config.registers@ == crate::pci::device::q35_registers()
            &&& d.config.writable_bits@ == crate::pci::device::q35_writable()
        } else {
            &&& d.config.registers@ == crate::pci::device::virt_registers()
            &&& d.config.writable_bits@ == crate::pci::configuration::header_writable()
        },
        _ => false,
    }
}

/// Whether functions are the fresh bridge, SATA and SMBus controllers of an
/// ICH9.
pub open spec fn are_ich9_functions<D>(
    lpc: PciFunction<D>,
    ahci: PciFunction<D>,
    smbus: PciFunction<D>,
) -> bool {
    match (lpc, ahci, smbus) {
        (PciFunction::Lpc(l), PciFunction::Ahci(a), PciFunction::Smbus(s)) => {
            &&& l.config.registers@ == crate::pci::device::lpc_registers()
            &&& l.config.writable_bits@ == crate::pci::device::lpc_writable()
            &&& a.config.registers@ == crate::pci::device::ahci_registers()
            &&& a.config.writable_bits@ == crate::pci::configuration::header_writable()
            &&& s.config.registers@ == crate::pci::device::smbus_registers()
            &&& s.config.writable_bits@ == crate::pci::configuration::header_writable()
        },
        _ => false,
    }
}

/// What allocating a device number on a segment leads to: the states of the
/// numbers after it, and the answer.
pub open spec fn gives_number(
    ids: Seq<crate::pci::bus::DeviceIdState>,
    after: Seq<crate::pci::bus::DeviceIdState>,
    segment: u16,
    device_id: Option<u8>,
    r: Result<PciBdf, DeviceManagerError>,
) -> bool {
    let choice = match device_id {
        Some(id) => id as int,
        None => crate::pci::bus::first_free(ids, 0),
    };
    let refusal = match device_id {
        Some(id) => if id >= 32 {
            Some(PciRootError::InvalidPciDeviceSlot(id as usize))
        } else if ids[id as int] == crate::pci::bus::DeviceIdState::Allocated {
            Some(PciRootError::AlreadyInUsePciDeviceSlot(id as usize))
        } else {
            None
        },
        None => if choice == 32 {
            Some(PciRootError::NoPciDeviceSlotAvailable)
        } else {
            None
        },
    };
    match refusal {
        Some(e) => {
            &&& r == Err::<PciBdf, DeviceManagerError>(DeviceManagerError::AllocatePciDeviceId(e))
            &&& after == ids
        },
        None => {
            &&& r is Ok
            &&& r->Ok_0.parts() == (segment as int, 0int, choice, 0int)
            &&& after == ids.update(choice, crate::pci::bus::DeviceIdState::Allocated)
        },
    }
}

impl<D: PciDevice> PciSegment<D> {
    /// What every segment keeps.
    pub open spec fn wf(&self) -> bool {
        self.pci_bus.wf()
    }

    /// What a new segment is, apart from its functions.
    pub open spec fn is_new(
        &self,
        id: u16,
        numa_node: u32,
        mem32: AddressRange,
        mem64: AddressRange,
        base: u64,
        irqs: Seq<u8>,
    ) -> bool {
        &&& self.id == id
        &&& self.mmio_config_address == base + 0x10_0000 * id
        &&& self.proximity_domain == numa_node
        &&& self.pci_devices_up == 0
        &&& self.pci_devices_down == 0
        &&& self.pci_irq_slots@ == irqs
        &&& self.start_of_mem32_area == mem32.base
        &&& self.end_of_mem32_area == mem32.end
        &&& self.start_of_mem64_area == mem64.base
        &&& self.end_of_mem64_area == mem64.end
    }

    /// Which functions a new segment has: a host bridge and, on the first
    /// segment of a q35 machine, the ICH9 functions as device 31.
    pub open spec fn has_new_functions(&self, q35_host_bridge: bool) -> bool {
        let ich9 = q35_host_bridge && self.id == 0;
        let f = self.pci_bus.functions();
        &&& self.pci_bus.ids() == fresh_ids(ich9)
        &&& is_host_bridge(f[0], q35_host_bridge)
        &&& if ich9 {
            &&& self.pci_bus.devices() == Map::<u8, usize>::empty().insert(0, 0).insert(
                248,
                1,
            ).insert(250, 2).insert(251, 3)
            &&& f.len() == 4
            &&& are_ich9_functions(f[1], f[2], f[3])
        } else {
            &&& self.pci_bus.devices() == Map::<u8, usize>::empty().insert(0, 0)
            &&& f.len() == 1
        }
    }

    /// A segment, and the windows to add for it.
    pub fn new(
        id: u16,
        numa_node: u32,
        mem32: AddressRange,
        mem64: AddressRange,
        mmio_config_base: u64,
        q35_host_bridge: bool,
        pci_irq_slots: &[u8; 32],
    ) -> (r: (Self, Vec<BusWindow>))
        requires
            mmio_config_base + 0x10_0000 * id <= u64::MAX,
        ensures
            r.0.wf(),
            r.0.is_new(id, numa_node, mem32, mem64, mmio_config_base, pci_irq_slots@),
            r.0.has_new_functions(q35_host_bridge),
            r.0.pci_config_io is None,
            r.1@ == config_windows(id, mmio_config_base, q35_host_bridge),
    {
        let pci_root: PciRoot = if q35_host_bridge {
            PciRoot::new_q35()
        } else {
            PciRoot::new(None)
        };
        let mut pci_bus: PciBus<PciFunction<D>> = PciBus::new(PciFunction::Root(pci_root));
        assert(pci_bus.ids() =~= fresh_ids(false));
        if q35_host_bridge && id == 0 {
            let _ = pci_bus.allocate_device_id(Some(ICH9_DEVICE_ID));
            assert(pci_bus.ids() =~= fresh_ids(true));
            let lpc: usize = pci_bus.register(PciFunction::Lpc(PciLpcBridge::new_ich9()));
            let _ = pci_bus.add_device(ICH9_DEVICE_ID, lpc);
            let ahci: usize = pci_bus.register(PciFunction::Ahci(PciQ35Ahci::new()));
            let _ = pci_bus.add_device_function(ICH9_DEVICE_ID, 2, ahci);
            let smbus: usize = pci_bus.register(PciFunction::Smbus(PciQ35Smbus::new()));
            let _ = pci_bus.add_device_function(ICH9_DEVICE_ID, 3, smbus);
        }
        let mmio_config_address: u64 = mmio_config_base + PCI_MMIO_CONFIG_SIZE_PER_SEGMENT
            * id as u64;
        let mut windows: Vec<BusWindow> = Vec::new();
        windows.push(
            BusWindow {
                port_bus: false,
                addr: mmio_config_address,
                size: PCI_MMIO_CONFIG_SIZE_PER_SEGMENT,
            },
        );
        if q35_host_bridge && id == 0 && mmio_config_address != Q35_COMPAT_MMIO_CONFIG_ADDRESS {
            windows.push(
                BusWindow {
                    port_bus: false,
                    addr: Q35_COMPAT_MMIO_CONFIG_ADDRESS,
                    size: PCI_MMIO_CONFIG_SIZE_PER_SEGMENT,
                },
            );
        }
        assert(windows@ =~= config_windows(id, mmio_config_base, q35_host_bridge));
        let segment: PciSegment<D> = PciSegment {
            id,
            pci_bus,
            pci_config_mmio: PciConfigMmio::new(),
            mmio_config_address,
            proximity_domain: numa_node,
            pci_config_io: None,
            pci_devices_up: 0,
            pci_devices_down: 0,
            pci_irq_slots: *pci_irq_slots,
            start_of_mem32_area: mem32.base,
            end_of_mem32_area: mem32.end,
            start_of_mem64_area: mem64.base,
            end_of_mem64_area: mem64.end,
        };
        (segment, windows)
    }

    /// The default segment, which can also be reached through ports.
    pub fn new_default_segment(
        mem32: AddressRange,
        mem64: AddressRange,
        mmio_config_base: u64,
        q35_host_bridge: bool,
        pci_irq_slots: &[u8; 32],
    ) -> (r: (Self, Vec<BusWindow>))
        ensures
            r.0.wf(),
            r.0.is_new(0, 0, mem32, mem64, mmio_config_base, pci_irq_slots@),
            r.0.has_new_functions(q35_host_bridge),
            r.0.pci_config_io == Some(PciConfigIo { config_address: 0 }),
            r.1@ == config_windows(0, mmio_config_base, q35_host_bridge).push(port_window()),
    {
        let (mut segment, mut windows): (Self, Vec<BusWindow>) = Self::new(
            0,
            0,
            mem32,
            mem64,
            mmio_config_base,
            q35_host_bridge,
            pci_irq_slots,
        );
        windows.push(
            BusWindow {
                port_bus: true,
                addr: PCI_CONFIG_IO_PORT,
                size: PCI_CONFIG_IO_PORT_SIZE,
            },
        );
        segment.pci_config_io = Some(PciConfigIo::new());
        (segment, windows)
    }

    /// A segment that is attached to no bus of the machine.
    pub fn new_without_address_manager(
        id: u16,
        numa_node: u32,
        mem32: AddressRange,
        mem64: AddressRange,
        mmio_config_base: u64,
        pci_irq_slots: &[u8; 32],
    ) -> (r: Self)
        requires
            mmio_config_base + 0x10_0000 * id <= u64::MAX,
        ensures
            r.wf(),
            r.is_new(id, numa_node, mem32, mem64, mmio_config_base, pci_irq_slots@),
            r.has_new_functions(false),
            r.pci_config_io is None,
    {
        let (segment, _): (Self, Vec<BusWindow>) = Self::new(
            id,
            numa_node,
            mem32,
            mem64,
            mmio_config_base,
            false,
            pci_irq_slots,
        );
        segment
    }

    /// Reserves a device number, so that automatic allocation skips it.
    pub fn reserve_device_id(&mut self, device_id: u8) -> (r: Result<(), DeviceManagerError>)
        requires
            old(self).wf(),
        ensures
            final(self).wf(),
            *final(self) == (PciSegment { pci_bus: final(self).pci_bus, ..*old(self) }),
            final(self).pci_bus.devices() == old(self).pci_bus.devices(),
            final(self).pci_bus.functions() == old(self).pci_bus.functions(),
            if device_id >= 32 {
                &&& r == Err::<(), DeviceManagerError>(
                    DeviceManagerError::ReservePciDeviceId(
                        PciRootError::InvalidPciDeviceSlot(device_id as usize),
                    ),
                )
                &&& final(self).pci_bus.ids() == old(self).pci_bus.ids()
            } else if old(self).pci_bus.ids()[device_id as int]
                != crate::pci::bus::DeviceIdState::Free {
                &&& r == Err::<(), DeviceManagerError>(
                    DeviceManagerError::ReservePciDeviceId(
                        PciRootError::AlreadyInUsePciDeviceSlot(device_id as usize),
                    ),
                )
                &&& final(self).pci_bus.ids() == old(self).pci_bus.ids()
            } else {
                &&& r is Ok
                &&& final(self).pci_bus.ids() == old(self).pci_bus.ids().update(
                    device_id as int,
                    crate::pci::bus::DeviceIdState::Reserved,
                )
            },
    {
        match self.pci_bus.reserve_device_id(device_id) {
            Ok(_) => Ok(()),
            Err(e) => Err(DeviceManagerError::ReservePciDeviceId(e)),
        }
    }

    /// Allocates a device number: the given one, or the lowest free one.
    pub fn allocate_device_id(&mut self, device_id: Option<u8>) -> (r: Result<
        PciBdf,
        DeviceManagerError,
    >)
        requires
            old(self).wf(),
        ensures
            final(self).wf(),
            *final(self) == (PciSegment { pci_bus: final(self).pci_bus, ..*old(self) }),
            final(self).pci_bus.devices() == old(self).pci_bus.devices(),
            final(self).pci_bus.functions() == old(self).pci_bus.functions(),
            gives_number(
                old(self).pci_bus.ids(),
                final(self).pci_bus.ids(),
                old(self).id,
                device_id,
                r,
            ),
    {
        proof {
            crate::pci::bus::allocation_takes_the_lowest_free(self.pci_bus.ids());
        }
        match self.pci_bus.allocate_device_id(device_id) {
            Ok(device) => Ok(PciBdf::new(self.id, 0, device, 0)),
            Err(e) => Err(DeviceManagerError::AllocatePciDeviceId(e)),
        }
    }

    /// Assigns an interrupt line to each device. Eight lines are shared by all
    /// devices; `irqs` holds those that were to be had.
    pub fn reserve_legacy_interrupts_for_pci_devices(
        irqs: &Vec<u32>,
        pci_irq_slots: &mut [u8; 32],
    ) -> (r: Result<(), DeviceManagerError>)
        ensures
            if irqs@.len() < NUM_LEGACY_IRQS {
                &&& r == Err::<(), DeviceManagerError>(DeviceManagerError::AllocateIrq)
                &&& *final(pci_irq_slots) == *old(pci_irq_slots)
            } else {
                &&& r is Ok
                &&& final(pci_irq_slots)@ == shared_lines(irqs@)
            },
    {
        if irqs.len() < NUM_LEGACY_IRQS {
            return Err(DeviceManagerError::AllocateIrq);
        }
        let mut i: usize = 0;
        while i < 32
            invariant
                i <= 32,
                irqs@.len() >= 8,
                forall|k: int| 0 <= k < i ==> pci_irq_slots@[k] == shared_lines(irqs@)[k],
            decreases 32 - i,
        {
            pci_irq_slots[i] = (irqs[i % NUM_LEGACY_IRQS] % 0x100) as u8;
            i = i + 1;
        }
        assert(pci_irq_slots@ =~= shared_lines(irqs@));
        Ok(())
    }

    /// What the segment's description depends on.
    pub open spec fn layout(&self) -> SegmentLayout {
        SegmentLayout {
            id: self.id,
            proximity_domain: self.proximity_domain,
            config: self.mmio_config_address,
            mem32: (self.start_of_mem32_area, self.end_of_mem32_area),
            mem64: (self.start_of_mem64_area, self.end_of_mem64_area),
            irqs: self.pci_irq_slots,
        }
    }

    /// Describes the segment to the guest. Its number has to fit the two
    /// digits of its name.
    pub fn to_aml(&self) -> (r: Vec<AmlOp>)
        requires
            self.id <= 0xff,
        ensures
            r@ == crate::vmm::segment_aml::segment_aml(self.layout()),
    {
        make_segment_aml(
            &SegmentLayout {
                id: self.id,
                proximity_domain: self.proximity_domain,
                config: self.mmio_config_address,
                mem32: (self.start_of_mem32_area, self.end_of_mem32_area),
                mem64: (self.start_of_mem64_area, self.end_of_mem64_area),
                irqs: self.pci_irq_slots,
            },
        )
    }
}

/// Interrupt lines of the 32 devices, which share eight in turn. A line is
/// known by its low byte.
pub open spec fn shared_lines(irqs: Seq<u32>) -> Seq<u8> {
    Seq::new(32, |i: int| (irqs[i % 8] % 0x100) as u8)
}

/// Interrupt line behind the link that the routing table names for a pin of a
/// device.
pub open spec fn routed_line(slots: Seq<u8>, device: int, pin: int) -> u8 {
    slots[(device + pin) % 4]
}

/// The link that the routing table names for a pin is described with that
/// line.
pub proof fn route_leads_to_its_line(slots: Seq<u8>, device: int, pin: int)
    requires
        0 <= device < 32,
        0 <= pin < 4,
    ensures
        ({
            let k = (device + pin) % 4;
            crate::vmm::segment_aml::link_devices(slots).subrange(29 * k, 29 * k + 29)
                == crate::vmm::segment_aml::link_device(
                crate::vmm::segment_aml::link_name(device + pin),
                routed_line(slots, device, pin) as u32,
            )
        }),
{
    let k = (device + pin) % 4;
    let all = crate::vmm::segment_aml::link_devices(slots);
    let a = crate::vmm::segment_aml::link_device("LNKA", slots[0] as u32);
    let b = crate::vmm::segment_aml::link_device("LNKB", slots[1] as u32);
    let c = crate::vmm::segment_aml::link_device("LNKC", slots[2] as u32);
    let d = crate::vmm::segment_aml::link_device("LNKD", slots[3] as u32);
    assert(a.len() == 29 && b.len() == 29 && c.len() == 29 && d.len() == 29);
    if k == 0 {
        assert(all.subrange(29 * k, 29 * k + 29) =~= a);
    } else if k == 1 {
        assert(all.subrange(29 * k, 29 * k + 29) =~= b);
    } else if k == 2 {
        assert(all.subrange(29 * k, 29 * k + 29) =~= c);
    } else {
        assert(all.subrange(29 * k, 29 * k + 29) =~= d);
    }
}

/// The line that the routing table names for the first pin of a device is the
/// one the device was assigned, for the devices that share the first four
/// lines.
pub proof fn first_pin_has_the_assigned_line(irqs: Seq<u32>, device: int)
    requires
        0 <= device < 32,
        device % 8 < 4,
    ensures
        routed_line(shared_lines(irqs), device, 0) == shared_lines(irqs)[device],
{
    assert(device % 4 == device % 8);
}

/// Every line that the routing table names is one of those that were
/// reserved.
pub proof fn routed_lines_were_reserved(irqs: Seq<u32>, device: int, pin: int)
    requires
        irqs.len() >= 8,
        0 <= device < 32,
        0 <= pin < 4,
    ensures
        exists|k: int|
            0 <= k < 4 && routed_line(shared_lines(irqs), device, pin) == (#[trigger] irqs[k]
                % 0x100) as u8,
{
    let k = (device + pin) % 4;
    assert(routed_line(shared_lines(irqs), device, pin) == (irqs[k] % 0x100) as u8);
}

/// Configuration spaces of different segments do not overlap.
pub proof fn segments_do_not_overlap(base: int, a: int, b: int)
    requires
        0 <= a < b,
    ensures
        base + PCI_MMIO_CONFIG_SIZE_PER_SEGMENT * a + PCI_MMIO_CONFIG_SIZE_PER_SEGMENT <= base
            + PCI_MMIO_CONFIG_SIZE_PER_SEGMENT * b,
{
}

/// What a guest reads of a register at a position of a new segment: one of the
/// built-in functions, or ones if there is none.
pub open spec fn reads_at<D: PciDevice>(
    bus: PciBus<PciFunction<D>>,
    target: Option<(u8, int)>,
) -> u32 {
    match target {
        Some((k, reg)) if bus.devices().contains_key(k) => match bus.functions()[bus.devices()[k] as int] {
            PciFunction::Root(d) => d.config.reg(reg),
            PciFunction::Lpc(d) => d.config.reg(reg),
            PciFunction::Ahci(d) => d.config.reg(reg),
            PciFunction::Smbus(d) => d.config.reg(reg),
            PciFunction::Other(_) => 0,
        },
        _ => 0xffff_ffff,
    }
}

/// A guest that looks for devices in the configuration space of a new segment
/// finds the host bridge at 00.0, and on the first segment of a q35 machine the
/// bridge, SATA and SMBus functions of the chipset at 1f.0, 1f.2 and 1f.3, each
/// by its identifiers and class, and nothing anywhere else.
pub proof fn guest_finds_the_built_in_functions<D: PciDevice>(
    s: PciSegment<D>,
    q35: bool,
    device: u32,
    function: u32,
)
    requires
        s.wf(),
        s.has_new_functions(q35),
        device < 32,
        function < 8,
    ensures
        ({
            let base = device * 0x8000 + function * 0x1000;
            let ids = reads_at(s.pci_bus, PciConfigMmio::target(base as u32));
            let class = reads_at(s.pci_bus, PciConfigMmio::target((base + 8) as u32));
            let ich9 = q35 && s.id == 0 && device == 31;
            if device == 0 && function == 0 {
                ids == (if q35 {
                    0x29c0_8086u32
                } else {
                    0x0d57_8086u32
                }) && class == 0x0600_0000
            } else if ich9 && function == 0 {
                ids == 0x2918_8086 && class == 0x0601_0002
            } else if ich9 && function == 2 {
                ids == 0x2922_8086 && class == 0x0106_0102
            } else if ich9 && function == 3 {
                ids == 0x2930_8086 && class == 0x0c05_0002
            } else {
                ids == 0xffff_ffff && class == 0xffff_ffff
            }
        }),
{
    crate::pci::bus::both_ways_lead_to_the_same_register(device, function, 0);
    crate::pci::bus::both_ways_lead_to_the_same_register(device, function, 2);
    let k = crate::pci::bus::slot(device as int, function as int);
    assert(k == 8 * device + function);
    assert(device * 0x8000 + function * 0x1000 + 2u32 * 4 == device * 0x8000 + function * 0x1000 + 8);
}

/// The memory windows of a segment are a mebibyte of its own, counted from the
/// base, and for the first segment of a q35 machine also the mebibyte at
/// 0xe000_0000. The ports are 0xcf8 to 0xcff.
pub proof fn windows_are_where_they_belong(id: u16, base: u64, q35: bool, x: int)
    requires
        base + 0x10_0000 * id + 0x10_0000 <= u64::MAX,
    ensures
        ({
            let w = config_windows(id, base, q35);
            (exists|i: int|
                0 <= i < w.len() && !(#[trigger] w[i]).port_bus && w[i].addr <= x < w[i].addr
                    + w[i].size) <==> {
                ||| base + 0x10_0000 * id <= x < base + 0x10_0000 * id + 0x10_0000
                ||| q35 && id == 0 && 0xe000_0000 <= x < 0xe010_0000
            }
        }),
        forall|i: int|
            0 <= i < config_windows(id, base, q35).len() ==> !(#[trigger] config_windows(
                id,
                base,
                q35,
            )[i]).port_bus,
        port_window().port_bus,
        port_window().addr == 0xcf8 && port_window().addr + port_window().size == 0xd00,
{
    let w = config_windows(id, base, q35);
    assert(w[0].addr == base + 0x10_0000 * id && w[0].size == 0x10_0000);
    if w.len() == 2 {
        assert(w[1].addr == 0xe000_0000 && w[1].size == 0x10_0000);
    }
}

/// The 32 devices share the first eight lines in turn.
pub proof fn lines_come_in_turn(irqs: Seq<u32>, device: int)
    requires
        irqs.len() >= 8,
        0 <= device < 32,
    ensures
        shared_lines(irqs).len() == 32,
        device < 8 ==> shared_lines(irqs)[device] == irqs[device] % 0x100,
        device >= 8 ==> shared_lines(irqs)[device] == shared_lines(irqs)[device - 8],
{
    assert(device >= 8 ==> device % 8 == (device - 8) % 8);
}

/// A device number on a segment is one that its bus gives out, and the address
/// that comes with it is function 0 of that device, on bus 0 of that segment.
pub proof fn numbers_come_from_the_bus(
    ids: Seq<crate::pci::bus::DeviceIdState>,
    after: Seq<crate::pci::bus::DeviceIdState>,
    segment: u16,
    device_id: Option<u8>,
    r: Result<PciBdf, DeviceManagerError>,
)
    requires
        ids.len() == 32,
        gives_number(ids, after, segment, device_id, r),
    ensures
        r matches Ok(bdf) ==> {
            &&& bdf.parts().0 == segment && bdf.parts().1 == 0 && bdf.parts().3 == 0
            &&& 0 <= bdf.parts().2 < 32
            &&& crate::pci::bus::allocates(ids, after, device_id, Ok(bdf.parts().2 as u8))
        },
        r matches Err(e) ==> e matches DeviceManagerError::AllocatePciDeviceId(cause)
            && crate::pci::bus::allocates(ids, after, device_id, Err(cause)),
{
    crate::pci::bus::allocation_takes_the_lowest_free(ids);
}

} // verus!
