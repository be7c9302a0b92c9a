//! PCI bus, its functions and segments.
use tdx_q35::pci::bus::{
    BarMapping, PciBus, PciConfigIo, PciConfigMmio, PciRootError, NUM_DEVICE_IDS,
};
use tdx_q35::pci::device::{
    BarReprogrammingParams, PciBarConfiguration, PciBarRegionType, PciDevice, PciFunction,
    PciLpcBridge, PciQ35Ahci, PciQ35Smbus, PciRoot,
};
use tdx_q35::vmm::aml::{mixed_endian_buffer, uuid_buffer, AmlName, AmlOp};
use tdx_q35::vmm::pci_segment::{
    AddressRange, BusWindow, DeviceManagerError, PciBdf, PciSegment,
};

fn setup_bus() -> PciBus<PciRoot> {
    PciBus::new(PciRoot::new(None))
}

#[test]
// Test to acquire all IDs that can be acquired
fn allocate_device_id_next_free() {
    // The first address is occupied by the root
    let mut bus = setup_bus();
    for expected_id in 1..NUM_DEVICE_IDS {
        assert_eq!(expected_id, bus.allocate_device_id(None).unwrap());
    }
}

#[test]
// Test that requesting specific ID work
fn allocate_device_id_request_id() {
    // The first address is occupied by the root
    let mut bus = setup_bus();
    let max_id = NUM_DEVICE_IDS - 1;
    assert_eq!(0x01_u8, bus.allocate_device_id(Some(0x01)).unwrap());
    assert_eq!(0x10_u8, bus.allocate_device_id(Some(0x10)).unwrap());
    assert_eq!(max_id, bus.allocate_device_id(Some(max_id)).unwrap());
}

#[test]
// Test that reserved IDs are skipped by automatic allocation
fn allocate_device_id_fills_gaps() {
    // The first address is occupied by the root
    let mut bus = setup_bus();
    bus.reserve_device_id(0x01).unwrap();
    bus.reserve_device_id(0x03).unwrap();
    bus.reserve_device_id(0x06).unwrap();
    assert_eq!(0x02_u8, bus.allocate_device_id(None).unwrap());
    assert_eq!(0x04_u8, bus.allocate_device_id(None).unwrap());
    assert_eq!(0x05_u8, bus.allocate_device_id(None).unwrap());
    assert_eq!(0x07_u8, bus.allocate_device_id(None).unwrap());
}

#[test]
// Test that reserving the same ID twice fails
fn reserve_device_id_twice_fails() {
    let mut bus = setup_bus();
    let max_id = NUM_DEVICE_IDS - 1;
    bus.reserve_device_id(max_id).unwrap();
    let result = bus.reserve_device_id(max_id);
    assert!(matches!(
        result,
        Err(PciRootError::AlreadyInUsePciDeviceSlot(x)) if x == usize::from(max_id),
    ));
}

#[test]
// Test that allocating a previously reserved ID succeeds (idempotent)
fn allocate_device_id_after_reserve() {
    let mut bus = setup_bus();
    bus.reserve_device_id(0x10).unwrap();
    assert_eq!(0x10_u8, bus.allocate_device_id(Some(0x10)).unwrap());
}

#[test]
// Test to request an invalid ID
fn allocate_device_id_request_invalid_id_fails() {
    let mut bus = setup_bus();
    let max_id = NUM_DEVICE_IDS + 1;
    let result = bus.allocate_device_id(Some(max_id));
    assert!(matches!(
        result,
        Err(PciRootError::InvalidPciDeviceSlot(x)) if x == usize::from(max_id),
    ));
}

#[test]
// Test to acquire an ID when all IDs were already acquired
fn allocate_device_id_none_left() {
    // The first address is occupied by the root
    let mut bus = setup_bus();
    for expected_id in 1..NUM_DEVICE_IDS {
        assert_eq!(expected_id, bus.allocate_device_id(None).unwrap());
    }
    let result = bus.allocate_device_id(None);
    assert!(matches!(result, Err(PciRootError::NoPciDeviceSlotAvailable)));
}

fn setup() -> PciSegment<PciRoot> {
    let guest_addr = 0_u64;
    let guest_size = 0x1000_u64;
    let range = AddressRange { base: guest_addr, end: guest_addr + guest_size - 1 };
    let arr = [0_u8; 32];
    PciSegment::new_without_address_manager(
        0,
        0,
        range,
        range,
        tdx_q35::arch::layout::PCI_MMCONFIG_START,
        &arr,
    )
}

#[test]
// Test the default device ID for a segment with an empty bus (except for the root device).
fn allocate_device_id_default() {
    // The first address is occupied by the root
    let mut segment = setup();
    let bdf = segment.allocate_device_id(None).unwrap();
    assert_eq!(bdf.segment(), segment.id);
    assert_eq!(bdf.bus(), 0);
    assert_eq!(bdf.device(), 1);
    assert_eq!(bdf.function(), 0);
}

#[test]
// Test to acquire a specific device ID
fn allocate_device_id_fixed_device_id() {
    // The first address is occupied by the root
    let expect_device_id = 0x10_u8;
    let mut segment = setup();
    let bdf = segment.allocate_device_id(Some(expect_device_id)).unwrap();
    assert_eq!(bdf.segment(), segment.id);
    assert_eq!(bdf.bus(), 0);
    assert_eq!(bdf.device(), expect_device_id);
    assert_eq!(bdf.function(), 0);
}

#[test]
// Test that reserving an already taken device ID fails and that
// allocating an out-of-range device ID fails.
fn allocate_device_id_invalid_device_id() {
    // The first address is occupied by the root
    let already_taken_device_id = 0x0_u8;
    let overflow_device_id = 0xff_u8;
    let mut segment = setup();
    let bdf_res = segment.reserve_device_id(already_taken_device_id);
    assert!(matches!(
        bdf_res,
        Err(DeviceManagerError::ReservePciDeviceId(e)) if matches!(
            e,
            PciRootError::AlreadyInUsePciDeviceSlot(0x0)
        )
    ));
    let bdf_res = segment.allocate_device_id(Some(overflow_device_id));
    assert!(matches!(
        bdf_res,
        Err(DeviceManagerError::AllocatePciDeviceId(e)) if matches!(
            e,
            PciRootError::InvalidPciDeviceSlot(0xff)
        )
    ));
}

#[test]
fn freed_id_is_taken_next() {
    let mut bus = setup_bus();
    for _ in 1..NUM_DEVICE_IDS {
        bus.allocate_device_id(None).unwrap();
    }
    bus.free_device_id(7).unwrap();
    assert_eq!(bus.allocate_device_id(None).unwrap(), 7);
    assert_eq!(bus.free_device_id(32), Err(PciRootError::InvalidPciDeviceSlot(32)));
}

#[test]
fn functions_have_seven_companions() {
    let mut bus = setup_bus();
    let h = bus.register(PciRoot::new_i440fx());
    assert_eq!(bus.add_device_function(3, 7, h), Ok(()));
    assert_eq!(
        bus.add_device_function(3, 8, h),
        Err(PciRootError::InvalidPciDeviceSlot(3))
    );
    assert_eq!(bus.add_device(32, h), Err(PciRootError::InvalidPciDeviceSlot(32)));
}

fn io_address(device: u32, function: u32, register: u32) -> [u8; 4] {
    (0x8000_0000u32 + device * 0x800 + function * 0x100 + register * 4).to_le_bytes()
}

#[test]
fn identity_reads_through_ports() {
    let mut bus = setup_bus();
    let mut io = PciConfigIo::new();
    io.write(&mut bus, 0, &io_address(0, 0, 0));
    let mut data = [0u8; 4];
    io.read(&mut bus, 4, &mut data);
    assert_eq!(u32::from_le_bytes(data), 0x0d57_8086);
    let mut half = [0u8; 2];
    io.read(&mut bus, 6, &mut half);
    assert_eq!(u16::from_le_bytes(half), 0x0d57);
    // Over the end of the register.
    let mut over = [0u8; 4];
    io.read(&mut bus, 6, &mut over);
    assert_eq!(over, [0xff; 4]);
}

#[test]
fn nothing_answers_with_ones() {
    let mut bus = setup_bus();
    let mut io = PciConfigIo::new();
    let mut data = [0u8; 4];
    // Not enabled.
    io.write(&mut bus, 0, &[0, 0, 0, 0]);
    io.read(&mut bus, 4, &mut data);
    assert_eq!(data, [0xff; 4]);
    // No function there.
    io.write(&mut bus, 0, &io_address(5, 0, 0));
    io.read(&mut bus, 4, &mut data);
    assert_eq!(data, [0xff; 4]);
    // Another bus.
    io.write(&mut bus, 0, &0x8001_0000u32.to_le_bytes());
    io.read(&mut bus, 4, &mut data);
    assert_eq!(data, [0xff; 4]);
}

#[test]
fn address_register_takes_bytes_and_halves() {
    let mut bus = setup_bus();
    let mut io = PciConfigIo::new();
    io.write(&mut bus, 0, &[0x44, 0x33, 0x22, 0x81]);
    assert_eq!(io.config_address, 0x8122_3344);
    io.write(&mut bus, 1, &[0x99]);
    assert_eq!(io.config_address, 0x8122_9944);
    io.write(&mut bus, 1, &[0xcd, 0xab]);
    assert_eq!(io.config_address, 0xabcd_9944);
    io.write(&mut bus, 3, &[1, 2]);
    assert_eq!(io.config_address, 0xabcd_9944);
    // Past the ports.
    let w = io.write(&mut bus, u64::MAX, &[1, 2]);
    assert_eq!(w.device, None);
    assert_eq!(io.config_address, 0xabcd_9944);
}

#[test]
fn both_ways_reach_the_same_register() {
    let mut bus = PciBus::new(PciRoot::new_q35());
    let mut io = PciConfigIo::new();
    let mmio = PciConfigMmio::new();
    // Register 0x18 holds the base of configuration space; some bits stay.
    io.write(&mut bus, 0, &io_address(0, 0, 0x18));
    let w = io.write(&mut bus, 4, &[0xff; 4]);
    assert_eq!(w.device, Some(0));
    assert!(w.moves.is_empty());
    assert_eq!(w.barrier, None);
    let mut data = [0u8; 4];
    mmio.read(&mut bus, 0x60, &mut data);
    assert_eq!(u32::from_le_bytes(data), 0xf000_0007);
    mmio.write(&mut bus, 0x60, &0xc000_0001u32.to_le_bytes());
    io.read(&mut bus, 4, &mut data);
    assert_eq!(u32::from_le_bytes(data), 0xc000_0001);
    // Memory-mapped access that is out of range.
    mmio.read(&mut bus, 0x1_0000_0000, &mut data);
    assert_eq!(data, [0xff; 4]);
}

#[test]
fn removed_function_does_not_answer() {
    let mut bus = setup_bus();
    let h = bus.register(PciRoot::new_i440fx());
    bus.add_device(4, h).unwrap();
    bus.add_device_function(5, 2, h).unwrap();
    let mmio = PciConfigMmio::new();
    let mut data = [0u8; 4];
    mmio.read(&mut bus, 4 * 0x8000, &mut data);
    assert_eq!(u32::from_le_bytes(data), 0x1237_8086);
    bus.remove_by_device(h).unwrap();
    mmio.read(&mut bus, 4 * 0x8000, &mut data);
    assert_eq!(data, [0xff; 4]);
    mmio.read(&mut bus, 5 * 0x8000 + 2 * 0x1000, &mut data);
    assert_eq!(data, [0xff; 4]);
    mmio.read(&mut bus, 0, &mut data);
    assert_eq!(u32::from_le_bytes(data), 0x0d57_8086);
}

struct Movable {
    base: u64,
    restored: bool,
}

impl PciDevice for Movable {
    fn read_config_register(&mut self, reg_idx: usize) -> u32 {
        if reg_idx == 4 {
            self.base as u32
        } else {
            0
        }
    }

    fn write_config_register(
        &mut self,
        reg_idx: usize,
        _offset: u64,
        data: &[u8],
    ) -> (Vec<BarReprogrammingParams>, Option<u64>) {
        if reg_idx != 4 {
            return (Vec::new(), Some(9));
        }
        let old_base = self.base;
        self.base = u64::from(u32::from_le_bytes([data[0], data[1], data[2], data[3]]));
        let params = BarReprogrammingParams {
            old_base,
            new_base: self.base,
            len: 0x1000,
            region_type: PciBarRegionType::Memory32BitRegion,
        };
        (vec![params], None)
    }

    fn restore_bar_addr(&mut self, params: &BarReprogrammingParams) {
        self.base = params.old_base;
        self.restored = true;
    }
}

#[test]
fn failed_move_puts_the_window_back() {
    let mut bus = PciBus::new(Movable { base: 0x8000_0000, restored: false });
    let mmio = PciConfigMmio::new();
    let w = mmio.write(&mut bus, 0x10, &0x9000_0000u32.to_le_bytes());
    assert_eq!(w.moves.len(), 1);
    assert_eq!(w.moves[0].new_base, 0x9000_0000);
    bus.bar_moved(w.device.unwrap(), &w.moves[0], false);
    let mut data = [0u8; 4];
    mmio.read(&mut bus, 0x10, &mut data);
    assert_eq!(u32::from_le_bytes(data), 0x8000_0000);
    let w = mmio.write(&mut bus, 0x10, &0x9000_0000u32.to_le_bytes());
    bus.bar_moved(w.device.unwrap(), &w.moves[0], true);
    mmio.read(&mut bus, 0x10, &mut data);
    assert_eq!(u32::from_le_bytes(data), 0x9000_0000);
    // A barrier comes back through ports only.
    assert_eq!(mmio.write(&mut bus, 0, &[0; 4]).barrier, None);
    let mut io = PciConfigIo::new();
    io.write(&mut bus, 0, &io_address(0, 0, 0));
    assert_eq!(io.write(&mut bus, 4, &[0; 4]).barrier, Some(9));
}

#[test]
fn windows_go_to_their_bus() {
    let bars = vec![
        PciBarConfiguration { addr: 0x1000, size: 0x20, region_type: PciBarRegionType::IoRegion },
        PciBarConfiguration {
            addr: 0xe000_0000,
            size: 0x1000,
            region_type: PciBarRegionType::Memory64BitRegion,
        },
    ];
    let plan = PciBus::<PciRoot>::register_mapping(&bars);
    assert_eq!(
        plan,
        vec![
            BarMapping { port_bus: true, addr: 0x1000, size: 0x20 },
            BarMapping { port_bus: false, addr: 0xe000_0000, size: 0x1000 },
        ]
    );
    assert_eq!(PciBus::<PciRoot>::mapping_error(&plan[0]), PciRootError::PioInsert);
    assert_eq!(PciBus::<PciRoot>::mapping_error(&plan[1]), PciRootError::MmioInsert);
}

#[test]
fn built_in_functions_hold_their_registers() {
    let mut lpc = PciLpcBridge::new_ich9();
    assert_eq!(lpc.read_config_register(0), 0x2918_8086);
    assert_eq!(lpc.read_config_register(2), 0x0601_0002);
    assert_eq!(lpc.read_config_register(3), 0x0080_0000);
    assert_eq!(lpc.read_config_register(0x10), 1);
    lpc.write_config_register(0x10, 0, &0x0000_0601u32.to_le_bytes());
    assert_eq!(lpc.read_config_register(0x10), 0x0601);
    assert_eq!(lpc.read_config_register(0x20), 0x0001_0000);
    let mut ahci = PciQ35Ahci::new();
    assert_eq!(ahci.read_config_register(0), 0x2922_8086);
    assert_eq!(ahci.read_config_register(1), 0x0010_0000);
    assert_eq!(ahci.read_config_register(2), 0x0106_0102);
    assert_eq!(ahci.read_config_register(11), 0x1100_1af4);
    assert_eq!(ahci.read_config_register(0x20), 0xa805);
    let mut smbus = PciQ35Smbus::new();
    assert_eq!(smbus.read_config_register(0), 0x2930_8086);
    assert_eq!(smbus.read_config_register(2), 0x0c05_0002);
    assert_eq!(smbus.read_config_register(15), 0x100);
    assert_eq!(smbus.read_config_register(1024), 0xffff_ffff);
    // A half at an odd offset is refused, one at an even offset is not.
    smbus.write_config_register(1, 1, &[0xff, 0xff]);
    assert_eq!(smbus.read_config_register(1), 0);
    smbus.write_config_register(1, 0, &[0x06, 0x05]);
    assert_eq!(smbus.read_config_register(1), 0x0506);
}

#[test]
fn q35_segment_has_ich9_functions() {
    let range = AddressRange { base: 0xc000_0000, end: 0xdfff_ffff };
    let high = AddressRange { base: 0x2_0000_0000, end: 0x2_ffff_ffff };
    let irqs = [5u8; 32];
    let (mut segment, windows) =
        PciSegment::<PciRoot>::new_default_segment(range, high, 0xe800_0000, true, &irqs);
    assert_eq!(
        windows,
        vec![
            BusWindow { port_bus: false, addr: 0xe800_0000, size: 0x10_0000 },
            BusWindow { port_bus: false, addr: 0xe000_0000, size: 0x10_0000 },
            BusWindow { port_bus: true, addr: 0xcf8, size: 8 },
        ]
    );
    let mut data = [0u8; 4];
    for (function, id) in [(0u64, 0x2918_8086u32), (2, 0x2922_8086), (3, 0x2930_8086)] {
        segment.pci_config_mmio.read(
            &mut segment.pci_bus,
            31 * 0x8000 + function * 0x1000,
            &mut data,
        );
        assert_eq!(u32::from_le_bytes(data), id);
    }
    // Device 31 is taken.
    assert_eq!(
        segment.allocate_device_id(Some(31)),
        Err(DeviceManagerError::AllocatePciDeviceId(PciRootError::AlreadyInUsePciDeviceSlot(31)))
    );
    assert!(segment.pci_config_io.is_some());
    let extra = segment.pci_bus.register(PciFunction::Other(PciRoot::new_i440fx()));
    segment.pci_bus.add_device(6, extra).unwrap();
    segment.pci_config_mmio.read(&mut segment.pci_bus, 6 * 0x8000, &mut data);
    assert_eq!(u32::from_le_bytes(data), 0x1237_8086);
}

#[test]
fn plain_segment_has_one_window() {
    let range = AddressRange { base: 0, end: 0xfff };
    let irqs = [0u8; 32];
    let (segment, windows) =
        PciSegment::<PciRoot>::new(2, 1, range, range, 0xe800_0000, true, &irqs);
    assert_eq!(segment.mmio_config_address, 0xe820_0000);
    assert_eq!(segment.proximity_domain, 1);
    assert_eq!(
        windows,
        vec![BusWindow { port_bus: false, addr: 0xe820_0000, size: 0x10_0000 }]
    );
}

#[test]
fn interrupt_lines_are_shared_by_eights() {
    let mut slots = [0u8; 32];
    let irqs: Vec<u32> = (16..24).collect();
    assert_eq!(
        PciSegment::<PciRoot>::reserve_legacy_interrupts_for_pci_devices(&irqs, &mut slots),
        Ok(())
    );
    assert_eq!(slots[0], 16);
    assert_eq!(slots[7], 23);
    assert_eq!(slots[8], 16);
    assert_eq!(slots[31], 23);
    let mut slots = [0u8; 32];
    assert_eq!(
        PciSegment::<PciRoot>::reserve_legacy_interrupts_for_pci_devices(&vec![1; 7], &mut slots),
        Err(DeviceManagerError::AllocateIrq)
    );
    assert_eq!(slots, [0u8; 32]);
}

#[test]
fn addresses_keep_their_parts() {
    let bdf = PciBdf::new(0x1234, 0x56, 0x1f, 7);
    assert_eq!(
        (bdf.segment(), bdf.bus(), bdf.device(), bdf.function()),
        (0x1234, 0x56, 0x1f, 7)
    );
    let bdf = PciBdf::new(0, 0, 33, 9);
    assert_eq!((bdf.device(), bdf.function()), (1, 1));
}

#[test]
fn uuids_are_mixed_endian() {
    assert_eq!(
        uuid_buffer("33DB4D5B-1FF7-401C-9657-7441C03DD766"),
        vec![
            0x5b, 0x4d, 0xdb, 0x33, 0xf7, 0x1f, 0x1c, 0x40, 0x96, 0x57, 0x74, 0x41, 0xc0, 0x3d,
            0xd7, 0x66
        ]
    );
    assert_eq!(
        uuid_buffer("e5c937d0-3553-4d7a-9117-ea4d19c3434d")[0..8],
        [0xd0, 0x37, 0xc9, 0xe5, 0x53, 0x35, 0x7a, 0x4d]
    );
    assert_eq!(mixed_endian_buffer(1, 2, 3, &[4]), vec![1, 0, 0, 0, 2, 0, 3, 0, 4]);
}

fn text(name: AmlName) -> String {
    String::from_utf8(name.to_text()).unwrap()
}

#[test]
fn names_have_fixed_digits() {
    assert_eq!(text(AmlName::Slot(7)), "S007");
    assert_eq!(text(AmlName::Slot(31)), "S031");
    assert_eq!(text(AmlName::Segment(0x0a)), "_SB_.PC0A");
    assert_eq!(text(AmlName::Segment(0xff)), "_SB_.PCFF");
    assert_eq!(text(AmlName::Fixed("_HID")), "_HID");
}

#[test]
fn description_closes_what_it_opens() {
    let mut segment = setup();
    segment.pci_irq_slots[1] = 9;
    let ops = segment.to_aml();
    assert!(matches!(ops[0], AmlOp::Device(AmlName::Fixed("_SB_.PCI0"))));
    let mut depth: i32 = 0;
    let mut packages = 0;
    for (i, op) in ops.iter().enumerate() {
        match op {
            AmlOp::Close => depth -= 1,
            AmlOp::Package => {
                packages += 1;
                depth += 1;
            }
            AmlOp::Buffer
            | AmlOp::Name(_)
            | AmlOp::Device(_)
            | AmlOp::Method { .. }
            | AmlOp::MethodCall(_)
            | AmlOp::And
            | AmlOp::Or
            | AmlOp::Equal
            | AmlOp::NotEqual
            | AmlOp::If
            | AmlOp::Notify
            | AmlOp::Store
            | AmlOp::Return
            | AmlOp::CreateDwordField
            | AmlOp::ResourceTemplate => depth += 1,
            _ => {}
        }
        assert!(depth >= 1 || i + 1 == ops.len());
    }
    assert_eq!(depth, 0);
    // One package for the table and one for each of 32 x 4 pins.
    assert_eq!(packages, 129);
    let links: Vec<u32> = ops
        .iter()
        .filter_map(|op| match op {
            AmlOp::Interrupt { number, .. } => Some(*number),
            _ => None,
        })
        .collect();
    assert_eq!(links, vec![0, 0, 9, 9, 0, 0, 0, 0]);
}

#[test]
fn pins_rotate() {
    let ops = setup().to_aml();
    let start = ops
        .iter()
        .position(|op| matches!(op, AmlOp::Name(AmlName::Fixed("_PRT"))))
        .unwrap();
    // Device 2, pin 3 goes to the second link.
    let at = start + 2 + 6 * (4 * 2 + 3);
    assert!(matches!(ops[at], AmlOp::Package));
    assert!(matches!(ops[at + 1], AmlOp::U32(0x0002_ffff)));
    assert!(matches!(ops[at + 2], AmlOp::U32(3)));
    assert!(matches!(ops[at + 3], AmlOp::Path(AmlName::Fixed("LNKB"))));
}
