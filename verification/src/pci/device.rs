//! Functions on the bus, and those that are built in.
use crate::arch::q35_pci_ids::{
    DEVICE_ID_INTEL_I440FX_HOST_BRIDGE, DEVICE_ID_INTEL_ICH9_AHCI, DEVICE_ID_INTEL_ICH9_LPC,
    DEVICE_ID_INTEL_ICH9_SMBUS, DEVICE_ID_INTEL_P35_MCH, DEVICE_ID_INTEL_VIRT_PCIE_HOST,
    ICH9_AHCI_MSI_CAP_REG, ICH9_AHCI_SATA_CAP_REG, ICH9_LPC_ACPI_CTRL_REG, ICH9_LPC_IO_DEC_REG,
    ICH9_LPC_PIRQA_ROUT_REG, ICH9_LPC_PIRQE_ROUT_REG, ICH9_LPC_PMBASE_REG, ICH9_LPC_RCBA_REG,
    PCI_BAR4_REG, PCI_CAPABILITY_LIST_REG, PCI_COMMAND_STATUS_REG, PCI_HEADER_TYPE_MULTIFUNCTION,
    PCI_HEADER_TYPE_REG, PCI_INTERRUPT_REG, PCI_STATUS_CAPABILITIES, Q35_PCIEXBAR_DEFAULT,
    Q35_PCIEXBAR_HIGH_WRITABLE_BITS, Q35_PCIEXBAR_LOW_WRITABLE_BITS, Q35_PCIEXBAR_REG,
    VENDOR_ID_INTEL,
};
use crate::pci::configuration::{PciConfiguration, PciIdentity};
use vstd::prelude::*;

verus! {

pub const CLASS_MASS_STORAGE: u8 = 0x01;

pub const CLASS_BRIDGE: u8 = 0x06;

pub const CLASS_SERIAL_BUS: u8 = 0x0c;

pub const SUBCLASS_HOST_BRIDGE: u8 = 0x00;

pub const SUBCLASS_ISA_BRIDGE: u8 = 0x01;

pub const SUBCLASS_SATA: u8 = 0x06;

pub const SUBCLASS_SMBUS: u8 = 0x05;

/// Programming interface of an AHCI controller.
pub const AHCI_PROGRAMMING_INTERFACE: u8 = 0x01;

pub const SUBSYSTEM_VENDOR_ID: u16 = 0x1af4;

pub const SUBSYSTEM_ID: u16 = 0x1100;

/// What an address window is made of.
#[derive(Clone, Copy, Debug, PartialEq, Eq, Structural)]
pub enum PciBarRegionType {
    Memory32BitRegion,
    IoRegion,
    Memory64BitRegion,
}

/// A window that a register write asks to move.
#[derive(Clone, Copy, Debug, PartialEq, Eq, Structural)]
pub struct BarReprogrammingParams {
    pub old_base: u64,
    pub new_base: u64,
    pub len: u64,
    pub region_type: PciBarRegionType,
}

/// An address window of a device.
#[derive(Clone, Copy, Debug, PartialEq, Eq, Structural)]
pub struct PciBarConfiguration {
    pub addr: u64,
    pub size: u64,
    pub region_type: PciBarRegionType,
}

/// A function on the bus.
///
/// A kind of function says what its accesses may lead to; one that says
/// nothing may answer anything and become anything.
pub trait PciDevice: Sized {
    /// Whether a register read may give `r`, and leave the function as `after`.
    open spec fn may_read(&self, reg_idx: int, r: u32, after: Self) -> bool {
        true
    }

    /// Whether a register write may ask for `moves` of windows, hand out
    /// `barrier` to wait for, and leave the function as `after`.
    open spec fn may_write(
        &self,
        reg_idx: int,
        offset: int,
        data: Seq<u8>,
        moves: Seq<BarReprogrammingParams>,
        barrier: Option<u64>,
        after: Self,
    ) -> bool {
        true
    }

    /// Whether the function may be `after` once a window was put back.
    open spec fn may_restore(&self, params: BarReprogrammingParams, after: Self) -> bool {
        true
    }

    /// Reads a register.
    fn read_config_register(&mut self, reg_idx: usize) -> (r: u32)
        ensures
            old(self).may_read(reg_idx as int, r, *final(self)),
    ;

    /// Writes to a register. Returns the windows to move, and what to wait for
    /// before the access is complete.
    fn write_config_register(&mut self, reg_idx: usize, offset: u64, data: &[u8]) -> (r: (
        Vec<BarReprogrammingParams>,
        Option<u64>,
    ))
        ensures
            old(self).may_write(
                reg_idx as int,
                offset as int,
                data@,
                r.0@,
                r.1,
                *final(self),
            ),
    ;

    /// Puts a window back where it was.
    fn restore_bar_addr(&mut self, params: &BarReprogrammingParams)
        ensures
            old(self).may_restore(*params, *final(self)),
    ;
}

/// An Intel bridge or controller without a subsystem.
pub open spec fn bridge(device_id: u16, revision_id: u8, subclass: u8) -> PciIdentity {
    PciIdentity {
        vendor_id: VENDOR_ID_INTEL,
        device_id,
        revision_id,
        class_code: CLASS_BRIDGE,
        subclass,
        programming_interface: 0,
        subsystem_vendor_id: 0,
        subsystem_id: 0,
    }
}

fn make_bridge(device_id: u16, revision_id: u8, subclass: u8) -> (r: PciConfiguration)
    ensures
        r.registers@ == crate::pci::configuration::header_registers(
            bridge(device_id, revision_id, subclass),
        ),
        r.writable_bits@ == crate::pci::configuration::header_writable(),
{
    PciConfiguration::new(
        PciIdentity {
            vendor_id: VENDOR_ID_INTEL,
            device_id,
            revision_id,
            class_code: CLASS_BRIDGE,
            subclass,
            programming_interface: 0,
            subsystem_vendor_id: 0,
            subsystem_id: 0,
        },
    )
}

/// Sets bits of a register that are clear.
fn set_bits(config: &mut PciConfiguration, reg_idx: usize, bits: u32)
    requires
        reg_idx < 1024,
        old(config).registers@[reg_idx as int] == 0,
    ensures
        final(config).registers@ == old(config).registers@.update(reg_idx as int, bits),
        final(config).writable_bits == old(config).writable_bits,
{
    let before: u32 = config.read_reg(reg_idx);
    assert(0u32 | bits == bits) by (bit_vector);
    config.set_reg(reg_idx, before | bits);
}

/// Registers of an empty host bridge.
pub open spec fn virt_registers() -> Seq<u32> {
    crate::pci::configuration::header_registers(
        bridge(DEVICE_ID_INTEL_VIRT_PCIE_HOST, 0, SUBCLASS_HOST_BRIDGE),
    )
}

/// Registers of a q35 memory controller.
pub open spec fn q35_registers() -> Seq<u32> {
    crate::pci::configuration::header_registers(
        bridge(DEVICE_ID_INTEL_P35_MCH, 0, SUBCLASS_HOST_BRIDGE),
    ).update(0x18, 0xb000_0000)
}

/// Changeable bits of a q35 memory controller: also the base of memory-mapped
/// configuration space.
pub open spec fn q35_writable() -> Seq<u32> {
    crate::pci::configuration::header_writable().update(0x18, 0xf000_0007).update(0x19, 0x0000_000f)
}

/// Registers of the ICH9 bridge: the base of the power management ports, the
/// interrupt routes, which are off, and the decoded serial port.
pub open spec fn lpc_registers() -> Seq<u32> {
    crate::pci::configuration::header_registers(
        bridge(DEVICE_ID_INTEL_ICH9_LPC, 2, SUBCLASS_ISA_BRIDGE),
    ).update(0x03, 0x0080_0000).update(0x10, 0x0000_0001).update(0x18, 0x8080_8080).update(
        0x1a,
        0x8080_8080,
    ).update(0x20, 0x0001_0000)
}

/// Changeable bits of the ICH9 bridge.
pub open spec fn lpc_writable() -> Seq<u32> {
    crate::pci::configuration::header_writable().update(0x10, 0xffff_ff80).update(
        0x11,
        0x0000_0087,
    ).update(0x18, 0xffff_ffff).update(0x1a, 0xffff_ffff).update(0x3c, 0xffff_c001)
}

/// Registers of the ICH9 SATA controller.
pub open spec fn ahci_registers() -> Seq<u32> {
    crate::pci::configuration::header_registers(
        ich9_function(
            DEVICE_ID_INTEL_ICH9_AHCI,
            CLASS_MASS_STORAGE,
            SUBCLASS_SATA,
            AHCI_PROGRAMMING_INTERFACE,
        ),
    ).update(0x03, 0x0080_0000).update(0x01, 0x0010_0000).update(0x08, 0x0000_0001).update(
        0x0d,
        0x0000_0080,
    ).update(0x0f, 0x0000_0100).update(0x20, 0x0000_a805).update(0x2a, 0x0000_0012)
}

/// Registers of the ICH9 SMBus controller.
pub open spec fn smbus_registers() -> Seq<u32> {
    crate::pci::configuration::header_registers(
        ich9_function(DEVICE_ID_INTEL_ICH9_SMBUS, CLASS_SERIAL_BUS, SUBCLASS_SMBUS, 0),
    ).update(0x03, 0x0080_0000).update(0x08, 0x0000_0001).update(0x0f, 0x0000_0100)
}

/// The host bridge.
pub struct PciRoot {
    /// Configuration space.
    pub config: PciConfiguration,
}

impl PciRoot {
    /// A host bridge with a given configuration space, or an empty one.
    pub fn new(config: Option<PciConfiguration>) -> (r: Self)
        ensures
            match config {
                Some(c) => r.config == c,
                None => {
                    &&& r.config.registers@ == virt_registers()
                    &&& r.config.writable_bits@ == crate::pci::configuration::header_writable()
                },
            },
    {
        match config {
            Some(config) => PciRoot { config },
            None => PciRoot {
                config: make_bridge(DEVICE_ID_INTEL_VIRT_PCIE_HOST, 0, SUBCLASS_HOST_BRIDGE),
            },
        }
    }

    /// A q35 memory controller. Its register for the base of memory-mapped
    /// configuration space can be written.
    pub fn new_q35() -> (r: Self)
        ensures
            r.config.registers@ == q35_registers(),
            r.config.writable_bits@ == q35_writable(),
    {
        let mut config: PciConfiguration = make_bridge(
            DEVICE_ID_INTEL_P35_MCH,
            0,
            SUBCLASS_HOST_BRIDGE,
        );
        config.set_reg(Q35_PCIEXBAR_REG, Q35_PCIEXBAR_DEFAULT);
        config.set_writable_bits(Q35_PCIEXBAR_REG, Q35_PCIEXBAR_LOW_WRITABLE_BITS);
        config.set_writable_bits(Q35_PCIEXBAR_REG + 1, Q35_PCIEXBAR_HIGH_WRITABLE_BITS);
        PciRoot { config }
    }

    /// A 440FX host bridge.
    pub fn new_i440fx() -> (r: Self)
        ensures
            r.config.registers@ == crate::pci::configuration::header_registers(
                bridge(DEVICE_ID_INTEL_I440FX_HOST_BRIDGE, 2, SUBCLASS_HOST_BRIDGE),
            ),
            r.config.writable_bits@ == crate::pci::configuration::header_writable(),
    {
        PciRoot { config: make_bridge(DEVICE_ID_INTEL_I440FX_HOST_BRIDGE, 2, SUBCLASS_HOST_BRIDGE) }
    }
}

impl PciDevice for PciRoot {
    open spec fn may_read(&self, reg_idx: int, r: u32, after: Self) -> bool {
        r == self.config.reg(reg_idx) && after == *self
    }

    open spec fn may_write(
        &self,
        reg_idx: int,
        offset: int,
        data: Seq<u8>,
        moves: Seq<BarReprogrammingParams>,
        barrier: Option<u64>,
        after: Self,
    ) -> bool {
        &&& moves.len() == 0
        &&& barrier is None
        &&& after.config.registers@ == self.config.written(reg_idx, offset, data)
        &&& after.config.writable_bits == self.config.writable_bits
    }

    open spec fn may_restore(&self, params: BarReprogrammingParams, after: Self) -> bool {
        after == *self
    }

    fn read_config_register(&mut self, reg_idx: usize) -> (r: u32) {
        self.config.read_reg(reg_idx)
    }

    fn write_config_register(&mut self, reg_idx: usize, offset: u64, data: &[u8]) -> (r: (
        Vec<BarReprogrammingParams>,
        Option<u64>,
    )) {
        self.config.write_config_register(reg_idx, offset, data);
        (Vec::new(), None)
    }

    fn restore_bar_addr(&mut self, params: &BarReprogrammingParams) {
    }
}

/// Minimal ICH9 bridge to the ISA bus, at 00:1f.0.
pub struct PciLpcBridge {
    /// Configuration space.
    pub config: PciConfiguration,
}

impl PciLpcBridge {
    /// The bridge after reset. Only the first serial port is marked as
    /// decoded.
    pub fn new_ich9() -> (r: Self)
        ensures
            r.config.registers@ == lpc_registers(),
            r.config.writable_bits@ == lpc_writable(),
    {
        let mut config: PciConfiguration = make_bridge(
            DEVICE_ID_INTEL_ICH9_LPC,
            2,
            SUBCLASS_ISA_BRIDGE,
        );
        let ghost fresh = config.registers@;
        set_bits(&mut config, PCI_HEADER_TYPE_REG, PCI_HEADER_TYPE_MULTIFUNCTION);
        config.set_reg(ICH9_LPC_PMBASE_REG, 0x0000_0001);
        config.set_writable_bits(ICH9_LPC_PMBASE_REG, 0xffff_ff80);
        config.set_reg(ICH9_LPC_ACPI_CTRL_REG, 0);
        config.set_writable_bits(ICH9_LPC_ACPI_CTRL_REG, 0x0000_0087);
        config.set_reg(ICH9_LPC_PIRQA_ROUT_REG, 0x8080_8080);
        config.set_reg(ICH9_LPC_PIRQE_ROUT_REG, 0x8080_8080);
        config.set_writable_bits(ICH9_LPC_PIRQA_ROUT_REG, 0xffff_ffff);
        config.set_writable_bits(ICH9_LPC_PIRQE_ROUT_REG, 0xffff_ffff);
        config.set_reg(ICH9_LPC_IO_DEC_REG, 0x0001_0000);
        config.set_reg(ICH9_LPC_RCBA_REG, 0);
        config.set_writable_bits(ICH9_LPC_RCBA_REG, 0xffff_c001);
        assert(config.registers@ =~= fresh.update(0x03, 0x0080_0000).update(
            0x10,
            0x0000_0001,
        ).update(0x18, 0x8080_8080).update(0x1a, 0x8080_8080).update(0x20, 0x0001_0000));
        PciLpcBridge { config }
    }
}

impl PciDevice for PciLpcBridge {
    open spec fn may_read(&self, reg_idx: int, r: u32, after: Self) -> bool {
        r == self.config.reg(reg_idx) && after == *self
    }

    open spec fn may_write(
        &self,
        reg_idx: int,
        offset: int,
        data: Seq<u8>,
        moves: Seq<BarReprogrammingParams>,
        barrier: Option<u64>,
        after: Self,
    ) -> bool {
        &&& moves.len() == 0
        &&& barrier is None
        &&& after.config.registers@ == self.config.written(reg_idx, offset, data)
        &&& after.config.writable_bits == self.config.writable_bits
    }

    open spec fn may_restore(&self, params: BarReprogrammingParams, after: Self) -> bool {
        after == *self
    }

    fn read_config_register(&mut self, reg_idx: usize) -> (r: u32) {
        self.config.read_reg(reg_idx)
    }

    fn write_config_register(&mut self, reg_idx: usize, offset: u64, data: &[u8]) -> (r: (
        Vec<BarReprogrammingParams>,
        Option<u64>,
    )) {
        self.config.write_config_register(reg_idx, offset, data);
        (Vec::new(), None)
    }

    fn restore_bar_addr(&mut self, params: &BarReprogrammingParams) {
    }
}

/// Minimal ICH9 SATA controller, at 00:1f.2.
pub struct PciQ35Ahci {
    /// Configuration space.
    pub config: PciConfiguration,
}

/// Identity of an ICH9 function behind the platform's subsystem.
pub open spec fn ich9_function(device_id: u16, class_code: u8, subclass: u8, pi: u8) -> PciIdentity {
    PciIdentity {
        vendor_id: VENDOR_ID_INTEL,
        device_id,
        revision_id: 2,
        class_code,
        subclass,
        programming_interface: pi,
        subsystem_vendor_id: SUBSYSTEM_VENDOR_ID,
        subsystem_id: SUBSYSTEM_ID,
    }
}

fn make_ich9_function(device_id: u16, class_code: u8, subclass: u8, pi: u8) -> (r: PciConfiguration)
    ensures
        r.registers@ == crate::pci::configuration::header_registers(
            ich9_function(device_id, class_code, subclass, pi),
        ).update(0x03, 0x0080_0000),
        r.writable_bits@ == crate::pci::configuration::header_writable(),
{
    let mut config: PciConfiguration = PciConfiguration::new(
        PciIdentity {
            vendor_id: VENDOR_ID_INTEL,
            device_id,
            revision_id: 2,
            class_code,
            subclass,
            programming_interface: pi,
            subsystem_vendor_id: SUBSYSTEM_VENDOR_ID,
            subsystem_id: SUBSYSTEM_ID,
        },
    );
    set_bits(&mut config, PCI_HEADER_TYPE_REG, PCI_HEADER_TYPE_MULTIFUNCTION);
    config
}

impl PciQ35Ahci {
    /// The controller after reset, with its MSI and SATA capabilities.
    pub fn new() -> (r: Self)
        ensures
            r.config.registers@ == ahci_registers(),
            r.config.writable_bits@ == crate::pci::configuration::header_writable(),
    {
        let mut config: PciConfiguration = make_ich9_function(
            DEVICE_ID_INTEL_ICH9_AHCI,
            CLASS_MASS_STORAGE,
            SUBCLASS_SATA,
            AHCI_PROGRAMMING_INTERFACE,
        );
        set_bits(&mut config, PCI_COMMAND_STATUS_REG, PCI_STATUS_CAPABILITIES);
        config.set_reg(PCI_BAR4_REG, 0x0000_0001);
        config.set_reg(PCI_CAPABILITY_LIST_REG, 0x0000_0080);
        config.set_reg(PCI_INTERRUPT_REG, 0x0000_0100);
        config.set_reg(ICH9_AHCI_MSI_CAP_REG, 0x0000_a805);
        config.set_reg(ICH9_AHCI_SATA_CAP_REG, 0x0000_0012);
        PciQ35Ahci { config }
    }
}

impl PciDevice for PciQ35Ahci {
    open spec fn may_read(&self, reg_idx: int, r: u32, after: Self) -> bool {
        r == self.config.reg(reg_idx) && after == *self
    }

    open spec fn may_write(
        &self,
        reg_idx: int,
        offset: int,
        data: Seq<u8>,
        moves: Seq<BarReprogrammingParams>,
        barrier: Option<u64>,
        after: Self,
    ) -> bool {
        &&& moves.len() == 0
        &&& barrier is None
        &&& after.config.registers@ == self.config.written(reg_idx, offset, data)
        &&& after.config.writable_bits == self.config.writable_bits
    }

    open spec fn may_restore(&self, params: BarReprogrammingParams, after: Self) -> bool {
        after == *self
    }

    fn read_config_register(&mut self, reg_idx: usize) -> (r: u32) {
        self.config.read_reg(reg_idx)
    }

    fn write_config_register(&mut self, reg_idx: usize, offset: u64, data: &[u8]) -> (r: (
        Vec<BarReprogrammingParams>,
        Option<u64>,
    )) {
        self.config.write_config_register(reg_idx, offset, data);
        (Vec::new(), None)
    }

    fn restore_bar_addr(&mut self, params: &BarReprogrammingParams) {
    }
}

/// Minimal ICH9 SMBus controller, at 00:1f.3.
pub struct PciQ35Smbus {
    /// Configuration space.
    pub config: PciConfiguration,
}

impl PciQ35Smbus {
    /// The controller after reset.
    pub fn new() -> (r: Self)
        ensures
            r.config.registers@ == smbus_registers(),
            r.config.writable_bits@ == crate::pci::configuration::header_writable(),
    {
        let mut config: PciConfiguration = make_ich9_function(
            DEVICE_ID_INTEL_ICH9_SMBUS,
            CLASS_SERIAL_BUS,
            SUBCLASS_SMBUS,
            0,
        );
        config.set_reg(PCI_BAR4_REG, 0x0000_0001);
        config.set_reg(PCI_INTERRUPT_REG, 0x0000_0100);
        PciQ35Smbus { config }
    }
}

impl PciDevice for PciQ35Smbus {
    open spec fn may_read(&self, reg_idx: int, r: u32, after: Self) -> bool {
        r == self.config.reg(reg_idx) && after == *self
    }

    open spec fn may_write(
        &self,
        reg_idx: int,
        offset: int,
        data: Seq<u8>,
        moves: Seq<BarReprogrammingParams>,
        barrier: Option<u64>,
        after: Self,
    ) -> bool {
        &&& moves.len() == 0
        &&& barrier is None
        &&& after.config.registers@ == self.config.written(reg_idx, offset, data)
        &&& after.config.writable_bits == self.config.writable_bits
    }

    open spec fn may_restore(&self, params: BarReprogrammingParams, after: Self) -> bool {
        after == *self
    }

    fn read_config_register(&mut self, reg_idx: usize) -> (r: u32) {
        self.config.read_reg(reg_idx)
    }

    fn write_config_register(&mut self, reg_idx: usize, offset: u64, data: &[u8]) -> (r: (
        Vec<BarReprogrammingParams>,
        Option<u64>,
    )) {
        self.config.write_config_register(reg_idx, offset, data);
        (Vec::new(), None)
    }

    fn restore_bar_addr(&mut self, params: &BarReprogrammingParams) {
    }
}

/// A function that is built in, or one of another kind.
pub enum PciFunction<D> {
    Root(PciRoot),
    Lpc(PciLpcBridge),
    Ahci(PciQ35Ahci),
    Smbus(PciQ35Smbus),
    Other(D),
}

impl<D: PciDevice> PciDevice for PciFunction<D> {
    open spec fn may_read(&self, reg_idx: int, r: u32, after: Self) -> bool {
        match (*self, after) {
            (PciFunction::Root(d), PciFunction::Root(e)) => d.may_read(reg_idx, r, e),
            (PciFunction::Lpc(d), PciFunction::Lpc(e)) => d.may_read(reg_idx, r, e),
            (PciFunction::Ahci(d), PciFunction::Ahci(e)) => d.may_read(reg_idx, r, e),
            (PciFunction::Smbus(d), PciFunction::Smbus(e)) => d.may_read(reg_idx, r, e),
            (PciFunction::Other(d), PciFunction::Other(e)) => d.may_read(reg_idx, r, e),
            _ => false,
        }
    }

    open spec fn may_write(
        &self,
        reg_idx: int,
        offset: int,
        data: Seq<u8>,
        moves: Seq<BarReprogrammingParams>,
        barrier: Option<u64>,
        after: Self,
    ) -> bool {
        match (*self, after) {
            (PciFunction::Root(d), PciFunction::Root(e)) => d.may_write(
                reg_idx,
                offset,
                data,
                moves,
                barrier,
                e,
            ),
            (PciFunction::Lpc(d), PciFunction::Lpc(e)) => d.may_write(
                reg_idx,
                offset,
                data,
                moves,
                barrier,
                e,
            ),
            (PciFunction::Ahci(d), PciFunction::Ahci(e)) => d.may_write(
                reg_idx,
                offset,
                data,
                moves,
                barrier,
                e,
            ),
            (PciFunction::Smbus(d), PciFunction::Smbus(e)) => d.may_write(
                reg_idx,
                offset,
                data,
                moves,
                barrier,
                e,
            ),
            (PciFunction::Other(d), PciFunction::Other(e)) => d.may_write(
                reg_idx,
                offset,
                data,
                moves,
                barrier,
                e,
            ),
            _ => false,
        }
    }

    open spec fn may_restore(&self, params: BarReprogrammingParams, after: Self) -> bool {
        match (*self, after) {
            (PciFunction::Root(d), PciFunction::Root(e)) => d.may_restore(params, e),
            (PciFunction::Lpc(d), PciFunction::Lpc(e)) => d.may_restore(params, e),
            (PciFunction::Ahci(d), PciFunction::Ahci(e)) => d.may_restore(params, e),
            (PciFunction::Smbus(d), PciFunction::Smbus(e)) => d.may_restore(params, e),
            (PciFunction::Other(d), PciFunction::Other(e)) => d.may_restore(params, e),
            _ => false,
        }
    }

    fn read_config_register(&mut self, reg_idx: usize) -> (r: u32) {
        match self {
            PciFunction::Root(d) => d.read_config_register(reg_idx),
            PciFunction::Lpc(d) => d.read_config_register(reg_idx),
            PciFunction::Ahci(d) => d.read_config_register(reg_idx),
            PciFunction::Smbus(d) => d.read_config_register(reg_idx),
            PciFunction::Other(d) => d.read_config_register(reg_idx),
        }
    }

    fn write_config_register(&mut self, reg_idx: usize, offset: u64, data: &[u8]) -> (r: (
        Vec<BarReprogrammingParams>,
        Option<u64>,
    )) {
        match self {
            PciFunction::Root(d) => d.write_config_register(reg_idx, offset, data),
            PciFunction::Lpc(d) => d.write_config_register(reg_idx, offset, data),
            PciFunction::Ahci(d) => d.write_config_register(reg_idx, offset, data),
            PciFunction::Smbus(d) => d.write_config_register(reg_idx, offset, data),
            PciFunction::Other(d) => d.write_config_register(reg_idx, offset, data),
        }
    }

    fn restore_bar_addr(&mut self, params: &BarReprogrammingParams) {
        match self {
            PciFunction::Root(d) => d.restore_bar_addr(params),
            PciFunction::Lpc(d) => d.restore_bar_addr(params),
            PciFunction::Ahci(d) => d.restore_bar_addr(params),
            PciFunction::Smbus(d) => d.restore_bar_addr(params),
            PciFunction::Other(d) => d.restore_bar_addr(params),
        }
    }
}

/// The registers that the chipset's functions have after reset, and those of
/// their bits that software can change, besides the command, the cache line size
/// and the interrupt line.
#[verifier::rlimit(40)]
pub proof fn chipset_starts_as_it_should(i: int)
    requires
        0 <= i < 1024,
    ensures
        virt_registers()[i] == (if i == 0 {
            0x0d57_8086u32
        } else if i == 2 {
            0x0600_0000
        } else {
            0
        }),
        q35_registers()[i] == (if i == 0 {
            0x29c0_8086u32
        } else if i == 2 {
            0x0600_0000
        } else if i == 0x18 {
            0xb000_0000
        } else {
            0
        }),
        lpc_registers()[i] == (if i == 0 {
            0x2918_8086u32
        } else if i == 2 {
            0x0601_0002
        } else if i == 3 {
            0x0080_0000
        } else if i == 0x10 {
            1
        } else if i == 0x18 || i == 0x1a {
            0x8080_8080
        } else if i == 0x20 {
            0x0001_0000
        } else {
            0
        }),
        ahci_registers()[i] == (if i == 0 {
            0x2922_8086u32
        } else if i == 1 {
            0x0010_0000
        } else if i == 2 {
            0x0106_0102
        } else if i == 3 {
            0x0080_0000
        } else if i == 8 {
            1
        } else if i == 11 {
            0x1100_1af4
        } else if i == 13 {
            0x80
        } else if i == 15 {
            0x100
        } else if i == 0x20 {
            0xa805
        } else if i == 0x2a {
            0x12
        } else {
            0
        }),
        smbus_registers()[i] == (if i == 0 {
            0x2930_8086u32
        } else if i == 2 {
            0x0c05_0002
        } else if i == 3 {
            0x0080_0000
        } else if i == 8 {
            1
        } else if i == 11 {
            0x1100_1af4
        } else if i == 15 {
            0x100
        } else {
            0
        }),
        i != 1 && i != 3 && i != 15 ==> q35_writable()[i] == (if i == 0x18 {
            0xf000_0007u32
        } else if i == 0x19 {
            0xf
        } else {
            0
        }),
        i != 1 && i != 3 && i != 15 ==> lpc_writable()[i] == (if i == 0x10 {
            0xffff_ff80u32
        } else if i == 0x11 {
            0x87
        } else if i == 0x18 || i == 0x1a {
            0xffff_ffff
        } else if i == 0x3c {
            0xffff_c001
        } else {
            0
        }),
{
}

/// A built-in function keeps what software writes, as far as it can be written:
/// the next read of the register gets it, no other register changes, no window
/// moves, and there is nothing to wait for.
pub proof fn built_in_functions_keep_what_is_written(
    before: PciRoot,
    after: PciRoot,
    last: PciRoot,
    reg_idx: int,
    other: int,
    offset: int,
    data: Seq<u8>,
    moves: Seq<BarReprogrammingParams>,
    barrier: Option<u64>,
    r: u32,
)
    requires
        0 <= reg_idx < 1024,
        0 <= other < 1024,
        before.may_write(reg_idx, offset, data, moves, barrier, after),
        after.may_read(other, r, last),
    ensures
        moves.len() == 0 && barrier is None,
        last == after,
        other != reg_idx ==> r == before.config.registers@[other],
        other == reg_idx && offset == 0 && data.len() == 4 ==> r
            == crate::pci::configuration::register_written(
            before.config.registers@[reg_idx],
            before.config.writable_bits@[reg_idx],
            0,
            data,
        ),
{
}

} // verus!
