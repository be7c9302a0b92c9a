//! Identifiers and chipset registers of the Q35 and ICH9 platform.
//!
//! These are properties of the machine model, shared by the PCI host bridge
//! and the firmware tables.
use vstd::prelude::*;

verus! {

/// Intel.
pub const VENDOR_ID_INTEL: u16 = 0x8086;

/// Synthetic PCIe host bridge.
pub const DEVICE_ID_INTEL_VIRT_PCIE_HOST: u16 = 0x0d57;

/// P35 host bridge, the root complex of q35.
pub const DEVICE_ID_INTEL_P35_MCH: u16 = 0x29c0;

/// 440FX host bridge.
pub const DEVICE_ID_INTEL_I440FX_HOST_BRIDGE: u16 = 0x1237;

/// ICH9 LPC bridge.
pub const DEVICE_ID_INTEL_ICH9_LPC: u16 = 0x2918;

/// ICH9 SATA controller.
pub const DEVICE_ID_INTEL_ICH9_AHCI: u16 = 0x2922;

/// ICH9 SMBus controller.
pub const DEVICE_ID_INTEL_ICH9_SMBUS: u16 = 0x2930;

pub const Q35_PCIEXBAR_REG: usize = 0x60 / 4;

pub const Q35_PCIEXBAR_DEFAULT: u32 = 0xb000_0000;

pub const Q35_PCIEXBAR_LOW_WRITABLE_BITS: u32 = 0xf000_0007;

pub const Q35_PCIEXBAR_HIGH_WRITABLE_BITS: u32 = 0x0000_000f;

pub const PCI_COMMAND_STATUS_REG: usize = 0x04 / 4;

pub const PCI_HEADER_TYPE_REG: usize = 0x0c / 4;

pub const PCI_BAR4_REG: usize = 0x20 / 4;

pub const PCI_CAPABILITY_LIST_REG: usize = 0x34 / 4;

pub const PCI_INTERRUPT_REG: usize = 0x3c / 4;

pub const PCI_HEADER_TYPE_MULTIFUNCTION: u32 = 0x0080_0000;

pub const PCI_STATUS_CAPABILITIES: u32 = 0x0010_0000;

pub const ICH9_LPC_PMBASE_REG: usize = 0x40 / 4;

pub const ICH9_LPC_ACPI_CTRL_REG: usize = 0x44 / 4;

pub const ICH9_LPC_PIRQA_ROUT_REG: usize = 0x60 / 4;

pub const ICH9_LPC_PIRQE_ROUT_REG: usize = 0x68 / 4;

pub const ICH9_LPC_IO_DEC_REG: usize = 0x80 / 4;

pub const ICH9_LPC_RCBA_REG: usize = 0xf0 / 4;

pub const ICH9_AHCI_MSI_CAP_REG: usize = 0x80 / 4;

pub const ICH9_AHCI_SATA_CAP_REG: usize = 0xa8 / 4;

} // verus!
