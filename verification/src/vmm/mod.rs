//! PCI segments and how they are described to the guest.
pub mod aml;
pub mod pci_segment;
pub mod segment_aml;
