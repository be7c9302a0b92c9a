//! Properties of the machine that is presented to the guest.
pub mod layout;
pub mod platform;
pub mod q35_pci_ids;
