//! The firmware configuration device: named and numbered pieces of data that
//! firmware reads through ports or has copied into memory.
pub mod acpi_laws;
pub mod acpi_loader;
pub mod boot;
pub mod content;
pub mod device;
pub mod names;
pub mod populate;
pub mod smbios;
pub mod state;
