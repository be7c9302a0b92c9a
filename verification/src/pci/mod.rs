//! The PCI bus and its built-in devices.
pub mod bus;
pub mod configuration;
pub mod device;
