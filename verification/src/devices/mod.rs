//! Device models of the platform.
pub mod fw_cfg;
pub mod hpet;
pub mod ich9_lpc;
pub mod pc_compat;
