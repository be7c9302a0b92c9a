//! Bookkeeping of which guest pages are shared with the host.
pub mod bitmap;
pub mod ram_block_attributes;
pub mod ram_discard;
