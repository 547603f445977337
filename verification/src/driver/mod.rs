//! Decisions of the block driver: limits, kernel devices and mapped devices.

pub mod block_io;
pub mod device_laws;
pub mod inventory;
pub mod mapped_error;
pub mod mapped_identity;
pub mod mapped_owned;
pub mod mapped_tables;
pub mod mapped_volume;
pub mod mapping_laws;
pub mod progress;
pub mod request_laws;
pub mod requests;
pub mod settings;
pub mod ublk_types;
