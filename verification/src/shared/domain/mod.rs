//! Domain types: typed ids, enumerated values, storage-shape entities.

pub mod entities;
pub mod enums;
pub mod ids;
