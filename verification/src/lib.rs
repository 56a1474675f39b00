//! BLAKE2b as a gadget for a PLONK-style proving system: the witness of every
//! cell, the rows it occupies and the gates that bind them.
pub mod backend;
pub mod base_operations;
pub mod blake2b;
pub mod error;
pub mod spec;
pub mod types;
pub mod usage_utils;
