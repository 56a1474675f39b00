//! The mathematics that the contracts of this crate speak of.
pub mod hash;
pub mod words;
