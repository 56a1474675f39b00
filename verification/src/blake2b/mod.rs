//! The BLAKE2b gadget: its constants, its block schedule and the chip that lays
//! the hash out in the trace, from the single mixing step up to the whole hash.
use vstd::prelude::*;

pub mod blake2b_chip;
pub mod blake2b_instructions;
pub mod blocks;
pub mod compression;
pub mod mixing;
pub mod utils;

verus! {

/// Number of advice columns required by the chip.
pub const NB_BLAKE2B_ADVICE_COLS: usize = 9;

} // verus!
