//! One row of the trace: a word and its eight limbs.
use vstd::prelude::*;
use crate::backend::{AdviceColumn, RegionHandle};
use crate::spec::hash::word_limb;
use crate::types::blake2b_word::AssignedBlake2bWord;
use crate::types::byte::AssignedByte;

verus! {

/// A row of the shape
/// `full_number | limb_0 | limb_1 | limb_2 | limb_3 | limb_4 | limb_5 | limb_6 | limb_7`,
/// where the limbs are the little-endian bytes of the full number.
#[derive(Clone, Copy)]
pub struct AssignedRow {
    pub full_number: AssignedBlake2bWord,
    pub limbs: [AssignedByte; 8],
}

impl AssignedRow {
    /// Puts a full number and its eight limbs together.
    pub fn new(full_number: AssignedBlake2bWord, limbs: [AssignedByte; 8]) -> (row: Self)
        ensures
            row.full_number == full_number,
            row.limbs == limbs,
    {
        Self { full_number, limbs }
    }

    /// The limbs of the row as values, least significant first.
    pub open spec fn limb_values(&self) -> Seq<Option<u8>> {
        Seq::new(8, |i: int| self.limbs[i]@)
    }

    /// The region holds the requests that wrote this row at `row`: the full
    /// number in the column `full_number_u64`, and limb `i` in the column
    /// `limbs[i]`.
    pub open spec fn written_at(
        &self,
        region: RegionHandle<'_>,
        full_number_u64: AdviceColumn,
        limbs: [AdviceColumn; 8],
        row: int,
    ) -> bool {
        &&& self.full_number.stands_at(region, full_number_u64, row)
        &&& forall|i: int|
            0 <= i < 8 ==> (#[trigger] self.limbs[i]).stands_at(region, limbs[i], row)
    }

    /// The limbs are those of the full number, and known exactly when it is.
    pub open spec fn decomposed(&self) -> bool {
        forall|i: int| 0 <= i < 8 ==> (#[trigger] self.limbs[i])@ == word_limb(self.full_number@, i)
    }
}

} // verus!
