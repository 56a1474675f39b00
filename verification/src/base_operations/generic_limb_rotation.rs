//! Rotation to the right by a whole number of limbs.
//!
//! Such a rotation costs no arithmetic: the limbs of the input are copied to
//! the output row at shifted positions, and the decomposition gate binds the
//! rotated word to them.
use vstd::prelude::*;
use midnight_proofs::plonk::{Error, Selector};
use crate::backend::{
    extends, has_rows, is_enabled, region_enable_selector, region_rows, AdviceColumn, RegionHandle,
};
use crate::base_operations::rotate_right_field_element;
use crate::spec::hash::word_rotate_right;
use crate::spec::words::{
    lemma_limbs_value, lemma_rotate_limbs, limbs_of, rotate_limbs, rotate_right,
};
use crate::types::blake2b_word::AssignedBlake2bWord;
use crate::types::byte::{lemma_byte_copy_kept, AssignedByte};
use crate::types::row::AssignedRow;

verus! {

/// The selector of the decomposition gate, which a limb rotation leans on.
#[derive(Clone, Copy)]
pub struct LimbRotation {
    pub q_decompose: Selector,
}

/// A word is another rotated to the right by `k` limbs exactly when its limbs
/// are the limbs of the other, each moved `k` positions towards the least
/// significant end: the equality constraints of a row bind the word.
pub proof fn lemma_limb_rotation_gate(input: u64, output: u64, k: int)
    requires
        1 <= k <= 7,
    ensures
        limbs_of(output) == rotate_limbs(limbs_of(input), k) <==> output == rotate_right(
            input,
            (8 * k) as u64,
        ),
{
    lemma_rotate_limbs(input, k);
    if limbs_of(output) == rotate_limbs(limbs_of(input), k) {
        lemma_limbs_value(output);
        lemma_limbs_value(rotate_right(input, (8 * k) as u64));
    }
}

impl LimbRotation {
    /// Keeps the selector of the decomposition gate.
    pub fn configure(q_decompose: Selector) -> (config: Self)
        ensures
            config.q_decompose == q_decompose,
    {
        Self { q_decompose }
    }

    /// Lays out `input_row` rotated to the right by `limbs_to_rotate_to_the_right`
    /// limbs on one new row, and hands back the rotated word, which stands in
    /// the first column of that row. Beside it stand copies of the limbs of the
    /// input, each bound to the limb it copies: limb `i` of the new row copies
    /// limb `i + limbs_to_rotate_to_the_right`, counted modulo 8. The
    /// decomposition is enabled on the new row.
    pub fn generate_rotation_rows_from_input_row(
        &self,
        region: &mut RegionHandle<'_>,
        offset: &mut usize,
        input_row: AssignedRow,
        limbs_to_rotate_to_the_right: usize,
        full_number_u64: &AdviceColumn,
        limbs: &[AdviceColumn; 8],
    ) -> (r: Result<AssignedBlake2bWord, Error>)
        requires
            has_rows(*old(region), *old(offset), 1),
            1 <= limbs_to_rotate_to_the_right <= 7,
            input_row.decomposed(),
        ensures
            extends(*final(region), *old(region)),
            r matches Ok(word) ==> {
                &&& *final(offset) == *old(offset) + 1
                &&& word@ == word_rotate_right(
                    input_row.full_number@,
                    (8 * limbs_to_rotate_to_the_right) as u64,
                )
                &&& word.stands_at(*final(region), *full_number_u64, *old(offset) as int)
                &&& is_enabled(*final(region), self.q_decompose, *old(offset) as int)
                &&& forall|i: int|
                    0 <= i < 8 ==> (#[trigger] input_row.limbs[(i + limbs_to_rotate_to_the_right)
                        % 8]).copied_to(*final(region), limbs[i], *old(offset) as int)
            },
    {
        let k = limbs_to_rotate_to_the_right;
        let result_value = match input_row.full_number.value() {
            Some(v) => Some(rotate_right_field_element(v, 8 * k)),
            None => None,
        };
        region_enable_selector(region, &self.q_decompose, *offset)?;
        let result_cell = AssignedBlake2bWord::assign_advice_word(
            region,
            "full number",
            full_number_u64,
            *offset,
            result_value,
        )?;
        let mut i: usize = 0;
        while i < 8
            invariant
                0 <= i <= 8,
                1 <= k <= 7,
                *offset == *old(offset),
                *offset < region_rows(*region),
                extends(*region, *old(region)),
                result_cell.stands_at(*region, *full_number_u64, *offset as int),
                is_enabled(*region, self.q_decompose, *offset as int),
                forall|j: int|
                    0 <= j < i ==> (#[trigger] input_row.limbs[(j + k) % 8]).copied_to(
                        *region,
                        limbs[j],
                        *offset as int,
                    ),
            decreases 8 - i,
        {
            let ghost before = *region;
            AssignedByte::copy_advice_byte(
                region,
                "rotated limb",
                &limbs[i],
                *offset,
                input_row.limbs[(i + k) % 8],
            )?;
            proof {
                assert forall|j: int| 0 <= j < i + 1 implies (#[trigger] input_row.limbs[(j + k)
                    % 8]).copied_to(*region, limbs[j], *offset as int) by {
                    if j < i {
                        lemma_byte_copy_kept(
                            before,
                            *region,
                            input_row.limbs[(j + k) % 8],
                            limbs[j],
                            *offset as int,
                        );
                    }
                }
            }
            i = i + 1;
        }
        *offset = *offset + 1;
        Ok(result_cell)
    }
}

} // verus!
