//! Rotation to the right by 63 bits.
//!
//! Rotating right by 63 is rotating left by 1: the word is doubled, and the bit
//! that leaves at the top comes back at the bottom. This gate reads the input in
//! the first column of one row and the output in the row below.
use vstd::prelude::*;
use midnight_proofs::plonk::{Error, Selector};
use crate::backend::{
    constraint_system_complex_selector, constraint_system_create_gate, declarations, extends,
    has_rows, is_enabled, region_enable_selector, AdviceColumn, ConstraintSystemHandle,
    Declaration, RegionHandle,
};
use crate::base_operations::polynomial::Poly;
use crate::base_operations::{generate_row_from_word_value, rotate_right_field_element};
use crate::spec::hash::word_rotate_right;
use crate::spec::words::{lemma_rotate_63, pow2_64, rotate_right};
use crate::types::blake2b_word::AssignedBlake2bWord;
use crate::types::row::AssignedRow;

verus! {

/// The selector of the 63-bit rotation gate, with the selectors of the
/// decomposition and of the range check for the row of the output.
#[derive(Clone, Copy)]
pub struct Rotate63Config {
    pub q_rot63: Selector,
    pub q_decompose: Selector,
    pub q_range: Selector,
}

/// What the polynomial of the 63-bit rotation computes from the input and the
/// output: a product that vanishes when the output is twice the input, or twice
/// the input less two to the 64 less one.
pub open spec fn rotation_63_constraint(input: int, output: int) -> int {
    (2 * input - output) * (2 * input - output - (pow2_64() - 1))
}

/// The polynomial of the 63-bit rotation gate. The input stands in the first
/// column of the row where the selector is on, the output in the row below.
pub open spec fn rotation_63_gate() -> Seq<Poly> {
    let doubled = Poly::constant(2).times(Poly::cell(0, 0));
    let difference = doubled.minus(Poly::cell(0, 1));
    let wrapped = doubled.minus(Poly::cell(0, 1)).minus(Poly::constant(0xffff_ffff_ffff_ffff));
    seq![difference.times(wrapped)]
}

/// The polynomial of the 63-bit rotation gate computes the rotation constraint
/// from the cells of the input and of the output.
pub proof fn lemma_rotation_63_polynomial(cells: spec_fn(int, int) -> int)
    ensures
        rotation_63_gate()[0].well_formed(),
        rotation_63_gate()[0].eval(cells) == rotation_63_constraint(cells(0, 0), cells(1, 0)),
{
    reveal_with_fuel(Poly::eval, 8);
    reveal_with_fuel(Poly::well_formed, 8);
}

/// Builds the polynomial of the 63-bit rotation gate.
pub fn rotation_63_polynomial() -> (p: Poly)
    ensures
        p == rotation_63_gate()[0],
        p.well_formed(),
        forall|cells: spec_fn(int, int) -> int|
            #[trigger] p.eval(cells) == rotation_63_constraint(cells(0, 0), cells(1, 0)),
{
    let doubled = Poly::constant(2).times(Poly::cell(0, 0));
    let difference = doubled.minus(Poly::cell(0, 1));
    let doubled = Poly::constant(2).times(Poly::cell(0, 0));
    let wrapped = doubled.minus(Poly::cell(0, 1)).minus(Poly::constant(0xffff_ffff_ffff_ffff));
    difference.times(wrapped)
}

/// For words `input` and `output`, the rotation polynomial vanishes exactly
/// when `output` is `input` rotated to the right by 63 bits.
pub proof fn lemma_rotation_63_gate(input: u64, output: u64)
    ensures
        rotation_63_constraint(input as int, output as int) == 0 <==> output == rotate_right(
            input,
            63,
        ),
{
    lemma_rotate_63(input);
    let a = 2 * input - output;
    let b = 2 * input - output - (pow2_64() - 1);
    assert(a * b == 0 <==> a == 0 || b == 0) by (nonlinear_arith);
}

impl Rotate63Config {
    /// The 63-bit rotation gate as the constraint system holds it: where
    /// `q_rot63` is on, the polynomial of the rotation vanishes.
    pub open spec fn gate(&self, columns: Seq<AdviceColumn>) -> Declaration {
        Declaration::Gate { selector: self.q_rot63, columns, polys: rotation_63_gate() }
    }

    /// Declares the 63-bit rotation gate, and keeps the selectors of the
    /// decomposition and of the range check for the row of the output.
    pub fn configure(
        meta: &mut ConstraintSystemHandle<'_>,
        columns: &[AdviceColumn; 9],
        q_decompose: Selector,
        q_range: Selector,
    ) -> (config: Self)
        ensures
            config.q_decompose == q_decompose,
            config.q_range == q_range,
            declarations(*final(meta)) == declarations(*old(meta)).insert(config.gate(columns@)),
    {
        let q_rot63 = constraint_system_complex_selector(meta);
        let mut polys: Vec<Poly> = Vec::new();
        polys.push(rotation_63_polynomial());
        assert(polys@ =~= rotation_63_gate());
        constraint_system_create_gate(meta, "rotate right 63", &q_rot63, columns, &polys);
        Self { q_rot63, q_decompose, q_range }
    }

    /// The region holds, at `row`, the output of a rotation: `word` with its
    /// limbs beside it, the decomposition and the range check enabled.
    #[verifier::opaque]
    pub open spec fn output_at(
        &self,
        region: RegionHandle<'_>,
        full_number_u64: AdviceColumn,
        limbs: [AdviceColumn; 8],
        word: AssignedBlake2bWord,
        row: int,
    ) -> bool {
        &&& is_enabled(region, self.q_decompose, row)
        &&& is_enabled(region, self.q_range, row)
        &&& word.stands_at(region, full_number_u64, row)
        &&& exists|output: AssignedRow| #[trigger]
            output.written_at(region, full_number_u64, limbs, row) && output.full_number == word
                && output.decomposed()
    }

    /// A region that is further filled still holds an output that it held.
    pub proof fn lemma_output_kept(
        &self,
        before: RegionHandle<'_>,
        after: RegionHandle<'_>,
        full_number_u64: AdviceColumn,
        limbs: [AdviceColumn; 8],
        word: AssignedBlake2bWord,
        row: int,
    )
        requires
            extends(after, before),
            self.output_at(before, full_number_u64, limbs, word, row),
        ensures
            self.output_at(after, full_number_u64, limbs, word, row),
    {
        reveal(Rotate63Config::output_at);
        let output = choose|output: AssignedRow| #[trigger]
            output.written_at(before, full_number_u64, limbs, row) && output.full_number == word
                && output.decomposed();
        assert(output.written_at(after, full_number_u64, limbs, row));
    }

    /// Lays out `input` rotated to the right by 63 bits on one new row. The
    /// input is read where it stands, in the first column of the row before
    /// `offset`. The output is decomposed and range-checked, and stands in the
    /// first column of the new row.
    pub fn generate_64_bit_rotation_from_cells(
        &self,
        region: &mut RegionHandle<'_>,
        offset: &mut usize,
        input: &AssignedBlake2bWord,
        full_number_u64: &AdviceColumn,
        limbs: &[AdviceColumn; 8],
    ) -> (r: Result<AssignedBlake2bWord, Error>)
        requires
            has_rows(*old(region), *old(offset), 1),
            input.stands_at(*old(region), *full_number_u64, *old(offset) - 1),
        ensures
            extends(*final(region), *old(region)),
            r matches Ok(word) ==> {
                &&& *final(offset) == *old(offset) + 1
                &&& word@ == word_rotate_right(input@, 63)
                &&& word.stands_at(*final(region), *full_number_u64, *old(offset) as int)
                &&& is_enabled(*final(region), self.q_rot63, *old(offset) - 1)
                &&& self.output_at(
                    *final(region),
                    *full_number_u64,
                    *limbs,
                    word,
                    *old(offset) as int,
                )
            },
    {
        let result_value = match input.value() {
            Some(v) => Some(rotate_right_field_element(v, 63)),
            None => None,
        };
        region_enable_selector(region, &self.q_rot63, *offset - 1)?;
        region_enable_selector(region, &self.q_decompose, *offset)?;
        region_enable_selector(region, &self.q_range, *offset)?;
        let result_row = generate_row_from_word_value(
            region,
            result_value,
            *offset,
            full_number_u64,
            limbs,
        )?;
        assert(self.output_at(
            *region,
            *full_number_u64,
            *limbs,
            result_row.full_number,
            *offset as int,
        )) by {
            reveal(Rotate63Config::output_at);
            assert(result_row.written_at(*region, *full_number_u64, *limbs, *offset as int));
        }
        *offset = *offset + 1;
        Ok(result_row.full_number)
    }
}

} // verus!
