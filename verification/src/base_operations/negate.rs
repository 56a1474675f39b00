//! Bitwise complement.
//!
//! The complement of a word is what is left of two to the 64 less one when the
//! word is taken away. This gate reads the word in the first column of one row
//! and its complement in the row below.
use vstd::prelude::*;
use midnight_proofs::plonk::{Error, Selector};
use crate::backend::{
    constraint_system_complex_selector, constraint_system_create_gate, declarations, extends,
    has_rows, is_enabled, region_enable_selector, AdviceColumn, ConstraintSystemHandle,
    Declaration, RegionHandle,
};
use crate::base_operations::polynomial::Poly;
use crate::spec::hash::word_not;
use crate::spec::words::{lemma_not_is_subtraction, pow2_64};
use crate::types::blake2b_word::{lemma_copy_kept, AssignedBlake2bWord, Blake2bWord};

verus! {

/// The selector of the negation gate.
#[derive(Clone, Copy)]
pub struct NegateConfig {
    pub q_negate: Selector,
}

/// What the polynomial of the negation computes from a word and its
/// complement.
pub open spec fn negation_constraint(input: int, output: int) -> int {
    pow2_64() - 1 - input - output
}

/// The polynomial of the negation gate. The word stands in the first column
/// of the row where the selector is on, its complement in the row below.
pub open spec fn negation_gate() -> Seq<Poly> {
    seq![Poly::constant(0xffff_ffff_ffff_ffff).minus(Poly::cell(0, 0)).minus(Poly::cell(0, 1))]
}

/// The polynomial of the negation gate computes the negation constraint from
/// the cells of the word and of its complement.
pub proof fn lemma_negation_polynomial(cells: spec_fn(int, int) -> int)
    ensures
        negation_gate()[0].well_formed(),
        negation_gate()[0].eval(cells) == negation_constraint(cells(0, 0), cells(1, 0)),
{
    reveal_with_fuel(Poly::eval, 6);
    reveal_with_fuel(Poly::well_formed, 6);
}

/// Builds the polynomial of the negation gate.
pub fn negation_polynomial() -> (p: Poly)
    ensures
        p == negation_gate()[0],
        p.well_formed(),
        forall|cells: spec_fn(int, int) -> int|
            #[trigger] p.eval(cells) == negation_constraint(cells(0, 0), cells(1, 0)),
{
    Poly::constant(0xffff_ffff_ffff_ffff).minus(Poly::cell(0, 0)).minus(Poly::cell(0, 1))
}

/// For words `input` and `output`, the negation polynomial vanishes exactly
/// when `output` is the bitwise complement of `input`, which is two to the 64
/// less one less `input`.
pub proof fn lemma_negation_gate(input: u64, output: u64)
    ensures
        negation_constraint(input as int, output as int) == 0 <==> output == !input,
        !input == pow2_64() - 1 - input,
{
    lemma_not_is_subtraction(input);
}

impl NegateConfig {
    /// The negation gate as the constraint system holds it: where `q_negate`
    /// is on, the polynomial of the negation vanishes.
    pub open spec fn gate(&self, columns: Seq<AdviceColumn>) -> Declaration {
        Declaration::Gate { selector: self.q_negate, columns, polys: negation_gate() }
    }

    /// Declares the negation gate.
    pub fn configure(meta: &mut ConstraintSystemHandle<'_>, columns: &[AdviceColumn; 9]) -> (config:
        Self)
        ensures
            declarations(*final(meta)) == declarations(*old(meta)).insert(config.gate(columns@)),
    {
        let q_negate = constraint_system_complex_selector(meta);
        let mut polys: Vec<Poly> = Vec::new();
        polys.push(negation_polynomial());
        assert(polys@ =~= negation_gate());
        constraint_system_create_gate(meta, "negate", &q_negate, columns, &polys);
        Self { q_negate }
    }

    /// Lays out the complement of `input` on two new rows: a copy of the
    /// input, bound to it, with the selector of the negation on its row, and below
    /// it the complement, which is handed back.
    pub fn generate_rows_from_cell(
        &self,
        region: &mut RegionHandle<'_>,
        offset: &mut usize,
        input: &AssignedBlake2bWord,
        full_number_u64: &AdviceColumn,
    ) -> (r: Result<AssignedBlake2bWord, Error>)
        requires
            has_rows(*old(region), *old(offset), 2),
        ensures
            extends(*final(region), *old(region)),
            r matches Ok(word) ==> {
                &&& *final(offset) == *old(offset) + 2
                &&& word@ == word_not(input@)
                &&& is_enabled(*final(region), self.q_negate, *old(offset) as int)
                &&& input.copied_to(*final(region), *full_number_u64, *old(offset) as int)
                &&& word.stands_at(*final(region), *full_number_u64, *old(offset) + 1)
            },
    {
        let result_value = match input.value() {
            Some(v) => {
                proof {
                    lemma_not_is_subtraction(v.0);
                }
                Some(Blake2bWord(0xffff_ffff_ffff_ffff).sub(v))
            },
            None => None,
        };
        region_enable_selector(region, &self.q_negate, *offset)?;
        input.copy_advice_word(region, full_number_u64, *offset, "negation input")?;
        let ghost copied = *region;
        *offset = *offset + 1;
        let result_cell = AssignedBlake2bWord::assign_advice_word(
            region,
            "negation output",
            full_number_u64,
            *offset,
            result_value,
        )?;
        *offset = *offset + 1;
        proof {
            lemma_copy_kept(copied, *region, *input, *full_number_u64, *offset - 2);
        }
        Ok(result_cell)
    }
}

} // verus!
