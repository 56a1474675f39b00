//! Addition modulo two to the 64.
//!
//! An addition takes three rows: the first operand, the second operand with the
//! carry beside it, and the sum with its limbs. Where the first operand is the
//! word of the row just written, that row is used as it stands and the
//! addition takes two rows.
use vstd::prelude::*;
use midnight_proofs::plonk::{Error, Selector};
use crate::backend::{
    constraint_system_complex_selector, constraint_system_create_gate, declarations, extends,
    has_rows, is_enabled, region_enable_selector, AdviceColumn, ConstraintSystemHandle,
    Declaration, RegionHandle,
};
use crate::base_operations::generate_row_from_word_and_keep_row;
use crate::base_operations::polynomial::{all_well_formed, Poly};
use crate::spec::hash::{word_add, word_carry};
use crate::spec::words::{add_carries, add_mod_64, pow2_64};
use crate::types::bit::{bit_value, AssignedBit, Bit};
use crate::types::blake2b_word::{lemma_copy_kept, word_value, AssignedBlake2bWord, Blake2bWord};
use crate::types::row::AssignedRow;

verus! {

/// The selector of the addition gate and the column of its carry, with the
/// selectors of the decomposition and of the range check for the row of the sum.
#[derive(Clone, Copy)]
pub struct AdditionMod64Config {
    pub carry: AdviceColumn,
    pub q_add: Selector,
    pub q_decompose: Selector,
    pub q_range: Selector,
}

/// What the first polynomial of the addition gate computes from the two
/// operands, the result and the carry.
pub open spec fn addition_constraint(x: int, y: int, result: int, carry: int) -> int {
    x + y - result - carry * pow2_64()
}

/// What the second polynomial of the addition gate computes from the carry.
pub open spec fn carry_constraint(carry: int) -> int {
    carry * (1 - carry)
}

/// The two polynomials of the addition gate. The operands stand in the first
/// column of the row where the selector is on and of the row below, the carry
/// beside the second operand, and the result in the first column two rows below.
pub open spec fn addition_gate() -> Seq<Poly> {
    let two_to_64 = Poly::constant(0xffff_ffff_ffff_ffff).plus(Poly::constant(1));
    let sum = Poly::cell(0, 0).plus(Poly::cell(0, 1));
    let wrapped = Poly::cell(0, 2).plus(Poly::cell(1, 1).times(two_to_64));
    seq![sum.minus(wrapped), Poly::cell(1, 1).times(Poly::constant(1).minus(Poly::cell(1, 1)))]
}

/// The first polynomial of the addition gate computes the addition constraint
/// from the cells of the two operands, the result and the carry, and the
/// second the carry constraint from the cell of the carry.
pub proof fn lemma_addition_polynomials(cells: spec_fn(int, int) -> int)
    ensures
        all_well_formed(addition_gate()),
        addition_gate()[0].eval(cells) == addition_constraint(
            cells(0, 0),
            cells(1, 0),
            cells(2, 0),
            cells(1, 1),
        ),
        addition_gate()[1].eval(cells) == carry_constraint(cells(1, 1)),
{
    reveal_with_fuel(Poly::eval, 6);
    reveal_with_fuel(Poly::well_formed, 6);
}

/// Builds the two polynomials of the addition gate.
pub fn addition_polynomials() -> (polys: Vec<Poly>)
    ensures
        polys@ == addition_gate(),
        polys.len() == 2,
        all_well_formed(polys@),
        forall|cells: spec_fn(int, int) -> int|
            #[trigger] polys[0].eval(cells) == addition_constraint(
                cells(0, 0),
                cells(1, 0),
                cells(2, 0),
                cells(1, 1),
            ),
        forall|cells: spec_fn(int, int) -> int|
            #[trigger] polys[1].eval(cells) == carry_constraint(cells(1, 1)),
{
    let two_to_64 = Poly::constant(0xffff_ffff_ffff_ffff).plus(Poly::constant(1));
    let sum = Poly::cell(0, 0).plus(Poly::cell(0, 1));
    let wrapped = Poly::cell(0, 2).plus(Poly::cell(1, 1).times(two_to_64));
    let first = sum.minus(wrapped);
    let second = Poly::cell(1, 1).times(Poly::constant(1).minus(Poly::cell(1, 1)));
    let mut polys: Vec<Poly> = Vec::new();
    polys.push(first);
    polys.push(second);
    assert(polys@ =~= addition_gate());
    polys
}

/// For words `x`, `y` and `result` and a carry of 0 or 1, the addition
/// polynomial vanishes exactly when `result` is the sum modulo two to the 64
/// and the carry is 1 exactly when the sum leaves the 64-bit range.
pub proof fn lemma_addition_gate(x: u64, y: u64, result: u64, carry: int)
    requires
        carry == 0 || carry == 1,
    ensures
        addition_constraint(x as int, y as int, result as int, carry) == 0 <==> result
            == add_mod_64(x, y) && (carry == 1 <==> add_carries(x, y)),
{
}

/// The carry polynomial vanishes on 0 and on 1, and on no other integer.
pub proof fn lemma_carry_gate(carry: int)
    ensures
        carry_constraint(carry) == 0 <==> carry == 0 || carry == 1,
{
    assert(carry * (1 - carry) == 0 <==> carry == 0 || carry == 1) by (nonlinear_arith);
}

impl AdditionMod64Config {
    /// Declares the addition gate, and keeps the selectors of the
    /// decomposition and of the range check for the row of the sum. The carry
    /// stands in the column of the first limb.
    pub fn configure(
        meta: &mut ConstraintSystemHandle<'_>,
        columns: &[AdviceColumn; 9],
        q_decompose: Selector,
        q_range: Selector,
    ) -> (config: Self)
        ensures
            config.carry == columns[1],
            config.q_decompose == q_decompose,
            config.q_range == q_range,
            declarations(*final(meta)) == declarations(*old(meta)).insert(config.gate(columns@)),
    {
        let q_add = constraint_system_complex_selector(meta);
        let polys = addition_polynomials();
        constraint_system_create_gate(meta, "sum mod 2 ^ 64", &q_add, columns, &polys);
        Self { carry: columns[1], q_add, q_decompose, q_range }
    }

    /// The addition gate as the constraint system holds it: where `q_add` is
    /// on, the polynomials of the addition vanish.
    pub open spec fn gate(&self, columns: Seq<AdviceColumn>) -> Declaration {
        Declaration::Gate { selector: self.q_add, columns, polys: addition_gate() }
    }

    /// The sum of two words modulo two to the 64, and its carry.
    pub fn calculate_result_and_carry(lhs: Option<Blake2bWord>, rhs: Option<Blake2bWord>) -> (out: (
        Option<Blake2bWord>,
        Option<Bit>,
    ))
        ensures
            word_value(out.0) == word_add(word_value(lhs), word_value(rhs)),
            bit_value(out.1) == word_carry(word_value(lhs), word_value(rhs)),
    {
        match (lhs, rhs) {
            (Some(a), Some(b)) => {
                let sum: u128 = a.0 as u128 + b.0 as u128;
                let carry = sum >= 0x1_0000_0000_0000_0000u128;
                let result = (sum % 0x1_0000_0000_0000_0000u128) as u64;
                (Some(Blake2bWord(result)), Some(Bit(carry)))
            },
            _ => (None, None),
        }
    }

    /// What the layout of an addition leaves in the region, from `first_row`
    /// on: the selector of the addition on the row of the first operand; the first
    /// operand, where it stood or as a copy bound to it; on the next row a copy
    /// of the second operand, bound to it, and the carry; on the row after, the
    /// sum and its limbs, with the decomposition and the range check enabled.
    pub open spec fn laid_out(
        &self,
        region: RegionHandle<'_>,
        full_number_u64: AdviceColumn,
        limbs: [AdviceColumn; 8],
        first_row: int,
        lhs: AssignedBlake2bWord,
        rhs: AssignedBlake2bWord,
        reused: bool,
        sum: AssignedRow,
        carry: AssignedBit,
    ) -> bool {
        &&& is_enabled(region, self.q_add, first_row)
        &&& if reused {
            lhs.stands_at(region, full_number_u64, first_row)
        } else {
            lhs.copied_to(region, full_number_u64, first_row)
        }
        &&& rhs.copied_to(region, full_number_u64, first_row + 1)
        &&& carry.stands_at(region, self.carry, first_row + 1)
        &&& sum.written_at(region, full_number_u64, limbs, first_row + 2)
        &&& is_enabled(region, self.q_decompose, first_row + 2)
        &&& is_enabled(region, self.q_range, first_row + 2)
    }

    /// A region that is further filled still holds an addition that it held.
    pub proof fn lemma_laid_out_kept(
        &self,
        before: RegionHandle<'_>,
        after: RegionHandle<'_>,
        full_number_u64: AdviceColumn,
        limbs: [AdviceColumn; 8],
        first_row: int,
        lhs: AssignedBlake2bWord,
        rhs: AssignedBlake2bWord,
        reused: bool,
        sum: AssignedRow,
        carry: AssignedBit,
    )
        requires
            extends(after, before),
            self.laid_out(before, full_number_u64, limbs, first_row, lhs, rhs, reused, sum, carry),
        ensures
            self.laid_out(after, full_number_u64, limbs, first_row, lhs, rhs, reused, sum, carry),
    {
        if !reused {
            lemma_copy_kept(before, after, lhs, full_number_u64, first_row);
        }
        lemma_copy_kept(before, after, rhs, full_number_u64, first_row + 1);
    }

    /// Lays out `previous_cell + cell_to_copy`. With
    /// `use_last_cell_as_first_operand` the first operand is read where it
    /// stands, in the first column of the row before `offset`; else it is copied
    /// to the row at `offset`. The row of the sum is decomposed and
    /// range-checked, and is the last row written.
    pub fn generate_addition_rows_from_cells(
        &self,
        region: &mut RegionHandle<'_>,
        offset: &mut usize,
        previous_cell: &AssignedBlake2bWord,
        cell_to_copy: &AssignedBlake2bWord,
        use_last_cell_as_first_operand: bool,
        full_number_u64: &AdviceColumn,
        limbs: &[AdviceColumn; 8],
    ) -> (r: Result<(AssignedRow, AssignedBit), Error>)
        requires
            has_rows(*old(region), *old(offset), if use_last_cell_as_first_operand {
                2int
            } else {
                3int
            }),
            use_last_cell_as_first_operand ==> previous_cell.stands_at(
                *old(region),
                *full_number_u64,
                *old(offset) - 1,
            ),
        ensures
            extends(*final(region), *old(region)),
            r matches Ok((row, carry)) ==> {
                &&& *final(offset) == *old(offset) + if use_last_cell_as_first_operand {
                    2int
                } else {
                    3int
                }
                &&& row.decomposed()
                &&& row.full_number@ == word_add(previous_cell@, cell_to_copy@)
                &&& carry@ == word_carry(previous_cell@, cell_to_copy@)
                &&& self.laid_out(
                    *final(region),
                    *full_number_u64,
                    *limbs,
                    *final(offset) - 3,
                    *previous_cell,
                    *cell_to_copy,
                    use_last_cell_as_first_operand,
                    row,
                    carry,
                )
            },
    {
        let (result_value, carry_value) = Self::calculate_result_and_carry(
            previous_cell.value(),
            cell_to_copy.value(),
        );
        if use_last_cell_as_first_operand {
            region_enable_selector(region, &self.q_add, *offset - 1)?;
        } else {
            region_enable_selector(region, &self.q_add, *offset)?;
            previous_cell.copy_advice_word(region, full_number_u64, *offset, "lhs")?;
            *offset = *offset + 1;
        }
        let ghost first = *region;
        cell_to_copy.copy_advice_word(region, full_number_u64, *offset, "rhs")?;
        let ghost second = *region;
        let carry_cell = AssignedBit::assign_advice_bit(
            region,
            "carry",
            &self.carry,
            *offset,
            carry_value,
        )?;
        *offset = *offset + 1;
        region_enable_selector(region, &self.q_decompose, *offset)?;
        region_enable_selector(region, &self.q_range, *offset)?;
        let result_row = generate_row_from_word_and_keep_row(
            region,
            result_value,
            *offset,
            full_number_u64,
            limbs,
        )?;
        *offset = *offset + 1;
        proof {
            if !use_last_cell_as_first_operand {
                lemma_copy_kept(first, *region, *previous_cell, *full_number_u64, *offset - 3);
            }
            lemma_copy_kept(second, *region, *cell_to_copy, *full_number_u64, *offset - 2);
        }
        Ok((result_row, carry_cell))
    }
}

} // verus!
