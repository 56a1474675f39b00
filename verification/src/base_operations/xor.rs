//! Bitwise exclusive or, limb by limb.
//!
//! An XOR takes three rows, each a word with its limbs: the two operands and
//! the result. A lookup binds each triple of limbs to a table of all XORs of two
//! bytes. Where the first operand is the row just written, that row is used as
//! it stands and the XOR takes two rows.
use vstd::prelude::*;
use midnight_curves::bls12_381::Fq;
use midnight_proofs::circuit::Layouter;
use midnight_proofs::plonk::{Error, Selector, TableColumn};
use crate::backend::{
    constraint_system_complex_selector, constraint_system_lookup,
    constraint_system_lookup_table_column, declarations, extends, has_rows, holds_equal,
    is_complex, is_enabled, layouter_assign_table, region_enable_selector, AdviceColumn,
    ConstraintSystemHandle, Declaration, RegionHandle,
};
use crate::base_operations::polynomial::Poly;
use crate::base_operations::{
    generate_row_from_cell, generate_row_from_word_and_keep_row, LookupTable,
};
use crate::spec::hash::word_xor;
use crate::spec::words::{lemma_limbs_value, lemma_xor_limbs, limb, limbs_of};
use crate::types::blake2b_word::{word_value, AssignedBlake2bWord, Blake2bWord};
use crate::types::row::AssignedRow;

verus! {

/// The selector of the XOR lookup, its table and the columns it reads.
#[derive(Clone, Copy)]
pub struct XorConfig {
    pub q_xor: Selector,
    pub t_xor_left: TableColumn,
    pub t_xor_right: TableColumn,
    pub t_xor_out: TableColumn,
    pub full_number_u64: AdviceColumn,
    pub limbs: [AdviceColumn; 8],
    pub q_decompose: Selector,
}

/// A word is the XOR of two words exactly when each of its limbs is the XOR
/// of their limbs at the same position: the eight lookups of a row bind the word.
pub proof fn lemma_xor_gate(a: u64, b: u64, result: u64)
    ensures
        (forall|i: int| 0 <= i < 8 ==> limb(result, i) == #[trigger] limb(a, i) ^ limb(b, i))
            <==> result == a ^ b,
{
    assert forall|i: int| 0 <= i < 8 implies limb(a ^ b, i) == #[trigger] limb(a, i) ^ limb(b, i) by {
        lemma_xor_limbs(a, b, i);
    }
    if forall|i: int| 0 <= i < 8 ==> limb(result, i) == #[trigger] limb(a, i) ^ limb(b, i) {
        assert forall|i: int| 0 <= i < 8 implies limbs_of(result)[i] == limbs_of(a ^ b)[i] by {
            assert(limb(result, i) == limb(a, i) ^ limb(b, i));
        }
        assert(limbs_of(result) =~= limbs_of(a ^ b));
        lemma_limbs_value(result);
        lemma_limbs_value(a ^ b);
    }
}

impl XorConfig {
    /// The lookup of limb `limb` as the constraint system holds it: where
    /// `q_xor` is on, the limb of the row, the limb of the row below and the limb
    /// two rows below are together a row of the table.
    pub open spec fn lookup(&self, columns: Seq<AdviceColumn>, limb: int) -> Declaration {
        Declaration::Lookup {
            selector: self.q_xor,
            columns,
            inputs: seq![
                Poly::cell((1 + limb) as usize, 0),
                Poly::cell((1 + limb) as usize, 1),
                Poly::cell((1 + limb) as usize, 2),
            ],
            table: seq![self.t_xor_left, self.t_xor_right, self.t_xor_out],
        }
    }

    /// The XOR lookups of the first `n` limbs.
    pub open spec fn lookups(&self, columns: Seq<AdviceColumn>, n: int) -> Set<Declaration> {
        Set::new(
            |d: Declaration|
                exists|limb: int| 0 <= limb < n && d == #[trigger] self.lookup(columns, limb),
        )
    }

    /// Declares the table of all XORs of two bytes and the eight lookups, one
    /// for each limb, that read an operand on the row of the selector, the other
    /// on the row below and the result two rows below.
    pub fn configure(
        meta: &mut ConstraintSystemHandle<'_>,
        columns: &[AdviceColumn; 9],
        q_decompose: Selector,
    ) -> (config: Self)
        ensures
            config.full_number_u64 == columns[0],
            forall|i: int| 0 <= i < 8 ==> config.limbs[i] == columns[1 + i],
            config.q_decompose == q_decompose,
            declarations(*final(meta)) == declarations(*old(meta)).union(
                config.lookups(columns@, 8),
            ),
    {
        let q_xor = constraint_system_complex_selector(meta);
        let t_xor_left = constraint_system_lookup_table_column(meta);
        let t_xor_right = constraint_system_lookup_table_column(meta);
        let t_xor_out = constraint_system_lookup_table_column(meta);
        let config = Self {
            q_xor,
            t_xor_left,
            t_xor_right,
            t_xor_out,
            full_number_u64: columns[0],
            limbs: [
                columns[1],
                columns[2],
                columns[3],
                columns[4],
                columns[5],
                columns[6],
                columns[7],
                columns[8],
            ],
            q_decompose,
        };
        assert(declarations(*meta) =~= declarations(*old(meta)).union(config.lookups(columns@, 0)));
        let mut i: usize = 0;
        while i < 8
            invariant
                0 <= i <= 8,
                is_complex(q_xor),
                config.q_xor == q_xor,
                config.t_xor_left == t_xor_left,
                config.t_xor_right == t_xor_right,
                config.t_xor_out == t_xor_out,
                declarations(*meta) == declarations(*old(meta)).union(
                    config.lookups(columns@, i as int),
                ),
            decreases 8 - i,
        {
            let mut inputs: Vec<Poly> = Vec::new();
            inputs.push(Poly::cell(1 + i, 0));
            inputs.push(Poly::cell(1 + i, 1));
            inputs.push(Poly::cell(1 + i, 2));
            let mut table: Vec<TableColumn> = Vec::new();
            table.push(t_xor_left);
            table.push(t_xor_right);
            table.push(t_xor_out);
            assert(inputs@ =~= seq![
                Poly::cell((1 + i) as usize, 0),
                Poly::cell((1 + i) as usize, 1),
                Poly::cell((1 + i) as usize, 2),
            ]);
            assert(table@ =~= seq![t_xor_left, t_xor_right, t_xor_out]);
            constraint_system_lookup(meta, "xor lookup limb", &q_xor, columns, &inputs, &table);
            assert(config.lookups(columns@, i + 1).contains(config.lookup(columns@, i as int)));
            assert(declarations(*meta) =~= declarations(*old(meta)).union(
                config.lookups(columns@, i + 1),
            ));
            i = i + 1;
        }
        config
    }

    /// Fills the table of all XORs of two bytes.
    pub fn populate_xor_lookup_table<L: Layouter<Fq>>(&self, layouter: &mut L) -> (r: Result<
        (),
        Error,
    >) {
        layouter_assign_table(
            layouter,
            "xor check table",
            &LookupTable::Xor {
                left: self.t_xor_left,
                right: self.t_xor_right,
                out: self.t_xor_out,
            },
        )
    }

    /// The XOR of two words.
    pub fn calculate_xor(lhs: Option<Blake2bWord>, rhs: Option<Blake2bWord>) -> (out: Option<
        Blake2bWord,
    >)
        ensures
            word_value(out) == word_xor(word_value(lhs), word_value(rhs)),
    {
        match (lhs, rhs) {
            (Some(a), Some(b)) => Some(a.bitxor(b)),
            _ => None,
        }
    }

    /// The region holds, at `row`, a copy of `word` as an operand of the
    /// lookups: a row with the word and its limbs, the word bound to `word` by an
    /// equality constraint and to its limbs by the decomposition.
    #[verifier::opaque]
    pub open spec fn operand_at(
        &self,
        region: RegionHandle<'_>,
        word: AssignedBlake2bWord,
        row: int,
    ) -> bool {
        &&& is_enabled(region, self.q_decompose, row)
        &&& exists|copy: AssignedRow| #[trigger]
            copy.written_at(region, self.full_number_u64, self.limbs, row) && copy.decomposed()
                && copy.full_number@ == word@ && holds_equal(
                region,
                word.spec_cell(),
                copy.full_number.spec_cell(),
            )
    }

    /// The region holds, at `row`, the result of the lookups: a row with a
    /// word and its limbs, the word bound to its limbs by the decomposition.
    pub open spec fn result_at(
        &self,
        region: RegionHandle<'_>,
        result: AssignedRow,
        row: int,
    ) -> bool {
        &&& is_enabled(region, self.q_decompose, row)
        &&& result.written_at(region, self.full_number_u64, self.limbs, row)
    }

    /// A region that is further filled still holds an operand that it held.
    pub proof fn lemma_operand_kept(
        &self,
        before: RegionHandle<'_>,
        after: RegionHandle<'_>,
        word: AssignedBlake2bWord,
        row: int,
    )
        requires
            extends(after, before),
            self.operand_at(before, word, row),
        ensures
            self.operand_at(after, word, row),
    {
        reveal(XorConfig::operand_at);
        let copy = choose|copy: AssignedRow| #[trigger]
            copy.written_at(before, self.full_number_u64, self.limbs, row) && copy.decomposed()
                && copy.full_number@ == word@ && holds_equal(
                before,
                word.spec_cell(),
                copy.full_number.spec_cell(),
            );
        assert(copy.written_at(after, self.full_number_u64, self.limbs, row));
    }

    /// Lays out `lhs XOR rhs` on three new rows, and hands back the row of the
    /// result, which is decomposed and is the last row written.
    pub fn generate_xor_rows_from_cells(
        &self,
        region: &mut RegionHandle<'_>,
        offset: &mut usize,
        lhs: &AssignedBlake2bWord,
        rhs: &AssignedBlake2bWord,
    ) -> (r: Result<AssignedRow, Error>)
        requires
            has_rows(*old(region), *old(offset), 3),
        ensures
            extends(*final(region), *old(region)),
            r matches Ok(row) ==> {
                &&& *final(offset) == *old(offset) + 3
                &&& row.decomposed()
                &&& row.full_number@ == word_xor(lhs@, rhs@)
                &&& is_enabled(*final(region), self.q_xor, *old(offset) as int)
                &&& self.operand_at(*final(region), *lhs, *old(offset) as int)
                &&& self.operand_at(*final(region), *rhs, *old(offset) + 1)
                &&& self.result_at(*final(region), row, *old(offset) + 2)
            },
    {
        region_enable_selector(region, &self.q_decompose, *offset)?;
        let first = generate_row_from_cell(
            region,
            lhs,
            *offset,
            &self.full_number_u64,
            &self.limbs,
        )?;
        *offset = *offset + 1;
        let ghost copied = *region;
        assert(self.operand_at(copied, *lhs, *offset - 1)) by {
            reveal(XorConfig::operand_at);
            assert(first.written_at(copied, self.full_number_u64, self.limbs, *offset - 1));
        }
        let row = self.generate_xor_rows_reusing_first_operand(region, offset, &first, rhs)?;
        proof {
            self.lemma_operand_kept(copied, *region, *lhs, *offset - 3);
        }
        Ok(row)
    }

    /// Lays out `previous_operand XOR cell_to_copy` on two new rows. The first
    /// operand is read where it stands, on the row before `offset`. The row of
    /// the result is decomposed and is the last row written.
    pub fn generate_xor_rows_reusing_first_operand(
        &self,
        region: &mut RegionHandle<'_>,
        offset: &mut usize,
        previous_operand: &AssignedRow,
        cell_to_copy: &AssignedBlake2bWord,
    ) -> (r: Result<AssignedRow, Error>)
        requires
            has_rows(*old(region), *old(offset), 2),
            previous_operand.written_at(
                *old(region),
                self.full_number_u64,
                self.limbs,
                *old(offset) - 1,
            ),
            previous_operand.decomposed(),
        ensures
            extends(*final(region), *old(region)),
            r matches Ok(row) ==> {
                &&& *final(offset) == *old(offset) + 2
                &&& row.decomposed()
                &&& row.full_number@ == word_xor(previous_operand.full_number@, cell_to_copy@)
                &&& is_enabled(*final(region), self.q_xor, *old(offset) - 1)
                &&& self.operand_at(*final(region), *cell_to_copy, *old(offset) as int)
                &&& self.result_at(*final(region), row, *old(offset) + 1)
            },
    {
        let result_value = Self::calculate_xor(
            previous_operand.full_number.value(),
            cell_to_copy.value(),
        );
        region_enable_selector(region, &self.q_xor, *offset - 1)?;
        region_enable_selector(region, &self.q_decompose, *offset)?;
        let second = generate_row_from_cell(
            region,
            cell_to_copy,
            *offset,
            &self.full_number_u64,
            &self.limbs,
        )?;
        let ghost copied = *region;
        assert(self.operand_at(copied, *cell_to_copy, *offset as int)) by {
            reveal(XorConfig::operand_at);
            assert(second.written_at(copied, self.full_number_u64, self.limbs, *offset as int));
        }
        *offset = *offset + 1;
        region_enable_selector(region, &self.q_decompose, *offset)?;
        let result_row = generate_row_from_word_and_keep_row(
            region,
            result_value,
            *offset,
            &self.full_number_u64,
            &self.limbs,
        )?;
        *offset = *offset + 1;
        proof {
            self.lemma_operand_kept(copied, *region, *cell_to_copy, *offset - 2);
        }
        Ok(result_row)
    }
}

} // verus!
