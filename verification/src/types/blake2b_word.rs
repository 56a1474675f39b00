//! The 64-bit word that BLAKE2b computes on, and the cell that holds one.
use vstd::prelude::*;
use midnight_proofs::circuit::Cell;
use crate::spec::words::{lemma_limbs_unique, lemma_limbs_value, limbs_of, limbs_value};
use midnight_proofs::plonk::Error;
use crate::backend::{
    extends, holds_advice, holds_constant, holds_equal, region_assign_advice,
    region_assign_constant, region_constrain_equal, region_requests, region_rows, AdviceColumn,
    RegionHandle, Request,
};
use crate::types::{fits_word, get_word_from_le_field, low_word};

verus! {

/// An integer in the range of 64 bits.
#[derive(Copy, Clone, Debug)]
pub struct Blake2bWord(pub u64);

impl Blake2bWord {
    /// Narrows a field element, given by its little-endian bytes, to a word.
    /// An element of two to the 64 or more is no word.
    pub fn new_from_field(field: &[u8; 32]) -> (word: Option<Blake2bWord>)
        ensures
            word is Some <==> fits_word(field@),
            word matches Some(w) ==> w.0 == low_word(field@),
    {
        match get_word_from_le_field(field) {
            Some(w) => Some(Blake2bWord(w)),
            None => None,
        }
    }

    /// The eight limbs of the word, least significant first.
    pub fn to_le_bytes(self) -> (bytes: [u8; 8])
        ensures
            bytes@ == limbs_of(self.0),
            limbs_value(bytes@) == self.0,
    {
        let w = self.0;
        let bytes: [u8; 8] = [
            (w & 0xff) as u8,
            ((w >> 8) & 0xff) as u8,
            ((w >> 16) & 0xff) as u8,
            ((w >> 24) & 0xff) as u8,
            ((w >> 32) & 0xff) as u8,
            ((w >> 40) & 0xff) as u8,
            ((w >> 48) & 0xff) as u8,
            ((w >> 56) & 0xff) as u8,
        ];
        proof {
            assert(w >> 0 == w) by (bit_vector);
            assert(bytes@ =~= limbs_of(w));
            lemma_limbs_value(w);
        }
        bytes
    }

    /// The word that eight limbs spell, least significant first.
    pub fn from_le_bytes(bytes: &[u8; 8]) -> (word: Blake2bWord)
        ensures
            word.0 == limbs_value(bytes@),
            limbs_of(word.0) == bytes@,
    {
        let w: u64 = bytes[0] as u64 + bytes[1] as u64 * 0x100 + bytes[2] as u64 * 0x1_0000
            + bytes[3] as u64 * 0x100_0000 + bytes[4] as u64 * 0x1_0000_0000 + bytes[5] as u64
            * 0x100_0000_0000 + bytes[6] as u64 * 0x1_0000_0000_0000 + bytes[7] as u64
            * 0x100_0000_0000_0000;
        proof {
            lemma_limbs_unique(bytes@, w);
        }
        Blake2bWord(w)
    }

    /// Bitwise exclusive or.
    pub fn bitxor(self, rhs: Self) -> (out: Self)
        ensures
            out.0 == self.0 ^ rhs.0,
    {
        Blake2bWord(self.0 ^ rhs.0)
    }

    /// The difference of two words, the second no larger than the first.
    pub fn sub(self, rhs: Self) -> (out: Self)
        requires
            rhs.0 <= self.0,
        ensures
            out.0 == self.0 - rhs.0,
    {
        Blake2bWord(self.0 - rhs.0)
    }
}

/// A cell whose value the circuit has bound to the range of 64 bits.
#[derive(Clone, Copy)]
pub struct AssignedBlake2bWord {
    pub(crate) cell: Cell,
    pub(crate) value: Option<Blake2bWord>,
}

/// The number in an optional word.
pub open spec fn word_value(value: Option<Blake2bWord>) -> Option<u64> {
    match value {
        Some(w) => Some(w.0),
        None => None,
    }
}

/// The number in an optional word.
pub fn word_number(value: Option<Blake2bWord>) -> (number: Option<u64>)
    ensures
        number == word_value(value),
{
    match value {
        Some(w) => Some(w.0),
        None => None,
    }
}

/// A region that is further filled still holds a copy that it held.
pub proof fn lemma_copy_kept(
    before: RegionHandle<'_>,
    after: RegionHandle<'_>,
    word: AssignedBlake2bWord,
    column: AdviceColumn,
    row: int,
)
    requires
        extends(after, before),
        word.copied_to(before, column, row),
    ensures
        word.copied_to(after, column, row),
{
    let copy = choose|copy: Cell| #[trigger]
        holds_advice(before, column, row, copy, word@) && holds_equal(
            before,
            copy,
            word.spec_cell(),
        );
    assert(holds_advice(after, column, row, copy, word@));
}

impl AssignedBlake2bWord {
    /// The region holds the request that wrote this word at `row` of `column`.
    pub open spec fn stands_at(
        &self,
        region: RegionHandle<'_>,
        column: AdviceColumn,
        row: int,
    ) -> bool {
        holds_advice(region, column, row, self.spec_cell(), self@)
    }

    /// The region holds the request that wrote this word at `row` of `column`
    /// as a constant of the circuit.
    pub open spec fn fixed_at(
        &self,
        region: RegionHandle<'_>,
        column: AdviceColumn,
        row: int,
    ) -> bool {
        self@ matches Some(value) && holds_constant(region, column, row, self.spec_cell(), value)
    }

    /// The region holds the requests of a copy of this word at `row` of
    /// `column`: a cell with the word as its witness, and an equality constraint
    /// between that cell and this one.
    pub open spec fn copied_to(
        &self,
        region: RegionHandle<'_>,
        column: AdviceColumn,
        row: int,
    ) -> bool {
        exists|copy: Cell| #[trigger]
            holds_advice(region, column, row, copy, self@) && holds_equal(
                region,
                copy,
                self.spec_cell(),
            )
    }

    /// Writes a copy of the word at `offset` of `column`, bound to this cell
    /// by an equality constraint.
    pub(crate) fn copy_advice_word(
        &self,
        region: &mut RegionHandle<'_>,
        column: &AdviceColumn,
        offset: usize,
        annotation: &str,
    ) -> (r: Result<Self, Error>)
        requires
            offset < region_rows(*old(region)),
        ensures
            extends(*final(region), *old(region)),
            r matches Ok(w) ==> {
                &&& w@ == self@
                &&& region_requests(*final(region)) == region_requests(*old(region)).insert(
                    Request::Advice {
                        column: *column,
                        row: offset,
                        cell: w.spec_cell(),
                        value: self@,
                    },
                ).insert(Request::Equal { left: w.spec_cell(), right: self.spec_cell() })
                &&& self.copied_to(*final(region), *column, offset as int)
            },
    {
        let cell = region_assign_advice(
            region,
            annotation,
            column,
            offset,
            word_number(self.value),
        )?;
        region_constrain_equal(region, cell, self.cell)?;
        assert(holds_advice(*region, *column, offset as int, cell, self@));
        Ok(AssignedBlake2bWord { cell, value: self.value })
    }

    /// Writes a word that the circuit fixes to a constant known to everyone.
    pub(crate) fn assign_fixed_word(
        region: &mut RegionHandle<'_>,
        annotation: &str,
        column: &AdviceColumn,
        offset: usize,
        word_value: Blake2bWord,
    ) -> (r: Result<Self, Error>)
        requires
            offset < region_rows(*old(region)),
        ensures
            extends(*final(region), *old(region)),
            r matches Ok(w) ==> {
                &&& w@ == Some(word_value.0)
                &&& w.fixed_at(*final(region), *column, offset as int)
                &&& region_requests(*final(region)) == region_requests(*old(region)).insert(
                    Request::Constant {
                        column: *column,
                        row: offset,
                        cell: w.spec_cell(),
                        constant: word_value.0,
                    },
                )
            },
    {
        let cell = region_assign_constant(region, annotation, column, offset, word_value.0)?;
        Ok(AssignedBlake2bWord { cell, value: Some(word_value) })
    }

    /// Writes a word at `offset` of `column`.
    pub(crate) fn assign_advice_word(
        region: &mut RegionHandle<'_>,
        annotation: &str,
        column: &AdviceColumn,
        offset: usize,
        word_value: Option<Blake2bWord>,
    ) -> (r: Result<Self, Error>)
        requires
            offset < region_rows(*old(region)),
        ensures
            extends(*final(region), *old(region)),
            r matches Ok(w) ==> {
                &&& w@ == self::word_value(word_value)
                &&& w.stands_at(*final(region), *column, offset as int)
                &&& region_requests(*final(region)) == region_requests(*old(region)).insert(
                    Request::Advice { column: *column, row: offset, cell: w.spec_cell(), value: w@ },
                )
            },
    {
        let cell = region_assign_advice(
            region,
            annotation,
            column,
            offset,
            word_number(word_value),
        )?;
        Ok(AssignedBlake2bWord { cell, value: word_value })
    }

    /// The word in the cell, or `None` while the witness is not known.
    pub closed spec fn view(&self) -> Option<u64> {
        match self.value {
            Some(w) => Some(w.0),
            None => None,
        }
    }

    /// The word in the cell, or `None` while the witness is not known.
    pub fn value(&self) -> (value: Option<Blake2bWord>)
        ensures
            self@ == word_value(value),
    {
        self.value
    }

    /// The backend's name for the cell.
    pub closed spec fn spec_cell(&self) -> Cell {
        self.cell
    }

    /// The backend's name for the cell.
    #[verifier::when_used_as_spec(spec_cell)]
    pub fn cell(&self) -> (cell: Cell)
        ensures
            cell == self.spec_cell(),
    {
        self.cell
    }
}

} // verus!
