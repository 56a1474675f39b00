//! Values whose range is part of their type, and the cells that hold them.
//!
//! A field element reaches this crate as its canonical little-endian bytes. The
//! constructors below are the only way to narrow one to a bit, a byte or a word,
//! and each refuses an element outside its range.
use vstd::prelude::*;
use midnight_proofs::circuit::Cell;
use crate::spec::words::limbs_value;

pub mod bit;
pub mod blake2b_word;
pub mod byte;
pub mod row;

verus! {

/// Whether a field element, given by its little-endian bytes, is below two to the 64.
pub open spec fn fits_word(repr: Seq<u8>) -> bool {
    forall|i: int| 8 <= i < repr.len() ==> repr[i] == 0
}

/// The number that the low eight bytes of a field element spell.
pub open spec fn low_word(repr: Seq<u8>) -> int
    recommends
        repr.len() >= 8,
{
    limbs_value(repr.subrange(0, 8))
}

/// The 64-bit value of a field element given by its little-endian bytes, or
/// `None` where the element is two to the 64 or more.
pub fn get_word_from_le_field(repr: &[u8; 32]) -> (word: Option<u64>)
    ensures
        word is Some <==> fits_word(repr@),
        word matches Some(w) ==> w == low_word(repr@),
{
    let mut i: usize = 8;
    while i < 32
        invariant
            8 <= i <= 32,
            forall|j: int| 8 <= j < i ==> repr@[j] == 0,
        decreases 32 - i,
    {
        if repr[i] != 0 {
            return None;
        }
        i = i + 1;
    }
    let w: u64 = repr[0] as u64 + repr[1] as u64 * 0x100 + repr[2] as u64 * 0x1_0000 + repr[3] as u64
        * 0x100_0000 + repr[4] as u64 * 0x1_0000_0000 + repr[5] as u64 * 0x100_0000_0000
        + repr[6] as u64 * 0x1_0000_0000_0000 + repr[7] as u64 * 0x100_0000_0000_0000;
    assert(repr@.subrange(0, 8)[0] == repr@[0] && repr@.subrange(0, 8)[7] == repr@[7]);
    Some(w)
}

/// The canonical little-endian bytes of a 64-bit value seen as a field element.
pub fn field_bytes_of_word(w: u64) -> (repr: [u8; 32])
    ensures
        fits_word(repr@),
        low_word(repr@) == w,
{
    let l = crate::types::blake2b_word::Blake2bWord(w).to_le_bytes();
    let repr: [u8; 32] = [
        l[0], l[1], l[2], l[3], l[4], l[5], l[6], l[7], 0, 0, 0, 0, 0, 0, 0, 0, 0, 0, 0, 0, 0, 0,
        0, 0, 0, 0, 0, 0, 0, 0, 0, 0,
    ];
    proof {
        crate::spec::words::lemma_limbs_value(w);
        assert(repr@.subrange(0, 8) =~= l@);
    }
    repr
}

/// A cell of the trace whose value has not been range-checked: an input byte, a
/// key byte or the shared zero.
#[derive(Clone, Copy)]
pub struct AssignedNative {
    cell: Cell,
    value: Option<[u8; 32]>,
}

impl AssignedNative {
    /// Pairs a cell that the backend has handed out with the canonical
    /// little-endian bytes of the field element it holds, or with `None` while
    /// the witness is not known.
    pub fn new(cell: Cell, value: Option<[u8; 32]>) -> (native: Self)
        ensures
            native.value() == value,
            native.spec_cell() == cell,
    {
        AssignedNative { cell, value }
    }

    /// The field element in the cell, as its little-endian bytes.
    pub closed spec fn value(&self) -> Option<[u8; 32]> {
        self.value
    }

    /// The field element in the cell, as its little-endian bytes.
    #[verifier::when_used_as_spec(value)]
    pub fn field_value(&self) -> (value: Option<[u8; 32]>)
        ensures
            value == self.value(),
    {
        self.value
    }

    /// The backend's name for the cell.
    pub closed spec fn spec_cell(&self) -> Cell {
        self.cell
    }

    /// The backend's name for the cell.
    #[verifier::when_used_as_spec(spec_cell)]
    pub fn cell(&self) -> (cell: Cell)
        ensures
            cell == self.spec_cell(),
    {
        self.cell
    }
}

/// The field elements that a sequence of unchecked cells holds.
pub open spec fn native_values(cells: Seq<AssignedNative>) -> Seq<Option<[u8; 32]>> {
    Seq::new(cells.len(), |i: int| cells[i].value())
}

} // verus!
