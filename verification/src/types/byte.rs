//! The limb of a word, and the cell that holds one.
use vstd::prelude::*;
use midnight_proofs::circuit::Cell;
use midnight_proofs::plonk::Error;
use crate::backend::{
    extends, holds_advice, holds_equal, region_assign_advice, region_constrain_equal,
    region_requests, region_rows, AdviceColumn, RegionHandle, Request,
};
use crate::error::Blake2bError;
use crate::types::{get_word_from_le_field, AssignedNative};

verus! {

/// An integer in the range of 8 bits.
#[derive(Copy, Clone, Debug)]
pub struct Byte(pub u8);

/// Whether a field element, given by its little-endian bytes, is below 256.
pub open spec fn fits_byte(repr: Seq<u8>) -> bool {
    forall|i: int| 1 <= i < repr.len() ==> repr[i] == 0
}

impl Byte {
    /// Narrows a field element, given by its little-endian bytes, to a byte. An
    /// element of 256 or more is no byte.
    pub fn new_from_field(field: &[u8; 32]) -> (byte: Option<Byte>)
        ensures
            byte is Some <==> fits_byte(field@),
            byte matches Some(b) ==> b.0 == field@[0],
    {
        match get_word_from_le_field(field) {
            Some(w) => {
                if w <= 255 {
                    assert(fits_byte(field@)) by {
                        let l = field@.subrange(0, 8);
                        assert(l[1] == 0 && l[2] == 0 && l[3] == 0 && l[4] == 0 && l[5] == 0 && l[6]
                            == 0 && l[7] == 0);
                    }
                    assert(field@.subrange(0, 8)[0] == field@[0]);
                    Some(Byte(field[0]))
                } else {
                    assert(!fits_byte(field@)) by {
                        let l = field@.subrange(0, 8);
                        if fits_byte(field@) {
                            assert(l[1] == 0 && l[2] == 0 && l[3] == 0 && l[4] == 0 && l[5] == 0
                                && l[6] == 0 && l[7] == 0);
                        }
                    }
                    None
                }
            },
            None => None,
        }
    }

    /// Bitwise exclusive or.
    pub fn bitxor(self, rhs: Self) -> (out: Self)
        ensures
            out.0 == self.0 ^ rhs.0,
    {
        Byte(self.0 ^ rhs.0)
    }
}

/// A cell whose value the circuit has bound to the range of 8 bits.
#[derive(Clone, Copy)]
pub struct AssignedByte {
    pub(crate) cell: Cell,
    pub(crate) value: Option<Byte>,
}

/// The number in an optional byte.
pub open spec fn byte_value(value: Option<Byte>) -> Option<u8> {
    match value {
        Some(b) => Some(b.0),
        None => None,
    }
}

/// A byte as the backend is handed it, widened to 64 bits.
pub open spec fn widened(value: Option<u8>) -> Option<u64> {
    match value {
        Some(b) => Some(b as u64),
        None => None,
    }
}

/// The number in an optional byte, widened for the backend.
pub fn byte_number(value: Option<Byte>) -> (number: Option<u64>)
    ensures
        number == widened(byte_value(value)),
{
    match value {
        Some(b) => Some(b.0 as u64),
        None => None,
    }
}

/// The byte that an unchecked cell holds: `None` while its witness is not
/// known, else the least significant byte of its field element.
pub open spec fn native_byte(value: Option<[u8; 32]>) -> Option<u8> {
    match value {
        Some(repr) => Some(repr@[0]),
        None => None,
    }
}

/// Whether an unchecked cell can be read as a byte: its witness is not known, or
/// is below 256.
pub open spec fn native_is_byte(value: Option<[u8; 32]>) -> bool {
    value matches Some(repr) ==> fits_byte(repr@)
}

/// A region that is further filled still holds a copy that it held.
pub proof fn lemma_byte_copy_kept(
    before: RegionHandle<'_>,
    after: RegionHandle<'_>,
    byte: AssignedByte,
    column: AdviceColumn,
    row: int,
)
    requires
        extends(after, before),
        byte.copied_to(before, column, row),
    ensures
        byte.copied_to(after, column, row),
{
    let copy = choose|copy: Cell| #[trigger]
        holds_advice(before, column, row, copy, widened(byte@)) && holds_equal(
            before,
            byte.spec_cell(),
            copy,
        );
    assert(holds_advice(after, column, row, copy, widened(byte@)));
}

impl AssignedByte {
    /// The region holds the requests of a copy of this byte at `row` of
    /// `column`: a cell with the byte as its witness, and an equality constraint
    /// between this cell and that one.
    pub open spec fn copied_to(
        &self,
        region: RegionHandle<'_>,
        column: AdviceColumn,
        row: int,
    ) -> bool {
        exists|copy: Cell| #[trigger]
            holds_advice(region, column, row, copy, widened(self@)) && holds_equal(
                region,
                self.spec_cell(),
                copy,
            )
    }

    /// The region holds the request that wrote this byte at `row` of `column`.
    pub open spec fn stands_at(
        &self,
        region: RegionHandle<'_>,
        column: AdviceColumn,
        row: int,
    ) -> bool {
        holds_advice(region, column, row, self.spec_cell(), widened(self@))
    }

    /// Copies an unchecked cell into `column` at `offset` as a byte, and binds
    /// the copy to that cell by an equality constraint. A known value of 256
    /// or more is refused before the region is touched. The caller enables the
    /// range check on the row: nothing else keeps a prover's value below 256.
    pub(crate) fn copy_advice_byte_from_native(
        region: &mut RegionHandle<'_>,
        annotation: &str,
        column: &AdviceColumn,
        offset: usize,
        cell_to_copy: AssignedNative,
    ) -> (r: Result<Self, Blake2bError>)
        requires
            offset < region_rows(*old(region)),
        ensures
            extends(*final(region), *old(region)),
            r matches Err(Blake2bError::NotAByte) <==> !native_is_byte(cell_to_copy.value()),
            r matches Err(e) ==> e is NotAByte || e is Backend,
            !native_is_byte(cell_to_copy.value()) ==> *final(region) == *old(region),
            r matches Ok(b) ==> {
                &&& b@ == native_byte(cell_to_copy.value())
                &&& region_requests(*final(region)) == region_requests(*old(region)).insert(
                    Request::Advice {
                        column: *column,
                        row: offset,
                        cell: b.spec_cell(),
                        value: widened(b@),
                    },
                ).insert(Request::Equal { left: cell_to_copy.spec_cell(), right: b.spec_cell() })
            },
    {
        let byte_value = match cell_to_copy.field_value() {
            Some(repr) => match Byte::new_from_field(&repr) {
                Some(b) => Some(b),
                None => {
                    return Err(Blake2bError::NotAByte);
                },
            },
            None => None,
        };
        let cell = match region_assign_advice(
            region,
            annotation,
            column,
            offset,
            byte_number(byte_value),
        ) {
            Ok(cell) => cell,
            Err(e) => {
                return Err(Blake2bError::Backend(e));
            },
        };
        match region_constrain_equal(region, cell_to_copy.cell(), cell) {
            Ok(()) => {},
            Err(e) => {
                return Err(Blake2bError::Backend(e));
            },
        }
        Ok(AssignedByte { cell, value: byte_value })
    }

    /// Copies a byte into `column` at `offset`, bound to the cell it was read
    /// from by an equality constraint. That cell is range-checked, so the copy is.
    pub(crate) fn copy_advice_byte(
        region: &mut RegionHandle<'_>,
        annotation: &str,
        column: &AdviceColumn,
        offset: usize,
        cell_to_copy: AssignedByte,
    ) -> (r: Result<Self, Error>)
        requires
            offset < region_rows(*old(region)),
        ensures
            extends(*final(region), *old(region)),
            r matches Ok(b) ==> {
                &&& b@ == cell_to_copy@
                &&& region_requests(*final(region)) == region_requests(*old(region)).insert(
                    Request::Advice {
                        column: *column,
                        row: offset,
                        cell: b.spec_cell(),
                        value: widened(b@),
                    },
                ).insert(Request::Equal { left: cell_to_copy.spec_cell(), right: b.spec_cell() })
                &&& cell_to_copy.copied_to(*final(region), *column, offset as int)
            },
    {
        let cell = region_assign_advice(
            region,
            annotation,
            column,
            offset,
            byte_number(cell_to_copy.value),
        )?;
        region_constrain_equal(region, cell_to_copy.cell, cell)?;
        assert(holds_advice(*region, *column, offset as int, cell, widened(cell_to_copy@)));
        Ok(AssignedByte { cell, value: cell_to_copy.value })
    }

    /// Writes a byte at `offset` of `column`. The caller enables the range
    /// check on the row.
    pub(crate) fn assign_advice_byte(
        region: &mut RegionHandle<'_>,
        annotation: &str,
        column: &AdviceColumn,
        offset: usize,
        byte_value: Option<Byte>,
    ) -> (r: Result<AssignedByte, Error>)
        requires
            offset < region_rows(*old(region)),
        ensures
            extends(*final(region), *old(region)),
            r matches Ok(b) ==> {
                &&& b@ == self::byte_value(byte_value)
                &&& region_requests(*final(region)) == region_requests(*old(region)).insert(
                    Request::Advice {
                        column: *column,
                        row: offset,
                        cell: b.spec_cell(),
                        value: widened(b@),
                    },
                )
            },
    {
        let cell = region_assign_advice(
            region,
            annotation,
            column,
            offset,
            byte_number(byte_value),
        )?;
        Ok(AssignedByte { cell, value: byte_value })
    }

    /// The byte in the cell, or `None` while the witness is not known.
    pub closed spec fn view(&self) -> Option<u8> {
        match self.value {
            Some(b) => Some(b.0),
            None => None,
        }
    }

    /// The backend's name for the cell.
    pub closed spec fn spec_cell(&self) -> Cell {
        self.cell
    }

    /// Gets the backend's name for the cell of an assigned byte.
    #[verifier::when_used_as_spec(spec_cell)]
    pub fn cell(&self) -> (cell: Cell)
        ensures
            cell == self.spec_cell(),
    {
        self.cell
    }

    /// Gets the value of an assigned byte, or `None` while the witness is not known.
    pub fn value(&self) -> (value: Option<Byte>)
        ensures
            self@ == byte_value(value),
    {
        self.value
    }
}

} // verus!
