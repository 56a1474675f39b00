//! The carry of an addition, and the cell that holds one.
use vstd::prelude::*;
use midnight_proofs::circuit::Cell;
use midnight_proofs::plonk::Error;
use crate::backend::{
    extends, holds_advice, region_assign_advice, region_requests, region_rows, AdviceColumn,
    RegionHandle, Request,
};

verus! {

/// An integer in the range of 1 bit.
#[derive(Copy, Clone, Debug)]
pub struct Bit(pub bool);

/// Whether a field element, given by its little-endian bytes, is 0 or 1.
pub open spec fn fits_bit(repr: Seq<u8>) -> bool {
    &&& repr.len() > 0 ==> repr[0] <= 1
    &&& forall|i: int| 1 <= i < repr.len() ==> repr[i] == 0
}

impl Bit {
    /// Narrows a field element, given by its little-endian bytes, to a bit. An
    /// element other than 0 and 1 is no bit.
    pub fn new_from_field(field: &[u8; 32]) -> (bit: Option<Bit>)
        ensures
            bit is Some <==> fits_bit(field@),
            bit matches Some(b) ==> b.0 == (field@[0] == 1),
    {
        match crate::types::byte::Byte::new_from_field(field) {
            Some(b) => {
                if b.0 <= 1 {
                    Some(Bit(b.0 == 1))
                } else {
                    None
                }
            },
            None => None,
        }
    }
}

/// A cell whose value the circuit has bound to 0 or 1.
#[derive(Clone, Copy)]
pub struct AssignedBit {
    pub(crate) cell: Cell,
    pub(crate) value: Option<Bit>,
}

/// The truth value in an optional bit.
pub open spec fn bit_value(value: Option<Bit>) -> Option<bool> {
    match value {
        Some(b) => Some(b.0),
        None => None,
    }
}

/// A bit as the backend is handed it: 1 for true, 0 for false.
pub open spec fn bit_number(value: Option<bool>) -> Option<u64> {
    match value {
        Some(b) => Some(
            if b {
                1u64
            } else {
                0u64
            },
        ),
        None => None,
    }
}

impl AssignedBit {
    /// The region holds the request that wrote this bit at `row` of `column`.
    pub open spec fn stands_at(
        &self,
        region: RegionHandle<'_>,
        column: AdviceColumn,
        row: int,
    ) -> bool {
        holds_advice(region, column, row, self.spec_cell(), bit_number(self@))
    }

    /// Writes a bit at `offset` of `column`. The addition gate, which reads the cell, binds
    /// it to 0 or 1.
    pub(crate) fn assign_advice_bit(
        region: &mut RegionHandle<'_>,
        annotation: &str,
        column: &AdviceColumn,
        offset: usize,
        value: Option<Bit>,
    ) -> (r: Result<Self, Error>)
        requires
            offset < region_rows(*old(region)),
        ensures
            extends(*final(region), *old(region)),
            r matches Ok(b) ==> {
                &&& b@ == bit_value(value)
                &&& region_requests(*final(region)) == region_requests(*old(region)).insert(
                    Request::Advice {
                        column: *column,
                        row: offset,
                        cell: b.spec_cell(),
                        value: bit_number(b@),
                    },
                )
            },
    {
        let number = match value {
            Some(b) => Some(
                if b.0 {
                    1u64
                } else {
                    0u64
                },
            ),
            None => None,
        };
        let cell = region_assign_advice(region, annotation, column, offset, number)?;
        Ok(AssignedBit { cell, value })
    }

    /// The bit in the cell, or `None` while the witness is not known.
    pub closed spec fn view(&self) -> Option<bool> {
        match self.value {
            Some(b) => Some(b.0),
            None => None,
        }
    }

    /// The backend's name for the cell.
    pub closed spec fn spec_cell(&self) -> Cell {
        self.cell
    }

    /// The backend's name for the cell.
    #[verifier::when_used_as_spec(spec_cell)]
    pub fn cell(&self) -> (cell: Cell)
        ensures
            cell == self.spec_cell(),
    {
        self.cell
    }

    /// The bit in the cell, or `None` while the witness is not known.
    pub fn value(&self) -> (value: Option<Bit>)
        ensures
            self@ == bit_value(value),
    {
        self.value
    }
}

} // verus!
