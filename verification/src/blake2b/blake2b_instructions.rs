//! The instruction set of a BLAKE2b chip.
//!
//! The orchestration of a hash, block by block and round by round, is the same
//! for every chip; what a chip chooses is how many rows each step costs. The
//! trait below states what each step computes, and leaves the cost to the chip.
use vstd::prelude::*;
use midnight_curves::bls12_381::Fq;
use midnight_proofs::circuit::Layouter;
use midnight_proofs::plonk::Error;
use crate::backend::{extends, has_rows, RegionHandle};
use crate::base_operations::{native_bytes, natives_are_bytes};
use crate::blake2b::blake2b_chip::{
    byte_values, holds_iv, holds_zero, Blake2bChip, BLOCK_ROWS, COMPRESS_ROWS, CONSTANT_ROWS,
    MIX_ROWS, NEGATION_ROWS,
};
use crate::blake2b::utils::word_values;
use crate::error::Blake2bError;
use crate::spec::hash::{initial_state, state_after, state_bytes, total_blocks};
use crate::types::blake2b_word::AssignedBlake2bWord;
use crate::types::byte::AssignedByte;
use crate::types::AssignedNative;

verus! {

/// The cells of the constants: the initialization vector, the first word of
/// the initial state, and the zero that padding is bound to.
pub type ConstantCells = ([AssignedBlake2bWord; 8], AssignedBlake2bWord, AssignedNative);

/// What every BLAKE2b chip can do.
pub trait Blake2bInstructions: Clone {
    /// Rows that the constants take.
    spec fn constant_rows(&self) -> int;

    /// Rows that one mixing step takes.
    spec fn mix_rows(&self) -> int;

    /// Rows that the compression of one block takes, the last block or another.
    spec fn compress_rows(&self, is_last_block: bool) -> int;

    /// Rows that the blocks of a hash take, from their number.
    spec fn iteration_rows(&self, blocks: int) -> int;

    /// Populates all lookup tables needed for the chip.
    fn populate_lookup_tables<L: Layouter<Fq>>(&self, layouter: &mut L) -> (r: Result<(), Error>);

    /// Assigns the constants that the hash starts from: the initialization
    /// vector, the zero that padding is bound to, and the first word of the
    /// initial state, which folds in the key length and the digest length.
    fn assign_constant_advice_cells(
        &self,
        output_size: usize,
        key_size: usize,
        region: &mut RegionHandle<'_>,
        advice_offset: &mut usize,
    ) -> (r: Result<ConstantCells, Error>)
        requires
            has_rows(*old(region), *old(advice_offset), self.constant_rows()),
            0 <= self.constant_rows(),
            1 <= output_size <= 64,
            key_size <= 64,
        ensures
            extends(*final(region), *old(region)),
            r matches Ok((iv, initial_state_0, zero)) ==> {
                &&& *final(advice_offset) == *old(advice_offset) + self.constant_rows()
                &&& holds_iv(iv@)
                &&& initial_state_0@ == initial_state(key_size as int, output_size as int)[0]
                &&& holds_zero(zero)
            },
    ;

    /// The hash state before the first block: the initialization vector with
    /// its first word replaced.
    fn compute_initial_state(
        &self,
        iv_constant_cells: &[AssignedBlake2bWord; 8],
        initial_state_0: AssignedBlake2bWord,
    ) -> (r: Result<[AssignedBlake2bWord; 8], Error>)
        ensures
            r matches Ok(state) ==> state[0] == initial_state_0 && forall|i: int|
                1 <= i < 8 ==> state[i] == iv_constant_cells[i],
    ;

    /// The top loop of the hash: each block of the key and of the input is
    /// compressed into the hash state. The bytes handed back are the limbs of
    /// the final state, of which the digest is a prefix.
    fn perform_blake2b_iterations(
        &self,
        region: &mut RegionHandle<'_>,
        advice_offset: &mut usize,
        input: &[AssignedNative],
        key: &[AssignedNative],
        iv_constants: &[AssignedBlake2bWord; 8],
        global_state: &mut [AssignedBlake2bWord; 8],
        zero_constant_cell: AssignedNative,
    ) -> (r: Result<[AssignedByte; 64], Blake2bError>)
        requires
            key.len() <= 64,
            holds_iv(iv_constants@),
            holds_zero(zero_constant_cell),
            0 <= self.iteration_rows(total_blocks(input.len() as int, key.len() as int)),
            has_rows(
                *old(region),
                *old(advice_offset),
                self.iteration_rows(total_blocks(input.len() as int, key.len() as int)),
            ),
            input.len() + 128 <= usize::MAX,
        ensures
            extends(*final(region), *old(region)),
            r matches Err(e) ==> e is NotAByte || e is Backend,
            r matches Err(Blake2bError::NotAByte) ==> !(natives_are_bytes(input@)
                && natives_are_bytes(key@)),
            r matches Ok(bytes) ==> {
                &&& *final(advice_offset) == *old(advice_offset) + self.iteration_rows(
                    total_blocks(input.len() as int, key.len() as int),
                )
                &&& word_values(final(global_state)@) == state_after(
                    word_values(old(global_state)@),
                    native_bytes(input@),
                    native_bytes(key@),
                    total_blocks(input.len() as int, key.len() as int) as nat,
                )
                &&& byte_values(bytes@) == state_bytes(word_values(final(global_state)@))
            },
    ;

    /// One compression: the block is mixed into the hash state. For the last
    /// block of a hash `is_last_block` is set.
    fn compress(
        &self,
        region: &mut RegionHandle<'_>,
        row_offset: &mut usize,
        iv_constants: &[AssignedBlake2bWord; 8],
        global_state: &mut [AssignedBlake2bWord; 8],
        current_block: [AssignedBlake2bWord; 16],
        processed_bytes_count: u64,
        is_last_block: bool,
    ) -> (r: Result<[AssignedByte; 64], Error>)
        requires
            0 <= self.compress_rows(is_last_block),
            has_rows(*old(region), *old(row_offset), self.compress_rows(is_last_block)),
            holds_iv(iv_constants@),
        ensures
            extends(*final(region), *old(region)),
            r matches Ok(bytes) ==> {
                &&& *final(row_offset) == *old(row_offset) + self.compress_rows(is_last_block)
                &&& word_values(final(global_state)@) == crate::spec::hash::compress(
                    word_values(old(global_state)@),
                    word_values(current_block@),
                    processed_bytes_count,
                    is_last_block,
                )
                &&& byte_values(bytes@) == state_bytes(word_values(final(global_state)@))
            },
    ;

    /// One mixing step, of which a compression has 96: the words of `state`
    /// at the four positions `state_indexes` are mixed with the message words
    /// `x` and `y`.
    fn mix(
        &self,
        state_indexes: [usize; 4],
        x: AssignedBlake2bWord,
        y: AssignedBlake2bWord,
        state: &mut [AssignedBlake2bWord; 16],
        region: &mut RegionHandle<'_>,
        offset: &mut usize,
    ) -> (r: Result<(), Error>)
        requires
            0 <= self.mix_rows(),
            has_rows(*old(region), *old(offset), self.mix_rows()),
            forall|i: int| 0 <= i < 4 ==> state_indexes[i] < 16,
        ensures
            extends(*final(region), *old(region)),
            r is Ok ==> {
                &&& *final(offset) == *old(offset) + self.mix_rows()
                &&& word_values(final(state)@) == crate::spec::hash::mix(
                    word_values(old(state)@),
                    state_indexes[0] as int,
                    state_indexes[1] as int,
                    state_indexes[2] as int,
                    state_indexes[3] as int,
                    x@,
                    y@,
                )
            },
    ;
}

impl Blake2bInstructions for Blake2bChip {
    open spec fn constant_rows(&self) -> int {
        CONSTANT_ROWS as int
    }

    open spec fn mix_rows(&self) -> int {
        MIX_ROWS as int
    }

    open spec fn compress_rows(&self, is_last_block: bool) -> int {
        COMPRESS_ROWS + if is_last_block {
            NEGATION_ROWS as int
        } else {
            0
        }
    }

    open spec fn iteration_rows(&self, blocks: int) -> int {
        BLOCK_ROWS * blocks + NEGATION_ROWS
    }

    fn populate_lookup_tables<L: Layouter<Fq>>(&self, layouter: &mut L) -> (r: Result<(), Error>) {
        Blake2bChip::populate_lookup_tables(self, layouter)
    }

    fn assign_constant_advice_cells(
        &self,
        output_size: usize,
        key_size: usize,
        region: &mut RegionHandle<'_>,
        advice_offset: &mut usize,
    ) -> (r: Result<ConstantCells, Error>) {
        Blake2bChip::assign_constant_advice_cells(self, output_size, key_size, region, advice_offset)
    }

    fn compute_initial_state(
        &self,
        iv_constant_cells: &[AssignedBlake2bWord; 8],
        initial_state_0: AssignedBlake2bWord,
    ) -> (r: Result<[AssignedBlake2bWord; 8], Error>) {
        Ok(Blake2bChip::compute_initial_state(self, iv_constant_cells, initial_state_0))
    }

    fn perform_blake2b_iterations(
        &self,
        region: &mut RegionHandle<'_>,
        advice_offset: &mut usize,
        input: &[AssignedNative],
        key: &[AssignedNative],
        iv_constants: &[AssignedBlake2bWord; 8],
        global_state: &mut [AssignedBlake2bWord; 8],
        zero_constant_cell: AssignedNative,
    ) -> (r: Result<[AssignedByte; 64], Blake2bError>) {
        Blake2bChip::perform_blake2b_iterations(
            self,
            region,
            advice_offset,
            input,
            key,
            iv_constants,
            global_state,
            zero_constant_cell,
        )
    }

    fn compress(
        &self,
        region: &mut RegionHandle<'_>,
        row_offset: &mut usize,
        iv_constants: &[AssignedBlake2bWord; 8],
        global_state: &mut [AssignedBlake2bWord; 8],
        current_block: [AssignedBlake2bWord; 16],
        processed_bytes_count: u64,
        is_last_block: bool,
    ) -> (r: Result<[AssignedByte; 64], Error>) {
        Blake2bChip::compress(
            self,
            region,
            row_offset,
            iv_constants,
            global_state,
            current_block,
            processed_bytes_count,
            is_last_block,
        )
    }

    fn mix(
        &self,
        state_indexes: [usize; 4],
        x: AssignedBlake2bWord,
        y: AssignedBlake2bWord,
        state: &mut [AssignedBlake2bWord; 16],
        region: &mut RegionHandle<'_>,
        offset: &mut usize,
    ) -> (r: Result<(), Error>) {
        Blake2bChip::mix(self, state_indexes, x, y, state, region, offset)
    }
}

} // verus!
