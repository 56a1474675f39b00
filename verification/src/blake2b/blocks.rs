//! The blocks of a hash, laid out in the trace one after the other.
//!
//! A key takes the first block alone; the input follows, 128 bytes to a block.
//! Each block is copied into sixteen checked rows, padded with zeros at its end,
//! and compressed into the hash state.
use vstd::prelude::*;
use crate::backend::{extends, has_rows, holds_constant, holds_equal, region_rows, RegionHandle};
use crate::base_operations::{native_bytes, natives_are_bytes};
use crate::blake2b::utils::{
    compute_processed_bytes_count_value_for_iteration, constrain_padding_cells_to_equal_zero,
    full_number_of_each_state_row, get_total_blocks_count, is_padding, word_values,
    zeros_to_pad_in_current_block, BLAKE2B_BLOCK_SIZE,
};
use crate::error::Blake2bError;
use crate::spec::hash::{
    block_bytes, block_words, digest, initial_state, processed_bytes, state_after, state_bytes,
    total_blocks,
};
use crate::types::blake2b_word::AssignedBlake2bWord;
use crate::types::byte::{native_is_byte, AssignedByte};
use crate::types::row::AssignedRow;
use crate::types::AssignedNative;
use crate::blake2b::blake2b_chip::{
    byte_values, holds_iv, holds_zero, Blake2bChip, BLOCK_ROWS, CONSTANT_ROWS, NEGATION_ROWS,
};

verus! {

/// The 128 cells of block `i`: the key in block 0 when there is one, else the
/// next 128 cells of the input, in both cases filled up at the end with the cell
/// of the constant zero.
pub open spec fn block_cells(
    input: Seq<AssignedNative>,
    key: Seq<AssignedNative>,
    i: int,
    zero: AssignedNative,
) -> Seq<AssignedNative> {
    let first = if key.len() == 0 {
        128 * i
    } else {
        128 * (i - 1)
    };
    Seq::new(
        128,
        |k: int|
            if key.len() > 0 && i == 0 {
                if k < key.len() {
                    key[k]
                } else {
                    zero
                }
            } else if first + k < input.len() {
                input[first + k]
            } else {
                zero
            },
    )
}

/// The cells of a block hold the bytes of that block.
pub proof fn lemma_block_cells_bytes(
    input: Seq<AssignedNative>,
    key: Seq<AssignedNative>,
    i: int,
    zero: AssignedNative,
)
    requires
        holds_zero(zero),
        0 <= i,
        key.len() == 0 || i >= 1 || input.len() >= 0,
    ensures
        native_bytes(block_cells(input, key, i, zero)) == block_bytes(
            native_bytes(input),
            native_bytes(key),
            i,
        ),
{
    assert(native_bytes(block_cells(input, key, i, zero)) =~= block_bytes(
        native_bytes(input),
        native_bytes(key),
        i,
    ));
}

/// The full numbers of a sequence of rows.
pub open spec fn row_words(rows: Seq<AssignedRow>) -> Seq<AssignedBlake2bWord> {
    Seq::new(rows.len(), |i: int| rows[i].full_number)
}

/// What the blocks of a hash leave on their way: the sixteen rows of each
/// block, the hash state before each block and after the last, and the limbs of
/// the hash state after each block.
pub struct BlockRows {
    pub rows: Seq<Seq<AssignedRow>>,
    pub states: Seq<Seq<AssignedBlake2bWord>>,
    pub digests: Seq<Seq<AssignedByte>>,
}

impl Blake2bChip {
    /// The region holds the sixteen rows of a block from `start` on: each is
    /// decomposed and range-checked, each of its limbs is bound to the cell of
    /// the block that it copies, and the last `zeros` limbs of the block are
    /// bound to the cell of the constant zero.
    #[verifier::opaque]
    pub open spec fn block_at(
        &self,
        region: RegionHandle<'_>,
        start: int,
        cells: Seq<AssignedNative>,
        zeros: int,
        zero: AssignedNative,
        rows: Seq<AssignedRow>,
    ) -> bool {
        &&& rows.len() == 16
        &&& forall|i: int| 0 <= i < 16 ==> self.checked_row_at(region, #[trigger] rows[i], start + i)
        &&& forall|i: int, j: int|
            0 <= i < 16 && 0 <= j < 8 ==> holds_equal(
                region,
                cells[8 * i + j].spec_cell(),
                (#[trigger] rows[i].limbs[j]).spec_cell(),
            )
        &&& forall|i: int, j: int|
            0 <= i < 16 && 0 <= j < 8 && is_padding(zeros, i, j) ==> holds_equal(
                region,
                (#[trigger] rows[i].limbs[j]).spec_cell(),
                zero.spec_cell(),
            )
    }

    /// A region that is further filled still holds a block that it held.
    pub proof fn lemma_block_kept(
        &self,
        earlier: RegionHandle<'_>,
        later: RegionHandle<'_>,
        start: int,
        cells: Seq<AssignedNative>,
        zeros: int,
        zero: AssignedNative,
        rows: Seq<AssignedRow>,
    )
        requires
            extends(later, earlier),
            self.block_at(earlier, start, cells, zeros, zero, rows),
        ensures
            self.block_at(later, start, cells, zeros, zero, rows),
    {
        reveal(Blake2bChip::block_at);
    }

    /// Writes the sixteen rows of a block of 128 unchecked cells, each with
    /// the decomposition and the range check enabled.
    fn block_words_from_bytes(
        &self,
        region: &mut RegionHandle<'_>,
        offset: &mut usize,
        block: [AssignedNative; 128],
    ) -> (r: Result<[AssignedRow; 16], Blake2bError>)
        requires
            has_rows(*old(region), *old(offset), 16),
        ensures
            extends(*final(region), *old(region)),
            r matches Err(e) ==> e is NotAByte || e is Backend,
            r matches Err(Blake2bError::NotAByte) ==> !natives_are_bytes(block@),
            r is Ok ==> natives_are_bytes(block@),
            r matches Ok(rows) ==> {
                &&& *final(offset) == *old(offset) + 16
                &&& forall|i: int|
                    0 <= i < 16 ==> (#[trigger] rows[i]).full_number@ == block_words(
                        native_bytes(block@),
                    )[i]
                &&& forall|i: int|
                    0 <= i < 16 ==> self.checked_row_at(
                        *final(region),
                        #[trigger] rows[i],
                        *old(offset) + i,
                    )
                &&& forall|i: int, j: int|
                    0 <= i < 16 && 0 <= j < 8 ==> holds_equal(
                        *final(region),
                        block[8 * i + j].spec_cell(),
                        (#[trigger] rows[i].limbs[j]).spec_cell(),
                    )
            },
    {
        let bytes: [AssignedNative; 8] = [
            block[0],
            block[1],
            block[2],
            block[3],
            block[4],
            block[5],
            block[6],
            block[7],
        ];
        let first = self.new_row_from_assigned_bytes(&bytes, region, offset)?;
        proof {
            assert(native_bytes(bytes@) =~= native_bytes(block@).subrange(0, 8));
            assert forall|k: int| 0 <= k < 8 implies native_is_byte(
                (#[trigger] block@[k]).value(),
            ) by {
                assert(bytes@[k] == block@[k]);
            }
        }
        let mut current_block_rows: [AssignedRow; 16] = [first;16];
        current_block_rows[0] = first;
        let mut i: usize = 1;
        while i < 16
            invariant
                1 <= i <= 16,
                extends(*region, *old(region)),
                *offset == *old(offset) + i,
                has_rows(*old(region), *old(offset), 16),
                forall|k: int| 0 <= k < 8 * i ==> native_is_byte((#[trigger] block@[k]).value()),
                forall|j: int|
                    0 <= j < i ==> (#[trigger] current_block_rows[j]).full_number@ == block_words(
                        native_bytes(block@),
                    )[j],
                forall|j: int|
                    0 <= j < i ==> self.checked_row_at(
                        *region,
                        #[trigger] current_block_rows[j],
                        *old(offset) + j,
                    ),
                forall|j: int, l: int|
                    0 <= j < i && 0 <= l < 8 ==> holds_equal(
                        *region,
                        block[8 * j + l].spec_cell(),
                        (#[trigger] current_block_rows[j].limbs[l]).spec_cell(),
                    ),
            decreases 16 - i,
        {
            let bytes: [AssignedNative; 8] = [
                block[i * 8],
                block[i * 8 + 1],
                block[i * 8 + 2],
                block[i * 8 + 3],
                block[i * 8 + 4],
                block[i * 8 + 5],
                block[i * 8 + 6],
                block[i * 8 + 7],
            ];
            let current_row_cells = match self.new_row_from_assigned_bytes(&bytes, region, offset) {
                Ok(row) => row,
                Err(e) => {
                    proof {
                        if e is NotAByte {
                            let k = choose|k: int|
                                0 <= k < 8 && !native_is_byte((#[trigger] bytes@[k]).value());
                            assert(bytes@[k] == block@[8 * i + k]);
                        }
                    }
                    return Err(e);
                },
            };
            proof {
                assert(native_bytes(bytes@) =~= native_bytes(block@).subrange(8 * i, 8 * i + 8));
                assert forall|k: int| 8 * i <= k < 8 * i + 8 implies native_is_byte(
                    (#[trigger] block@[k]).value(),
                ) by {
                    assert(bytes@[k - 8 * i] == block@[k]);
                }
            }
            current_block_rows[i] = current_row_cells;
            i = i + 1;
        }
        Ok(current_block_rows)
    }

    /// The 128 cells of block `block_number`: the key or the next 128 cells of
    /// the input, filled up at the end with the cell of the constant zero.
    fn build_values_for_current_block(
        input: &[AssignedNative],
        key: &[AssignedNative],
        block_number: usize,
        last_input_block_index: usize,
        is_key_empty: bool,
        is_last_block: bool,
        is_key_block: bool,
        zero_constant_cell: AssignedNative,
    ) -> (block: [AssignedNative; 128])
        requires
            key.len() <= 128,
            input.len() + 128 <= usize::MAX,
            is_key_empty == (key.len() == 0),
            is_key_block == (!is_key_empty && block_number == 0),
            block_number < total_blocks(input.len() as int, key.len() as int),
            is_last_block == (block_number == total_blocks(input.len() as int, key.len() as int)
                - 1),
            last_input_block_index == if input.len() == 0 {
                0
            } else {
                (input.len() + 127) / 128 - 1
            },
        ensures
            block@ == block_cells(input@, key@, block_number as int, zero_constant_cell),
    {
        let mut block: [AssignedNative; 128] = [zero_constant_cell;128];
        let mut k: usize = 0;
        while k < 128
            invariant
                0 <= k <= 128,
                forall|j: int| 0 <= j < k ==> (#[trigger] block[j]) == zero_constant_cell,
            decreases 128 - k,
        {
            block[k] = zero_constant_cell;
            k = k + 1;
        }
        if is_key_block {
            let mut k: usize = 0;
            while k < key.len()
                invariant
                    0 <= k <= key.len() <= 128,
                    forall|j: int| 0 <= j < k ==> (#[trigger] block[j]) == key@[j],
                    forall|j: int| k <= j < 128 ==> (#[trigger] block[j]) == zero_constant_cell,
                decreases key.len() - k,
            {
                block[k] = key[k];
                k = k + 1;
            }
            proof {
                let cells = block_cells(input@, key@, block_number as int, zero_constant_cell);
                assert forall|j: int| 0 <= j < 128 implies block@[j] == cells[j] by {
                    assert(block[j] == block@[j]);
                }
                assert(block@ =~= cells);
            }
        } else {
            let first = if is_last_block {
                last_input_block_index * BLAKE2B_BLOCK_SIZE
            } else if is_key_empty {
                block_number * BLAKE2B_BLOCK_SIZE
            } else {
                (block_number - 1) * BLAKE2B_BLOCK_SIZE
            };
            let mut k: usize = 0;
            while k < 128 && first + k < input.len()
                invariant
                    0 <= k <= 128,
                    first + k <= input.len(),
                    input.len() + 128 <= usize::MAX,
                    forall|j: int| 0 <= j < k ==> (#[trigger] block[j]) == input@[first + j],
                    forall|j: int| k <= j < 128 ==> (#[trigger] block[j]) == zero_constant_cell,
                decreases 128 - k,
            {
                block[k] = input[first + k];
                k = k + 1;
            }
            proof {
                let spec_first = if key.len() == 0 {
                    128 * block_number
                } else {
                    128 * (block_number - 1)
                };
                assert(first == spec_first);
                let cells = block_cells(input@, key@, block_number as int, zero_constant_cell);
                assert forall|j: int| 0 <= j < 128 implies block@[j] == cells[j] by {
                    assert(block[j] == block@[j]);
                    if spec_first + j < input.len() {
                        assert(j < k);
                    }
                }
                assert(block@ =~= cells);
            }
        }
        block
    }

    /// The count of processed bytes that the compression of block `i` folds in.
    pub open spec fn counter_of(input_len: int, key_len: int, i: int) -> u64 {
        processed_bytes(i, input_len, key_len) as u64
    }

    /// Whether block `i` is the last block of a hash.
    pub open spec fn is_last(input_len: int, key_len: int, i: int) -> bool {
        i == total_blocks(input_len, key_len) - 1
    }

    /// The number of zero bytes at the end of block `i`.
    pub open spec fn padding_of(input_len: int, key_len: int, i: int) -> int {
        if key_len > 0 && i == 0 {
            128 - key_len
        } else if i == total_blocks(input_len, key_len) - 1 {
            if input_len == 0 {
                128
            } else {
                (128 - input_len % 128) % 128
            }
        } else {
            0
        }
    }

    /// The region holds the compression of block `index` of a hash from
    /// `start` on: the words of the block are the full numbers of `rows`, the
    /// count of processed bytes and the mark of the last block are those of the
    /// block, `before` and `after` are the hash state before and after, and
    /// `bytes` are the limbs of `after`.
    #[verifier::opaque]
    pub open spec fn compressed_at(
        &self,
        region: RegionHandle<'_>,
        start: int,
        index: int,
        input_len: int,
        key_len: int,
        iv: Seq<AssignedBlake2bWord>,
        rows: Seq<AssignedRow>,
        before: Seq<AssignedBlake2bWord>,
        after: Seq<AssignedBlake2bWord>,
        bytes: Seq<AssignedByte>,
    ) -> bool {
        exists|vectors: Seq<Seq<AssignedBlake2bWord>>| #[trigger]
            self.compress_at(
                region,
                start,
                before,
                iv,
                row_words(rows),
                Self::counter_of(input_len, key_len, index),
                Self::is_last(input_len, key_len, index),
                vectors,
                after,
                bytes,
            )
    }

    /// A region that is further filled still holds a compression that it held.
    pub proof fn lemma_compressed_kept(
        &self,
        earlier: RegionHandle<'_>,
        later: RegionHandle<'_>,
        start: int,
        index: int,
        input_len: int,
        key_len: int,
        iv: Seq<AssignedBlake2bWord>,
        rows: Seq<AssignedRow>,
        before: Seq<AssignedBlake2bWord>,
        after: Seq<AssignedBlake2bWord>,
        bytes: Seq<AssignedByte>,
    )
        requires
            extends(later, earlier),
            self.compressed_at(
                earlier,
                start,
                index,
                input_len,
                key_len,
                iv,
                rows,
                before,
                after,
                bytes,
            ),
        ensures
            self.compressed_at(
                later,
                start,
                index,
                input_len,
                key_len,
                iv,
                rows,
                before,
                after,
                bytes,
            ),
    {
        reveal(Blake2bChip::compressed_at);
        let t = Self::counter_of(input_len, key_len, index);
        let last = Self::is_last(input_len, key_len, index);
        let vectors = choose|vectors: Seq<Seq<AssignedBlake2bWord>>| #[trigger]
            self.compress_at(
                earlier,
                start,
                before,
                iv,
                row_words(rows),
                t,
                last,
                vectors,
                after,
                bytes,
            );
        self.lemma_compress_kept(
            earlier,
            later,
            start,
            before,
            iv,
            row_words(rows),
            t,
            last,
            vectors,
            after,
            bytes,
        );
    }

    /// Lays out block `i` of a hash and compresses it into the hash state:
    /// the cells of the block are copied into sixteen checked rows, the padding
    /// is bound to zero, and the words of the rows are compressed.
    fn process_block(
        &self,
        region: &mut RegionHandle<'_>,
        offset: &mut usize,
        input: &[AssignedNative],
        key: &[AssignedNative],
        iv_constants: &[AssignedBlake2bWord; 8],
        global_state: &mut [AssignedBlake2bWord; 8],
        zero_constant_cell: AssignedNative,
        i: usize,
    ) -> (r: Result<([AssignedByte; 64], Ghost<Seq<AssignedRow>>), Blake2bError>)
        requires
            key.len() <= 64,
            input.len() + 128 <= usize::MAX,
            holds_iv(iv_constants@),
            holds_zero(zero_constant_cell),
            i < total_blocks(input.len() as int, key.len() as int),
            has_rows(*old(region), *old(offset), BLOCK_ROWS + if Self::is_last(
                input.len() as int,
                key.len() as int,
                i as int,
            ) {
                NEGATION_ROWS as int
            } else {
                0
            }),
        ensures
            extends(*final(region), *old(region)),
            r matches Err(e) ==> e is NotAByte || e is Backend,
            r matches Err(Blake2bError::NotAByte) ==> !(natives_are_bytes(input@)
                && natives_are_bytes(key@)),
            r matches Ok((bytes, rows)) ==> {
                &&& *final(offset) == *old(offset) + BLOCK_ROWS + if Self::is_last(
                    input.len() as int,
                    key.len() as int,
                    i as int,
                ) {
                    NEGATION_ROWS as int
                } else {
                    0
                }
                &&& word_values(final(global_state)@) == crate::spec::hash::compress(
                    word_values(old(global_state)@),
                    block_words(block_bytes(native_bytes(input@), native_bytes(key@), i as int)),
                    Self::counter_of(input.len() as int, key.len() as int, i as int),
                    Self::is_last(input.len() as int, key.len() as int, i as int),
                )
                &&& byte_values(bytes@) == state_bytes(word_values(final(global_state)@))
                &&& self.state_rows_at(
                    *final(region),
                    final(global_state)@,
                    bytes@,
                    *final(offset) as int,
                )
                &&& self.block_at(
                    *final(region),
                    *old(offset) as int,
                    block_cells(input@, key@, i as int, zero_constant_cell),
                    Self::padding_of(input.len() as int, key.len() as int, i as int),
                    zero_constant_cell,
                    rows@,
                )
                &&& self.compressed_at(
                    *final(region),
                    *old(offset) + 16,
                    i as int,
                    input.len() as int,
                    key.len() as int,
                    iv_constants@,
                    rows@,
                    old(global_state)@,
                    final(global_state)@,
                    bytes@,
                )
            },
    {
        let input_size = input.len();
        let is_key_empty = key.len() == 0;
        let is_input_empty = input_size == 0;
        let input_blocks = (input_size + 127) / BLAKE2B_BLOCK_SIZE;
        let total_blocks = get_total_blocks_count(input_blocks, is_input_empty, is_key_empty);
        let last_input_block_index = if is_input_empty {
            0
        } else {
            input_blocks - 1
        };
        let is_last_block = i == total_blocks - 1;
        let is_key_block = !is_key_empty && i == 0;
        let ghost input_bytes = native_bytes(input@);
        let ghost key_bytes = native_bytes(key@);

        // The count of the bytes processed so far, which the compression folds in.
        let processed_bytes_count = compute_processed_bytes_count_value_for_iteration(
            i,
            is_last_block,
            input_size,
            is_key_empty,
        );
        let amount_of_zeros_to_pad = zeros_to_pad_in_current_block(
            key,
            input_size,
            is_last_block,
            is_key_block,
        );
        let current_block_values = Self::build_values_for_current_block(
            input,
            key,
            i,
            last_input_block_index,
            is_key_empty,
            is_last_block,
            is_key_block,
            zero_constant_cell,
        );
        proof {
            lemma_block_cells_bytes(input@, key@, i as int, zero_constant_cell);
        }
        let current_block_rows = match self.block_words_from_bytes(
            region,
            offset,
            current_block_values,
        ) {
            Ok(rows) => rows,
            Err(e) => {
                proof {
                    if e is NotAByte {
                        let k = choose|k: int|
                            0 <= k < 128 && !native_is_byte(
                                (#[trigger] current_block_values@[k]).value(),
                            );
                        if natives_are_bytes(input@) && natives_are_bytes(key@) {
                            let cell = block_cells(input@, key@, i as int, zero_constant_cell)[k];
                            assert(native_is_byte(cell.value()));
                        }
                    }
                }
                return Err(e);
            },
        };
        match constrain_padding_cells_to_equal_zero(
            region,
            amount_of_zeros_to_pad,
            &current_block_rows,
            &zero_constant_cell,
        ) {
            Ok(()) => {},
            Err(e) => {
                return Err(Blake2bError::Backend(e));
            },
        }
        let current_block_cells = full_number_of_each_state_row(current_block_rows);
        let ghost laid = *region;
        let ghost state_before = global_state@;
        proof {
            let m = block_words(block_bytes(input_bytes, key_bytes, i as int));
            assert forall|j: int| 0 <= j < 16 implies word_values(current_block_cells@)[j]
                == m[j] by {
                assert(current_block_cells[j] == current_block_rows[j].full_number);
            }
            assert(word_values(current_block_cells@) =~= m);
            assert(processed_bytes_count == processed_bytes(
                i as int,
                input.len() as int,
                key.len() as int,
            ));
            assert(current_block_cells@ =~= row_words(current_block_rows@));
            assert(self.block_at(
                laid,
                *old(offset) as int,
                block_cells(input@, key@, i as int, zero_constant_cell),
                Self::padding_of(input.len() as int, key.len() as int, i as int),
                zero_constant_cell,
                current_block_rows@,
            )) by {
                reveal(Blake2bChip::block_at);
            }
        }
        let bytes = match self.compress(
            region,
            offset,
            iv_constants,
            global_state,
            current_block_cells,
            processed_bytes_count,
            is_last_block,
        ) {
            Ok(bytes) => bytes,
            Err(e) => {
                return Err(Blake2bError::Backend(e));
            },
        };
        proof {
            self.lemma_block_kept(
                laid,
                *region,
                *old(offset) as int,
                block_cells(input@, key@, i as int, zero_constant_cell),
                Self::padding_of(input.len() as int, key.len() as int, i as int),
                zero_constant_cell,
                current_block_rows@,
            );
            let vectors = choose|vectors: Seq<Seq<AssignedBlake2bWord>>| #[trigger]
                self.compress_at(
                    *region,
                    *old(offset) + 16,
                    state_before,
                    iv_constants@,
                    current_block_cells@,
                    processed_bytes_count,
                    is_last_block,
                    vectors,
                    global_state@,
                    bytes@,
                );
            assert(processed_bytes_count == Self::counter_of(
                input.len() as int,
                key.len() as int,
                i as int,
            ));
            assert(is_last_block == Self::is_last(input.len() as int, key.len() as int, i as int));
            assert(self.compressed_at(
                *region,
                *old(offset) + 16,
                i as int,
                input.len() as int,
                key.len() as int,
                iv_constants@,
                current_block_rows@,
                state_before,
                global_state@,
                bytes@,
            )) by {
                reveal(Blake2bChip::compressed_at);
                assert(self.compress_at(
                    *region,
                    *old(offset) + 16,
                    state_before,
                    iv_constants@,
                    row_words(current_block_rows@),
                    Self::counter_of(input.len() as int, key.len() as int, i as int),
                    Self::is_last(input.len() as int, key.len() as int, i as int),
                    vectors,
                    global_state@,
                    bytes@,
                ));
            }
        }
        Ok((bytes, Ghost(current_block_rows@)))
    }

    /// The rows, the hash states and the digests that a hash leaves on its
    /// way, block by block.
    #[verifier::opaque]
    pub open spec fn blocks_at(
        &self,
        region: RegionHandle<'_>,
        start: int,
        input: Seq<AssignedNative>,
        key: Seq<AssignedNative>,
        iv: Seq<AssignedBlake2bWord>,
        zero: AssignedNative,
        layout: BlockRows,
    ) -> bool {
        &&& layout.states.len() == layout.rows.len() + 1
        &&& layout.digests.len() == layout.rows.len()
        &&& forall|i: int|
            0 <= i < layout.rows.len() ==> self.block_at(
                region,
                start + BLOCK_ROWS * i,
                block_cells(input, key, i, zero),
                Self::padding_of(input.len() as int, key.len() as int, i),
                zero,
                #[trigger] layout.rows[i],
            )
        &&& forall|i: int|
            0 <= i < layout.rows.len() ==> self.compressed_at(
                region,
                start + BLOCK_ROWS * i + 16,
                i,
                input.len() as int,
                key.len() as int,
                iv,
                layout.rows[i],
                #[trigger] layout.states[i],
                layout.states[i + 1],
                layout.digests[i],
            )
    }

    /// The top loop of the hash: each block of the key and of the input is
    /// laid out, padded, and compressed into the hash state. The bytes handed
    /// back are the limbs of the final state, of which a digest is a prefix.
    pub fn perform_blake2b_iterations(
        &self,
        region: &mut RegionHandle<'_>,
        offset: &mut usize,
        input: &[AssignedNative],
        key: &[AssignedNative],
        iv_constants: &[AssignedBlake2bWord; 8],
        global_state: &mut [AssignedBlake2bWord; 8],
        zero_constant_cell: AssignedNative,
    ) -> (r: Result<[AssignedByte; 64], Blake2bError>)
        requires
            key.len() <= 64,
            holds_iv(iv_constants@),
            holds_zero(zero_constant_cell),
            has_rows(
                *old(region),
                *old(offset),
                BLOCK_ROWS * total_blocks(input.len() as int, key.len() as int) + NEGATION_ROWS,
            ),
            input.len() + 128 <= usize::MAX,
        ensures
            extends(*final(region), *old(region)),
            r matches Err(e) ==> e is NotAByte || e is Backend,
            r matches Err(Blake2bError::NotAByte) ==> !(natives_are_bytes(input@)
                && natives_are_bytes(key@)),
            r matches Ok(bytes) ==> {
                &&& *final(offset) == *old(offset) + BLOCK_ROWS * total_blocks(
                    input.len() as int,
                    key.len() as int,
                ) + NEGATION_ROWS
                &&& word_values(final(global_state)@) == state_after(
                    word_values(old(global_state)@),
                    native_bytes(input@),
                    native_bytes(key@),
                    total_blocks(input.len() as int, key.len() as int) as nat,
                )
                &&& byte_values(bytes@) == state_bytes(word_values(final(global_state)@))
                &&& self.state_rows_at(
                    *final(region),
                    final(global_state)@,
                    bytes@,
                    *final(offset) as int,
                )
                &&& exists|layout: BlockRows| #[trigger]
                    self.blocks_at(
                        *final(region),
                        *old(offset) as int,
                        input@,
                        key@,
                        iv_constants@,
                        zero_constant_cell,
                        layout,
                    ) && layout.rows.len() == total_blocks(input.len() as int, key.len() as int)
                        && layout.states[0] == old(global_state)@ && layout.states.last()
                        == final(global_state)@ && layout.digests.last() == bytes@
            },
    {
        let input_size = input.len();
        let is_key_empty = key.len() == 0;
        let is_input_empty = input_size == 0;

        let input_blocks = (input_size + 127) / BLAKE2B_BLOCK_SIZE;
        let total_blocks = get_total_blocks_count(input_blocks, is_input_empty, is_key_empty);
        let ghost h0 = word_values(global_state@);
        let ghost input_bytes = native_bytes(input@);
        let ghost key_bytes = native_bytes(key@);
        let ghost start = *offset as int;

        let mut digest: Option<[AssignedByte; 64]> = None;
        let ghost mut layout = BlockRows {
            rows: Seq::empty(),
            states: seq![global_state@],
            digests: Seq::empty(),
        };
        let mut i: usize = 0;
        while i < total_blocks
            invariant
                0 <= i <= total_blocks,
                total_blocks == crate::spec::hash::total_blocks(input.len() as int, key.len() as int),
                key.len() <= 64,
                input.len() + 128 <= usize::MAX,
                holds_iv(iv_constants@),
                holds_zero(zero_constant_cell),
                input_bytes == native_bytes(input@),
                key_bytes == native_bytes(key@),
                extends(*region, *old(region)),
                *offset == start + 2465 * i + if i == total_blocks {
                    2int
                } else {
                    0int
                },
                start + 2465 * total_blocks + 2 <= region_rows(*region),
                start + 2465 * total_blocks + 2 <= usize::MAX,
                word_values(global_state@) == state_after(h0, input_bytes, key_bytes, i as nat),
                i > 0 ==> digest is Some,
                digest matches Some(bytes) ==> byte_values(bytes@) == state_bytes(
                    word_values(global_state@),
                ),
                digest matches Some(bytes) ==> self.state_rows_at(
                    *region,
                    global_state@,
                    bytes@,
                    *offset as int,
                ),
                layout.rows.len() == i,
                layout.states.len() == i + 1,
                layout.digests.len() == i,
                layout.states[0] == old(global_state)@,
                layout.states[i as int] == global_state@,
                digest matches Some(bytes) ==> layout.digests[i - 1] == bytes@,
                forall|b: int|
                    0 <= b < i ==> self.block_at(
                        *region,
                        start + BLOCK_ROWS * b,
                        block_cells(input@, key@, b, zero_constant_cell),
                        Self::padding_of(input.len() as int, key.len() as int, b),
                        zero_constant_cell,
                        #[trigger] layout.rows[b],
                    ),
                forall|b: int|
                    0 <= b < i ==> self.compressed_at(
                        *region,
                        start + BLOCK_ROWS * b + 16,
                        b,
                        input.len() as int,
                        key.len() as int,
                        iv_constants@,
                        layout.rows[b],
                        #[trigger] layout.states[b],
                        layout.states[b + 1],
                        layout.digests[b],
                    ),
            decreases total_blocks - i,
        {
            let ghost entry = *region;
            let (bytes, rows) = self.process_block(
                region,
                offset,
                input,
                key,
                iv_constants,
                global_state,
                zero_constant_cell,
                i,
            )?;
            proof {
                assert(word_values(global_state@) == state_after(
                    h0,
                    input_bytes,
                    key_bytes,
                    (i + 1) as nat,
                ));
                let earlier = layout;
                layout = BlockRows {
                    rows: earlier.rows.push(rows@),
                    states: earlier.states.push(global_state@),
                    digests: earlier.digests.push(bytes@),
                };
                assert forall|b: int| 0 <= b < i + 1 implies self.block_at(
                    *region,
                    start + BLOCK_ROWS * b,
                    block_cells(input@, key@, b, zero_constant_cell),
                    Self::padding_of(input.len() as int, key.len() as int, b),
                    zero_constant_cell,
                    #[trigger] layout.rows[b],
                ) by {
                    if b < i {
                        assert(layout.rows[b] == earlier.rows[b]);
                        self.lemma_block_kept(
                            entry,
                            *region,
                            start + BLOCK_ROWS * b,
                            block_cells(input@, key@, b, zero_constant_cell),
                            Self::padding_of(input.len() as int, key.len() as int, b),
                            zero_constant_cell,
                            earlier.rows[b],
                        );
                    }
                }
                assert forall|b: int| 0 <= b < i + 1 implies self.compressed_at(
                    *region,
                    start + BLOCK_ROWS * b + 16,
                    b,
                    input.len() as int,
                    key.len() as int,
                    iv_constants@,
                    layout.rows[b],
                    #[trigger] layout.states[b],
                    layout.states[b + 1],
                    layout.digests[b],
                ) by {
                    if b < i {
                        assert(layout.rows[b] == earlier.rows[b]);
                        assert(layout.states[b] == earlier.states[b]);
                        assert(layout.states[b + 1] == earlier.states[b + 1]);
                        assert(layout.digests[b] == earlier.digests[b]);
                        self.lemma_compressed_kept(
                            entry,
                            *region,
                            start + BLOCK_ROWS * b + 16,
                            b,
                            input.len() as int,
                            key.len() as int,
                            iv_constants@,
                            earlier.rows[b],
                            earlier.states[b],
                            earlier.states[b + 1],
                            earlier.digests[b],
                        );
                    }
                }
            }
            digest = Some(bytes);
            i = i + 1;
        }
        match digest {
            Some(bytes) => {
                assert(self.blocks_at(
                    *region,
                    start,
                    input@,
                    key@,
                    iv_constants@,
                    zero_constant_cell,
                    layout,
                )) by {
                    reveal(Blake2bChip::blocks_at);
                }
                assert(layout.states.last() == global_state@);
                assert(layout.digests.last() == bytes@);
                Ok(bytes)
            },
            None => vstd::pervasive::unreached(),
        }
    }

    /// What a hash leaves in a region that it fills from the first row on. On
    /// row 0 stand the eight words of the initialization vector, `iv`, and on
    /// row 1 the constant zero that padding is bound to, `zero`, and the first
    /// word of the initial state, each a constant of the circuit. The blocks
    /// follow from row 2 on, 2465 rows each; the hash state before the first is
    /// `iv` with the first word replaced.
    #[verifier::opaque]
    pub open spec fn hash_at(
        &self,
        region: RegionHandle<'_>,
        input: Seq<AssignedNative>,
        key: Seq<AssignedNative>,
        output_size: int,
        iv: Seq<AssignedBlake2bWord>,
        zero: AssignedNative,
        layout: BlockRows,
    ) -> bool {
        &&& holds_iv(iv)
        &&& forall|i: int| 0 <= i < 8 ==> (#[trigger] iv[i]).fixed_at(region, self@.limbs[i], 0)
        &&& holds_zero(zero)
        &&& holds_constant(region, self@.limbs[0], 1, zero.spec_cell(), 0)
        &&& layout.rows.len() == total_blocks(input.len() as int, key.len() as int)
        &&& layout.states[0].len() == 8
        &&& layout.states[0][0].fixed_at(region, self@.limbs[1], 1)
        &&& layout.states[0][0]@ == initial_state(key.len() as int, output_size)[0]
        &&& forall|i: int| 1 <= i < 8 ==> (#[trigger] layout.states[0][i]) == iv[i]
        &&& self.blocks_at(region, CONSTANT_ROWS as int, input, key, iv, zero, layout)
    }
}

} // verus!
