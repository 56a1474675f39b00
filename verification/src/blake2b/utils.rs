//! Constants of BLAKE2b and the arithmetic of its block schedule.
use vstd::prelude::*;
use midnight_proofs::plonk::Error;
use crate::backend::{extends, holds_equal, region_constrain_equal, RegionHandle};
use crate::error::Blake2bError;
use crate::types::blake2b_word::AssignedBlake2bWord;
use crate::types::row::AssignedRow;
use crate::types::AssignedNative;

verus! {

/// Size in bytes of one message block.
pub const BLAKE2B_BLOCK_SIZE: usize = 128;

/// The message schedule: row `r` orders the sixteen words of a block for round `r`.
pub const SIGMA: [[usize; 16]; 12] = [
    [0, 1, 2, 3, 4, 5, 6, 7, 8, 9, 10, 11, 12, 13, 14, 15],
    [14, 10, 4, 8, 9, 15, 13, 6, 1, 12, 0, 2, 11, 7, 5, 3],
    [11, 8, 12, 0, 5, 2, 15, 13, 10, 14, 3, 6, 7, 1, 9, 4],
    [7, 9, 3, 1, 13, 12, 11, 14, 2, 6, 5, 10, 4, 0, 15, 8],
    [9, 0, 5, 7, 2, 4, 10, 15, 14, 1, 11, 12, 6, 8, 3, 13],
    [2, 12, 6, 10, 0, 11, 8, 3, 4, 13, 7, 5, 15, 14, 1, 9],
    [12, 5, 1, 15, 14, 13, 4, 10, 0, 7, 6, 3, 9, 2, 8, 11],
    [13, 11, 7, 14, 12, 1, 3, 9, 5, 0, 15, 4, 8, 6, 2, 10],
    [6, 15, 14, 9, 11, 3, 0, 8, 12, 2, 13, 7, 1, 4, 10, 5],
    [10, 2, 8, 4, 7, 6, 1, 5, 15, 11, 9, 14, 3, 12, 13, 0],
    [0, 1, 2, 3, 4, 5, 6, 7, 8, 9, 10, 11, 12, 13, 14, 15],
    [14, 10, 4, 8, 9, 15, 13, 6, 1, 12, 0, 2, 11, 7, 5, 3],
];

/// The four positions of the working vector that each of the eight mixing
/// steps of a round updates: four columns, then four diagonals.
pub const ABCD: [[usize; 4]; 8] = [
    [0, 4, 8, 12],
    [1, 5, 9, 13],
    [2, 6, 10, 14],
    [3, 7, 11, 15],
    [0, 5, 10, 15],
    [1, 6, 11, 12],
    [2, 7, 8, 13],
    [3, 4, 9, 14],
];

/// The initialization vector.
pub const IV_CONSTANTS: [u64; 8] = [
    0x6A09E667F3BCC908u64,
    0xBB67AE8584CAA73Bu64,
    0x3C6EF372FE94F82Bu64,
    0xA54FF53A5F1D36F1u64,
    0x510E527FADE682D1u64,
    0x9B05688C2B3E6C1Fu64,
    0x1F83D9ABFB41BD6Bu64,
    0x5BE0CD19137E2179u64,
];

/// Checks the sizes that a hash is asked for: a digest of 1 to 64 bytes and a
/// key of at most 64 bytes.
pub fn enforce_input_sizes(output_size: usize, key_size: usize) -> (r: Result<(), Blake2bError>)
    ensures
        r is Ok <==> 1 <= output_size <= 64 && key_size <= 64,
        r matches Err(e) ==> (e is OutputSize <==> !(1 <= output_size <= 64)) && (e is KeySize <==> 1
            <= output_size <= 64),
{
    if output_size > 64 || output_size == 0 {
        Err(Blake2bError::OutputSize)
    } else if key_size > 64 {
        Err(Blake2bError::KeySize)
    } else {
        Ok(())
    }
}

/// The words of a sequence of cells.
pub open spec fn word_values(cells: Seq<AssignedBlake2bWord>) -> Seq<Option<u64>> {
    Seq::new(cells.len(), |i: int| cells[i]@)
}

/// The full number of each of the sixteen rows of a block.
pub fn full_number_of_each_state_row(current_block_rows: [AssignedRow; 16]) -> (words: [AssignedBlake2bWord; 16])
    ensures
        forall|i: int| 0 <= i < 16 ==> words[i] == (#[trigger] current_block_rows[i]).full_number,
{
    let mut words: [AssignedBlake2bWord; 16] = [current_block_rows[0].full_number;16];
    let mut i: usize = 0;
    while i < 16
        invariant
            0 <= i <= 16,
            forall|j: int| 0 <= j < i ==> words[j] == (#[trigger] current_block_rows[j]).full_number,
        decreases 16 - i,
    {
        words[i] = current_block_rows[i].full_number;
        i = i + 1;
    }
    words
}

/// The count of processed bytes that the compression of block `iteration`
/// folds in: the whole message for the last block, with 128 more where a key
/// came first, and 128 for every block so far otherwise.
pub fn compute_processed_bytes_count_value_for_iteration(
    iteration: usize,
    is_last_block: bool,
    input_size: usize,
    empty_key: bool,
) -> (count: u64)
    requires
        is_last_block ==> input_size + 128 <= usize::MAX,
        !is_last_block ==> 128 * (iteration + 1) <= usize::MAX,
    ensures
        count == if is_last_block {
            input_size + if empty_key {
                0int
            } else {
                128int
            }
        } else {
            128 * (iteration + 1)
        },
{
    let processed_bytes_count = if is_last_block {
        input_size + if empty_key {
            0
        } else {
            128
        }
    } else {
        128 * (iteration + 1)
    };
    processed_bytes_count as u64
}

/// The number of zero bytes at the end of a block: what the key leaves of its
/// block, what the message leaves of its last block, a whole block for an empty
/// message without a key, and none in between.
pub fn zeros_to_pad_in_current_block(
    key: &[AssignedNative],
    input_size: usize,
    is_last_block: bool,
    is_key_block: bool,
) -> (zeros: usize)
    requires
        key.len() <= 128,
    ensures
        zeros == if is_last_block && !is_key_block {
            if input_size == 0 {
                128int
            } else {
                (128 - input_size % 128) % 128
            }
        } else if is_key_block {
            128 - key.len()
        } else {
            0
        },
        zeros <= 128,
{
    if is_last_block && !is_key_block {
        if input_size == 0 {
            128
        } else {
            (BLAKE2B_BLOCK_SIZE - input_size % BLAKE2B_BLOCK_SIZE) % BLAKE2B_BLOCK_SIZE
        }
    } else if is_key_block {
        BLAKE2B_BLOCK_SIZE - key.len()
    } else {
        0
    }
}

/// The number of blocks to compress, from the number of blocks that the message
/// fills.
pub fn get_total_blocks_count(input_blocks: usize, is_input_empty: bool, is_key_empty: bool) -> (count:
    usize)
    requires
        input_blocks < usize::MAX,
    ensures
        count == if is_key_empty {
            if is_input_empty {
                1
            } else {
                input_blocks as int
            }
        } else if is_input_empty {
            1
        } else {
            input_blocks + 1
        },
{
    if is_key_empty {
        if is_input_empty {
            1
        } else {
            input_blocks
        }
    } else if is_input_empty {
        1
    } else {
        input_blocks + 1
    }
}

/// Whether the limb at position `limb` of row `row` of a block is one of its
/// last `zeros_amount` bytes.
pub fn is_padding_cell(zeros_amount: usize, row: usize, limb: usize) -> (padding: bool)
    requires
        row < 16,
        limb < 8,
    ensures
        padding == is_padding(zeros_amount as int, row as int, limb as int),
{
    zeros_amount >= 128 || 8 * row + limb >= 128 - zeros_amount
}

/// Whether byte `8 * row + limb` of a block is one of its last
/// `zeros_amount` bytes.
pub open spec fn is_padding(zeros_amount: int, row: int, limb: int) -> bool {
    8 * row + limb + zeros_amount >= 128
}

/// Binds the last `zeros_amount` limbs of a block to the cell of the constant
/// zero, each by an equality constraint. The block is walked from its last limb
/// backward, as padding stands at the end of a block. For a block without
/// padding nothing is asked of the region, and nothing can fail.
pub fn constrain_padding_cells_to_equal_zero(
    region: &mut RegionHandle<'_>,
    zeros_amount: usize,
    current_block_rows: &[AssignedRow; 16],
    zero_constant_cell: &AssignedNative,
) -> (r: Result<(), Error>)
    ensures
        extends(*final(region), *old(region)),
        zeros_amount == 0 ==> r is Ok && *final(region) == *old(region),
        r is Ok ==> forall|row: int, limb: int|
            0 <= row < 16 && 0 <= limb < 8 && is_padding(zeros_amount as int, row, limb)
                ==> holds_equal(
                *final(region),
                (#[trigger] current_block_rows[row].limbs[limb]).spec_cell(),
                zero_constant_cell.spec_cell(),
            ),
{
    let mut row: usize = 16;
    while row > 0
        invariant
            row <= 16,
            extends(*region, *old(region)),
            zeros_amount == 0 ==> *region == *old(region),
            forall|r: int, l: int|
                row <= r < 16 && 0 <= l < 8 && is_padding(zeros_amount as int, r, l)
                    ==> holds_equal(
                    *region,
                    (#[trigger] current_block_rows[r].limbs[l]).spec_cell(),
                    zero_constant_cell.spec_cell(),
                ),
        decreases row,
    {
        row = row - 1;
        let mut limb: usize = 8;
        while limb > 0
            invariant
                limb <= 8,
                row < 16,
                extends(*region, *old(region)),
                zeros_amount == 0 ==> *region == *old(region),
                forall|r: int, l: int|
                    row < r < 16 && 0 <= l < 8 && is_padding(zeros_amount as int, r, l)
                        ==> holds_equal(
                        *region,
                        (#[trigger] current_block_rows[r].limbs[l]).spec_cell(),
                        zero_constant_cell.spec_cell(),
                    ),
                forall|l: int|
                    limb <= l < 8 && is_padding(zeros_amount as int, row as int, l)
                        ==> holds_equal(
                        *region,
                        (#[trigger] current_block_rows[row as int].limbs[l]).spec_cell(),
                        zero_constant_cell.spec_cell(),
                    ),
            decreases limb,
        {
            limb = limb - 1;
            if is_padding_cell(zeros_amount, row, limb) {
                region_constrain_equal(
                    region,
                    current_block_rows[row].limbs[limb].cell(),
                    zero_constant_cell.cell(),
                )?;
            }
        }
    }
    Ok(())
}

} // verus!
