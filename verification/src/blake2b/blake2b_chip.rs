//! The chip that lays a BLAKE2b hash out in the trace.
//!
//! Every word operation of the hash is one call of a gate, and every gate
//! writes its rows at a cursor that only moves forward. An addition or an XOR
//! whose first operand is the row just written reads it where it stands; the
//! contracts below say where each result stands, so that no such read can miss.
use vstd::prelude::*;
use midnight_curves::bls12_381::Fq;
use midnight_proofs::circuit::Layouter;
use midnight_proofs::plonk::{Error, Selector, TableColumn};
use crate::backend::{
    constraint_system_complex_selector, constraint_system_enable_constant,
    constraint_system_enable_equality, constraint_system_enable_instance_equality,
    constraint_system_lookup_table_column, declarations, extends, has_rows, holds_constant,
    holds_equal, is_enabled, layouter_assign_hash_region, layouter_constrain_instance,
    region_assign_constant,
    region_enable_selector, region_rows, AdviceColumn, ConstraintSystemHandle, Declaration,
    FixedColumn, InstanceColumn, RegionHandle,
};
use crate::base_operations::addition_mod_64::AdditionMod64Config;
use crate::base_operations::generic_limb_rotation::LimbRotation;
use crate::base_operations::negate::NegateConfig;
use crate::base_operations::rotate_63::Rotate63Config;
use crate::base_operations::xor::XorConfig;
use crate::base_operations::{
    create_limb_decomposition_gate, create_range_check_gate, decomposition_gate,
    generate_row_from_assigned_bytes, native_bytes, natives_are_bytes, populate_lookup_table,
    range_lookups,
};
use crate::blake2b::utils::{enforce_input_sizes, get_total_blocks_count, word_values, IV_CONSTANTS};
use crate::error::Blake2bError;
use crate::spec::hash::{
    bytes_word, digest, initial_state, total_blocks, word_add, word_carry, word_not,
    word_rotate_right, word_xor,
};
use crate::types::blake2b_word::{AssignedBlake2bWord, Blake2bWord};
use crate::types::byte::{lemma_byte_copy_kept, native_byte, native_is_byte, AssignedByte, Byte};
use crate::types::bit::AssignedBit;
use crate::types::row::AssignedRow;
use crate::types::{field_bytes_of_word, AssignedNative};
use crate::blake2b::blocks::BlockRows;

verus! {

/// Rows that one mixing step takes.
pub const MIX_ROWS: usize = 25;

/// Rows that the compression of one block takes, the two of the last block's
/// negation apart.
pub const COMPRESS_ROWS: usize = 2449;

/// Rows that one block takes: sixteen for its words, then its compression.
pub const BLOCK_ROWS: usize = 2465;

/// Rows that the constants take at the start of a hash.
pub const CONSTANT_ROWS: usize = 2;

/// Rows that the negation in the last block takes.
pub const NEGATION_ROWS: usize = 2;

/// Rows that a hash of `blocks` blocks takes.
pub open spec fn hash_rows(blocks: int) -> int {
    CONSTANT_ROWS + BLOCK_ROWS * blocks + NEGATION_ROWS
}

/// Selectors and columns for the blake2b chip implementation.
#[derive(Clone, Copy)]
pub struct Blake2bConfig {
    pub addition_config: AdditionMod64Config,
    pub generic_limb_rotation_config: LimbRotation,
    pub rotate_63_config: Rotate63Config,
    pub xor_config: XorConfig,
    pub negate_config: NegateConfig,
    /// Column for the full numbers.
    pub full_number_u64: AdviceColumn,
    /// Columns for the blake2b limbs.
    pub limbs: [AdviceColumn; 8],
    pub q_range: Selector,
    pub q_decompose: Selector,
    pub t_range: TableColumn,
    /// Column where the output of the blake2b hash will be stored.
    pub output: InstanceColumn,
}

impl Blake2bConfig {
    /// The gates of the chip read and write the same columns: the XOR
    /// lookups, which keep columns of their own, keep those of the chip.
    pub open spec fn well_formed(&self) -> bool {
        &&& self.xor_config.full_number_u64 == self.full_number_u64
        &&& self.xor_config.limbs == self.limbs
    }

    /// The columns of the chip in the order in which its polynomials name
    /// them: the full number, then the limbs.
    pub open spec fn columns(&self) -> Seq<AdviceColumn> {
        seq![
            self.full_number_u64,
            self.limbs[0],
            self.limbs[1],
            self.limbs[2],
            self.limbs[3],
            self.limbs[4],
            self.limbs[5],
            self.limbs[6],
            self.limbs[7],
        ]
    }

    /// Everything that the chip declares: that `constants` carries the
    /// constants; that its nine columns and the column of the digest take
    /// equality constraints; the gates of the decomposition, the 63-bit rotation,
    /// the negation and the addition; and the lookups of the range check and of
    /// the XOR, eight each.
    pub open spec fn declared(&self, constants: FixedColumn) -> Set<Declaration> {
        Set::new(
            |d: Declaration|
                {
                    ||| d == Declaration::Constants { column: constants }
                    ||| equalities(self.columns(), 9).contains(d)
                    ||| d == Declaration::InstanceEquality { column: self.output }
                    ||| d == Declaration::Gate {
                        selector: self.q_decompose,
                        columns: self.columns(),
                        polys: decomposition_gate(),
                    }
                    ||| range_lookups(self.q_range, self.t_range, self.columns(), 8).contains(d)
                    ||| d == self.rotate_63_config.gate(self.columns())
                    ||| d == self.negate_config.gate(self.columns())
                    ||| d == self.addition_config.gate(self.columns())
                    ||| self.xor_config.lookups(self.columns(), 8).contains(d)
                },
        )
    }
}

/// The declarations that the first `n` of some columns take equality
/// constraints.
pub open spec fn equalities(columns: Seq<AdviceColumn>, n: int) -> Set<Declaration> {
    Set::new(
        |d: Declaration|
            exists|i: int|
                0 <= i < n && d == Declaration::Equality { column: #[trigger] columns[i] },
    )
}

/// The main chip for the BLAKE2b hash function. It adds on rows of one word
/// and eight limbs, and computes XOR with a table of all XORs of two bytes.
#[derive(Clone, Copy)]
pub struct Blake2bChip {
    config: Blake2bConfig,
}

/// The cells of the initialization vector hold its eight constants.
pub open spec fn holds_iv(cells: Seq<AssignedBlake2bWord>) -> bool {
    &&& cells.len() == 8
    &&& forall|i: int| 0 <= i < 8 ==> (#[trigger] cells[i])@ == Some(IV_CONSTANTS[i])
}

/// The cell holds the constant zero.
pub open spec fn holds_zero(cell: AssignedNative) -> bool {
    native_is_byte(cell.value()) && native_byte(cell.value()) == Some(0u8)
}

/// The bytes of a sequence of cells.
pub open spec fn byte_values(cells: Seq<AssignedByte>) -> Seq<Option<u8>> {
    Seq::new(cells.len(), |i: int| cells[i]@)
}

/// The digest is a function of the bytes of the input, the bytes of the key
/// and the digest length: two hashes of cells that hold the same bytes hand
/// back cells that hold the same bytes, whichever cells they are.
pub proof fn lemma_hash_deterministic(
    first_input: Seq<AssignedNative>,
    first_key: Seq<AssignedNative>,
    second_input: Seq<AssignedNative>,
    second_key: Seq<AssignedNative>,
    output_size: int,
    first_digest: Seq<AssignedByte>,
    second_digest: Seq<AssignedByte>,
)
    requires
        native_bytes(first_input) == native_bytes(second_input),
        native_bytes(first_key) == native_bytes(second_key),
        byte_values(first_digest) == digest(
            native_bytes(first_input),
            native_bytes(first_key),
            output_size,
        ),
        byte_values(second_digest) == digest(
            native_bytes(second_input),
            native_bytes(second_key),
            output_size,
        ),
    ensures
        byte_values(first_digest) == byte_values(second_digest),
{
}

impl Blake2bChip {
    /// A chip never holds a configuration whose gates disagree on their columns.
    #[verifier::type_invariant]
    pub open spec fn columns_agree(self) -> bool {
        self@.well_formed()
    }

    /// A chip for a configuration that `configure` has made.
    pub fn new(config: &Blake2bConfig) -> (chip: Self)
        requires
            config.well_formed(),
        ensures
            chip@ == *config,
    {
        Self { config: *config }
    }

    /// The configuration of the chip.
    pub closed spec fn view(&self) -> Blake2bConfig {
        self.config
    }

    /// The configuration of the chip.
    pub fn config(&self) -> (config: &Blake2bConfig)
        ensures
            *config == self@,
    {
        &self.config
    }

    /// Declares everything the chip needs in a constraint system: equality on
    /// its columns, the decomposition gate, the range-check lookups, and the
    /// gates and lookups of addition, XOR, rotation and negation. The carry of an
    /// addition shares the column of the first limb.
    pub fn configure(
        meta: &mut ConstraintSystemHandle<'_>,
        constants: FixedColumn,
        full_number_u64: AdviceColumn,
        limbs: [AdviceColumn; 8],
        output: InstanceColumn,
    ) -> (config: Blake2bConfig)
        ensures
            config.full_number_u64 == full_number_u64,
            config.limbs == limbs,
            config.output == output,
            config.well_formed(),
            declarations(*final(meta)) == declarations(*old(meta)).union(
                config.declared(constants),
            ),
    {
        let columns: [AdviceColumn; 9] = [
            full_number_u64,
            limbs[0],
            limbs[1],
            limbs[2],
            limbs[3],
            limbs[4],
            limbs[5],
            limbs[6],
            limbs[7],
        ];
        let ghost start = declarations(*meta);
        constraint_system_enable_constant(meta, &constants);
        let ghost with_constants = declarations(*meta);
        assert(declarations(*meta) =~= with_constants.union(equalities(columns@, 0)));
        let mut i: usize = 0;
        while i < 9
            invariant
                0 <= i <= 9,
                declarations(*meta) == with_constants.union(equalities(columns@, i as int)),
            decreases 9 - i,
        {
            constraint_system_enable_equality(meta, &columns[i]);
            assert(declarations(*meta) =~= with_constants.union(equalities(columns@, i + 1)));
            i = i + 1;
        }
        constraint_system_enable_instance_equality(meta, &output);

        let q_decompose = constraint_system_complex_selector(meta);
        create_limb_decomposition_gate(meta, q_decompose, &columns);

        let q_range = constraint_system_complex_selector(meta);
        let t_range = constraint_system_lookup_table_column(meta);
        create_range_check_gate(meta, t_range, q_range, &columns);

        let rotate_63_config = Rotate63Config::configure(meta, &columns, q_decompose, q_range);
        let negate_config = NegateConfig::configure(meta, &columns);
        let generic_limb_rotation_config = LimbRotation::configure(q_decompose);
        let addition_config = AdditionMod64Config::configure(meta, &columns, q_decompose, q_range);
        let xor_config = XorConfig::configure(meta, &columns, q_decompose);
        assert(xor_config.limbs =~= limbs);

        let config = Blake2bConfig {
            addition_config,
            generic_limb_rotation_config,
            rotate_63_config,
            xor_config,
            negate_config,
            full_number_u64,
            limbs,
            q_range,
            q_decompose,
            t_range,
            output,
        };
        assert(columns@ =~= config.columns());
        assert(declarations(*meta) =~= start.union(config.declared(constants)));
        config
    }

    /// Fills the lookup tables of the chip. To be called once, before any hash.
    pub fn load<L: Layouter<Fq>>(&self, layouter: &mut L) -> (r: Result<(), Error>) {
        self.populate_lookup_tables(layouter)
    }

    /// Fills the two tables of the chip: all bytes, and all XORs of two bytes.
    pub fn populate_lookup_tables<L: Layouter<Fq>>(&self, layouter: &mut L) -> (r: Result<
        (),
        Error,
    >) {
        self.populate_lookup_table_8(layouter)?;
        self.populate_xor_lookup_table(layouter)
    }

    /// Fills the table of all bytes.
    fn populate_lookup_table_8<L: Layouter<Fq>>(&self, layouter: &mut L) -> (r: Result<(), Error>) {
        populate_lookup_table(layouter, self.config.t_range)
    }

    /// Fills the table of all XORs of two bytes.
    fn populate_xor_lookup_table<L: Layouter<Fq>>(&self, layouter: &mut L) -> (r: Result<
        (),
        Error,
    >) {
        self.config.xor_config.populate_xor_lookup_table(layouter)
    }

    /// The number of rows that a hash of an input and a key of the given
    /// lengths takes, or `None` where that number cannot be counted.
    pub fn rows_needed(input_len: usize, key_len: usize) -> (rows: Option<usize>)
        ensures
            rows is Some <==> hash_rows(total_blocks(input_len as int, key_len as int))
                <= usize::MAX,
            rows matches Some(n) ==> n == hash_rows(total_blocks(input_len as int, key_len as int)),
    {
        let input_blocks = input_len / 128 + if input_len % 128 == 0 {
            0
        } else {
            1
        };
        let blocks = get_total_blocks_count(input_blocks, input_len == 0, key_len == 0);
        if blocks > (usize::MAX - CONSTANT_ROWS - NEGATION_ROWS) / BLOCK_ROWS {
            None
        } else {
            Some(CONSTANT_ROWS + BLOCK_ROWS * blocks + NEGATION_ROWS)
        }
    }

    /// Whether each of the cells can be read as a byte.
    pub fn all_bytes(cells: &[AssignedNative]) -> (all: bool)
        ensures
            all == natives_are_bytes(cells@),
    {
        let mut i: usize = 0;
        while i < cells.len()
            invariant
                0 <= i <= cells.len(),
                forall|j: int| 0 <= j < i ==> native_is_byte((#[trigger] cells@[j]).value()),
            decreases cells.len() - i,
        {
            match cells[i].field_value() {
                Some(repr) => {
                    if Byte::new_from_field(&repr).is_none() {
                        return false;
                    }
                },
                None => {},
            }
            i = i + 1;
        }
        true
    }

    /// Lays a hash out through a layouter, in one region of its own, and hands
    /// back the 64 cells of the final state, of which the first `output_size`
    /// are the digest. Each byte of the digest is bound to the public input of
    /// its index in the column of the digest. The sizes are checked first, then
    /// the input and the key: a digest length outside 1 to 64, a key of more than
    /// 64 bytes, an input too long to count rows for and a known cell that is no
    /// byte are each refused, in this order, before the backend is touched.
    pub fn hash<L: Layouter<Fq>>(
        &self,
        layouter: &mut L,
        input: &[AssignedNative],
        key: &[AssignedNative],
        output_size: usize,
    ) -> (r: Result<[AssignedByte; 64], Blake2bError>)
        ensures
            r matches Err(Blake2bError::OutputSize) <==> !(1 <= output_size <= 64),
            r matches Err(Blake2bError::KeySize) <==> 1 <= output_size <= 64 && key.len() > 64,
            r matches Err(Blake2bError::InputTooLong) <==> 1 <= output_size <= 64 && key.len() <= 64
                && hash_rows(total_blocks(input.len() as int, key.len() as int)) > usize::MAX,
            r matches Err(Blake2bError::NotAByte) <==> 1 <= output_size <= 64 && key.len() <= 64
                && hash_rows(total_blocks(input.len() as int, key.len() as int)) <= usize::MAX && !(
            natives_are_bytes(input@) && natives_are_bytes(key@)),
            r matches Ok(bytes) ==> byte_values(bytes@) == digest(
                native_bytes(input@),
                native_bytes(key@),
                output_size as int,
            ),
    {
        enforce_input_sizes(output_size, key.len())?;
        if Self::rows_needed(input.len(), key.len()).is_none() {
            return Err(Blake2bError::InputTooLong);
        }
        if !Self::all_bytes(input) || !Self::all_bytes(key) {
            return Err(Blake2bError::NotAByte);
        }
        let bytes = match layouter_assign_hash_region(layouter, self, input, key, output_size) {
            Ok(bytes) => bytes,
            Err(e) => {
                return Err(Blake2bError::Backend(e));
            },
        };
        let mut i: usize = 0;
        while i < output_size
            invariant
                0 <= i <= output_size <= 64,
                1 <= output_size,
                key.len() <= 64,
                hash_rows(total_blocks(input.len() as int, key.len() as int)) <= usize::MAX,
                natives_are_bytes(input@) && natives_are_bytes(key@),
            decreases output_size - i,
        {
            let cell = bytes[i].cell();
            if let Err(e) = layouter_constrain_instance(layouter, cell, &self.config.output, i) {
                return Err(Blake2bError::Backend(e));
            }
            i = i + 1;
        }
        Ok(bytes)
    }

    /// Lays a hash out in a region, from its first row on: the constants,
    /// then block after block. Hands back the 64 cells of the final state.
    pub fn hash_in_region(
        &self,
        region: &mut RegionHandle<'_>,
        input: &[AssignedNative],
        key: &[AssignedNative],
        output_size: usize,
    ) -> (r: Result<[AssignedByte; 64], Error>)
        requires
            1 <= output_size <= 64,
            key.len() <= 64,
            natives_are_bytes(input@),
            natives_are_bytes(key@),
            has_rows(*old(region), 0, hash_rows(total_blocks(input.len() as int, key.len() as int))),
        ensures
            extends(*final(region), *old(region)),
            r matches Ok(bytes) ==> {
                &&& byte_values(bytes@) == digest(
                    native_bytes(input@),
                    native_bytes(key@),
                    output_size as int,
                )
                &&& exists|state: Seq<AssignedBlake2bWord>| #[trigger]
                    self.state_rows_at(
                        *final(region),
                        state,
                        bytes@,
                        hash_rows(total_blocks(input.len() as int, key.len() as int)),
                    )
                &&& exists|iv: Seq<AssignedBlake2bWord>, zero: AssignedNative, layout: BlockRows| #[trigger]
                    self.hash_at(
                        *final(region),
                        input@,
                        key@,
                        output_size as int,
                        iv,
                        zero,
                        layout,
                    ) && layout.digests.last() == bytes@
            },
    {
        let mut advice_offset: usize = 0;
        let (iv_constant_cells, initial_state_0, zero_constant) = self.assign_constant_advice_cells(
            output_size,
            key.len(),
            region,
            &mut advice_offset,
        )?;
        let ghost constants = *region;
        let mut global_state = self.compute_initial_state(&iv_constant_cells, initial_state_0);
        let ghost initial_cells = global_state@;
        proof {
            assert(word_values(global_state@) =~= initial_state(
                key.len() as int,
                output_size as int,
            )) by {
                assert forall|i: int| 0 <= i < 8 implies word_values(global_state@)[i]
                    == initial_state(key.len() as int, output_size as int)[i] by {
                    if i > 0 {
                        assert(iv_constant_cells@[i]@ == Some(IV_CONSTANTS[i]));
                    }
                }
            }
        }
        match self.perform_blake2b_iterations(
            region,
            &mut advice_offset,
            input,
            key,
            &iv_constant_cells,
            &mut global_state,
            zero_constant,
        ) {
            Ok(bytes) => {
                assert(advice_offset == hash_rows(
                    total_blocks(input.len() as int, key.len() as int),
                ));
                assert(self.state_rows_at(
                    *region,
                    global_state@,
                    bytes@,
                    hash_rows(total_blocks(input.len() as int, key.len() as int)),
                ));
                let ghost layout = choose|layout: BlockRows| #[trigger]
                    self.blocks_at(
                        *region,
                        2,
                        input@,
                        key@,
                        iv_constant_cells@,
                        zero_constant,
                        layout,
                    ) && layout.rows.len() == total_blocks(input.len() as int, key.len() as int)
                        && layout.states[0] == initial_cells && layout.states.last()
                        == global_state@ && layout.digests.last() == bytes@;
                assert(self.hash_at(
                    *region,
                    input@,
                    key@,
                    output_size as int,
                    iv_constant_cells@,
                    zero_constant,
                    layout,
                )) by {
                    reveal(Blake2bChip::hash_at);
                    assert forall|i: int| 0 <= i < 8 implies (#[trigger] iv_constant_cells@[i]).fixed_at(
                        *region,
                        self@.limbs[i],
                        0,
                    ) by {
                        assert(iv_constant_cells[i].fixed_at(constants, self@.limbs[i], 0));
                    }
                    assert(holds_constant(constants, self@.limbs[0], 1, zero_constant.spec_cell(), 0));
                    assert(initial_state_0.fixed_at(constants, self@.limbs[1], 1));
                }
                assert(exists|state: Seq<AssignedBlake2bWord>| #[trigger]
                    self.state_rows_at(
                        *region,
                        state,
                        bytes@,
                        hash_rows(total_blocks(input.len() as int, key.len() as int)),
                    ));
                assert(byte_values(bytes@) == digest(
                    native_bytes(input@),
                    native_bytes(key@),
                    output_size as int,
                ));
                Ok(bytes)
            },
            Err(Blake2bError::Backend(e)) => Err(e),
            Err(_) => vstd::pervasive::unreached(),
        }
    }

    /// Writes a constant word in limb column `limb_index` of row `row_offset`.
    fn assign_limb_constant_u64(
        &self,
        region: &mut RegionHandle<'_>,
        row_offset: &usize,
        description: &str,
        constant: u64,
        limb_index: usize,
    ) -> (r: Result<AssignedBlake2bWord, Error>)
        requires
            *row_offset < region_rows(*old(region)),
            limb_index < 8,
        ensures
            extends(*final(region), *old(region)),
            r matches Ok(w) ==> w@ == Some(constant) && w.fixed_at(
                *final(region),
                self@.limbs[limb_index as int],
                *row_offset as int,
            ),
    {
        AssignedBlake2bWord::assign_fixed_word(
            region,
            description,
            &self.config.limbs[limb_index],
            *row_offset,
            Blake2bWord(constant),
        )
    }

    /// Writes the eight constants of the initialization vector in the eight
    /// limb columns of the row at `offset`, and moves to the next row.
    fn assign_iv_constants_to_fixed_cells(
        &self,
        region: &mut RegionHandle<'_>,
        offset: &mut usize,
    ) -> (r: Result<[AssignedBlake2bWord; 8], Error>)
        requires
            has_rows(*old(region), *old(offset), 1),
        ensures
            extends(*final(region), *old(region)),
            r matches Ok(cells) ==> {
                &&& *final(offset) == *old(offset) + 1
                &&& holds_iv(cells@)
                &&& forall|i: int|
                    0 <= i < 8 ==> (#[trigger] cells[i]).fixed_at(
                        *final(region),
                        self@.limbs[i],
                        *old(offset) as int,
                    )
            },
    {
        let first = self.assign_limb_constant_u64(
            region,
            offset,
            "iv constants",
            IV_CONSTANTS[0],
            0,
        )?;
        let mut cells: [AssignedBlake2bWord; 8] = [first;8];
        cells[0] = first;
        let mut index: usize = 1;
        while index < 8
            invariant
                1 <= index <= 8,
                *offset == *old(offset),
                has_rows(*region, *offset, 1),
                extends(*region, *old(region)),
                forall|i: int| 0 <= i < index ==> (#[trigger] cells[i])@ == Some(IV_CONSTANTS[i]),
                forall|i: int|
                    0 <= i < index ==> (#[trigger] cells[i]).fixed_at(
                        *region,
                        self@.limbs[i],
                        *offset as int,
                    ),
            decreases 8 - index,
        {
            let cell = self.assign_limb_constant_u64(
                region,
                offset,
                "iv constants",
                IV_CONSTANTS[index],
                index,
            )?;
            cells[index] = cell;
            index = index + 1;
        }
        *offset = *offset + 1;
        Ok(cells)
    }

    /// Assigns the constants that the hash starts from: the initialization
    /// vector on one row, and on the next the zero that padding is bound to and
    /// the first word of the initial state, which folds in the key length and
    /// the digest length. Each is a constant of the circuit.
    pub fn assign_constant_advice_cells(
        &self,
        output_size: usize,
        key_size: usize,
        region: &mut RegionHandle<'_>,
        advice_offset: &mut usize,
    ) -> (r: Result<([AssignedBlake2bWord; 8], AssignedBlake2bWord, AssignedNative), Error>)
        requires
            has_rows(*old(region), *old(advice_offset), 2),
            1 <= output_size <= 64,
            key_size <= 64,
        ensures
            extends(*final(region), *old(region)),
            r matches Ok((iv, initial_state_0, zero)) ==> {
                &&& *final(advice_offset) == *old(advice_offset) + 2
                &&& holds_iv(iv@)
                &&& forall|i: int|
                    0 <= i < 8 ==> (#[trigger] iv[i]).fixed_at(
                        *final(region),
                        self@.limbs[i],
                        *old(advice_offset) as int,
                    )
                &&& initial_state_0@ == initial_state(key_size as int, output_size as int)[0]
                &&& initial_state_0.fixed_at(
                    *final(region),
                    self@.limbs[1],
                    *old(advice_offset) + 1,
                )
                &&& holds_zero(zero)
                &&& holds_constant(
                    *final(region),
                    self@.limbs[0],
                    *old(advice_offset) + 1,
                    zero.spec_cell(),
                    0,
                )
            },
    {
        let iv_constant_cells = self.assign_iv_constants_to_fixed_cells(region, advice_offset)?;
        let zero_cell = region_assign_constant(
            region,
            "zero",
            &self.config.limbs[0],
            *advice_offset,
            0,
        )?;
        let zero_repr = field_bytes_of_word(0);
        let zero_constant = AssignedNative::new(zero_cell, Some(zero_repr));
        let iv_constant_0 = IV_CONSTANTS[0];
        let out_len = output_size as u64;
        let key_size_shifted = (key_size as u64) << 8;
        let initial_state_index_0 = iv_constant_0 ^ 0x01010000u64 ^ key_size_shifted ^ out_len;
        let initial_state_0 = self.assign_limb_constant_u64(
            region,
            advice_offset,
            "initial state index 0",
            initial_state_index_0,
            1,
        )?;
        *advice_offset = *advice_offset + 1;
        Ok((iv_constant_cells, initial_state_0, zero_constant))
    }

    /// The hash state before the first block: the initialization vector with
    /// its first word replaced.
    pub fn compute_initial_state(
        &self,
        iv_constant_cells: &[AssignedBlake2bWord; 8],
        initial_state_0: AssignedBlake2bWord,
    ) -> (state: [AssignedBlake2bWord; 8])
        ensures
            state[0] == initial_state_0,
            forall|i: int| 1 <= i < 8 ==> state[i] == iv_constant_cells[i],
    {
        let mut global_state = *iv_constant_cells;
        global_state[0] = initial_state_0;
        global_state
    }

    /// The region holds `row` at `index`, with the decomposition and the
    /// range check enabled on it.
    pub open spec fn checked_row_at(
        &self,
        region: RegionHandle<'_>,
        row: AssignedRow,
        index: int,
    ) -> bool {
        &&& row.written_at(region, self@.full_number_u64, self@.limbs, index)
        &&& is_enabled(region, self@.q_decompose, index)
        &&& is_enabled(region, self@.q_range, index)
    }

    /// Writes a row from eight unchecked cells, with the decomposition and the
    /// range check enabled on it, and moves to the next row. Each limb of the
    /// row is bound to the cell it copies.
    pub(crate) fn new_row_from_assigned_bytes(
        &self,
        bytes: &[AssignedNative; 8],
        region: &mut RegionHandle<'_>,
        offset: &mut usize,
    ) -> (r: Result<AssignedRow, Blake2bError>)
        requires
            has_rows(*old(region), *old(offset), 1),
        ensures
            extends(*final(region), *old(region)),
            r matches Err(e) ==> e is NotAByte || e is Backend,
            r matches Err(Blake2bError::NotAByte) ==> !natives_are_bytes(bytes@),
            r is Ok ==> natives_are_bytes(bytes@),
            r matches Ok(row) ==> {
                &&& *final(offset) == *old(offset) + 1
                &&& row.full_number@ == bytes_word(native_bytes(bytes@))
                &&& forall|i: int|
                    0 <= i < 8 ==> (#[trigger] row.limbs[i])@ == native_bytes(bytes@)[i]
                &&& self.checked_row_at(*final(region), row, *old(offset) as int)
                &&& forall|i: int|
                    0 <= i < 8 ==> holds_equal(
                        *final(region),
                        bytes[i].spec_cell(),
                        (#[trigger] row.limbs[i]).spec_cell(),
                    )
            },
    {
        match region_enable_selector(region, &self.config.q_decompose, *offset) {
            Ok(()) => {},
            Err(e) => {
                return Err(Blake2bError::Backend(e));
            },
        }
        match region_enable_selector(region, &self.config.q_range, *offset) {
            Ok(()) => {},
            Err(e) => {
                return Err(Blake2bError::Backend(e));
            },
        }
        let row = generate_row_from_assigned_bytes(
            region,
            bytes,
            *offset,
            &self.config.full_number_u64,
            &self.config.limbs,
        )?;
        *offset = *offset + 1;
        Ok(row)
    }

    /// Bitwise complement of a word, on two new rows: a copy of the word,
    /// bound to it, and below it the complement.
    pub fn not(
        &self,
        input_cell: &AssignedBlake2bWord,
        region: &mut RegionHandle<'_>,
        offset: &mut usize,
    ) -> (r: Result<AssignedBlake2bWord, Error>)
        requires
            has_rows(*old(region), *old(offset), 2),
        ensures
            extends(*final(region), *old(region)),
            r matches Ok(word) ==> {
                &&& *final(offset) == *old(offset) + 2
                &&& word@ == word_not(input_cell@)
                &&& is_enabled(*final(region), self@.negate_config.q_negate, *old(offset) as int)
                &&& input_cell.copied_to(
                    *final(region),
                    self@.full_number_u64,
                    *old(offset) as int,
                )
                &&& word.stands_at(*final(region), self@.full_number_u64, *old(offset) + 1)
            },
    {
        self.config.negate_config.generate_rows_from_cell(
            region,
            offset,
            input_cell,
            &self.config.full_number_u64,
        )
    }

    /// Bitwise exclusive or of two words, on three new rows: a copy of each
    /// operand with its limbs, bound to it, and the result with its limbs.
    pub fn xor(
        &self,
        lhs: &AssignedBlake2bWord,
        rhs: &AssignedBlake2bWord,
        region: &mut RegionHandle<'_>,
        offset: &mut usize,
    ) -> (r: Result<AssignedRow, Error>)
        requires
            has_rows(*old(region), *old(offset), 3),
        ensures
            extends(*final(region), *old(region)),
            r matches Ok(row) ==> {
                &&& *final(offset) == *old(offset) + 3
                &&& row.decomposed()
                &&& row.full_number@ == word_xor(lhs@, rhs@)
                &&& row.written_at(
                    *final(region),
                    self@.full_number_u64,
                    self@.limbs,
                    *old(offset) + 2,
                )
                &&& is_enabled(*final(region), self@.xor_config.q_xor, *old(offset) as int)
                &&& self@.xor_config.operand_at(*final(region), *lhs, *old(offset) as int)
                &&& self@.xor_config.operand_at(*final(region), *rhs, *old(offset) + 1)
                &&& self@.xor_config.result_at(*final(region), row, *old(offset) + 2)
            },
    {
        proof {
            use_type_invariant(self);
        }
        self.config.xor_config.generate_xor_rows_from_cells(region, offset, lhs, rhs)
    }

    /// Bitwise exclusive or of the row just written and a word, on two new
    /// rows. The row of the result is handed back whole, so that a rotation can
    /// read its limbs.
    pub fn xor_copying_one_parameter(
        &self,
        previous_operand: &AssignedRow,
        cell_to_copy: &AssignedBlake2bWord,
        region: &mut RegionHandle<'_>,
        offset: &mut usize,
    ) -> (r: Result<AssignedRow, Error>)
        requires
            has_rows(*old(region), *old(offset), 2),
            previous_operand.written_at(
                *old(region),
                self@.full_number_u64,
                self@.limbs,
                *old(offset) - 1,
            ),
            previous_operand.decomposed(),
        ensures
            extends(*final(region), *old(region)),
            r matches Ok(row) ==> {
                &&& *final(offset) == *old(offset) + 2
                &&& row.decomposed()
                &&& row.full_number@ == word_xor(previous_operand.full_number@, cell_to_copy@)
                &&& row.written_at(
                    *final(region),
                    self@.full_number_u64,
                    self@.limbs,
                    *old(offset) + 1,
                )
                &&& is_enabled(*final(region), self@.xor_config.q_xor, *old(offset) - 1)
                &&& self@.xor_config.operand_at(*final(region), *cell_to_copy, *old(offset) as int)
                &&& self@.xor_config.result_at(*final(region), row, *old(offset) + 1)
            },
    {
        proof {
            use_type_invariant(self);
        }
        self.config.xor_config.generate_xor_rows_reusing_first_operand(
            region,
            offset,
            previous_operand,
            cell_to_copy,
        )
    }

    /// The region holds the addition of `lhs` and `rhs` from `first_row` on,
    /// with `sum` as its result and a carry that is the carry of the sum.
    #[verifier::opaque]
    pub open spec fn sum_at(
        &self,
        region: RegionHandle<'_>,
        first_row: int,
        lhs: AssignedBlake2bWord,
        rhs: AssignedBlake2bWord,
        reused: bool,
        sum: AssignedRow,
    ) -> bool {
        exists|carry: AssignedBit| #[trigger]
            self@.addition_config.laid_out(
                region,
                self@.full_number_u64,
                self@.limbs,
                first_row,
                lhs,
                rhs,
                reused,
                sum,
                carry,
            ) && carry@ == word_carry(lhs@, rhs@)
    }

    /// A region that is further filled still holds an addition that it held.
    pub proof fn lemma_sum_kept(
        &self,
        before: RegionHandle<'_>,
        after: RegionHandle<'_>,
        first_row: int,
        lhs: AssignedBlake2bWord,
        rhs: AssignedBlake2bWord,
        reused: bool,
        sum: AssignedRow,
    )
        requires
            extends(after, before),
            self.sum_at(before, first_row, lhs, rhs, reused, sum),
        ensures
            self.sum_at(after, first_row, lhs, rhs, reused, sum),
    {
        reveal(Blake2bChip::sum_at);
        let carry = choose|carry: AssignedBit| #[trigger]
            self@.addition_config.laid_out(
                before,
                self@.full_number_u64,
                self@.limbs,
                first_row,
                lhs,
                rhs,
                reused,
                sum,
                carry,
            ) && carry@ == word_carry(lhs@, rhs@);
        self@.addition_config.lemma_laid_out_kept(
            before,
            after,
            self@.full_number_u64,
            self@.limbs,
            first_row,
            lhs,
            rhs,
            reused,
            sum,
            carry,
        );
    }

    /// Sum of two words modulo two to the 64, on three new rows: a copy of
    /// each operand, bound to it, and the sum with its limbs.
    pub fn add(
        &self,
        lhs: &AssignedBlake2bWord,
        rhs: &AssignedBlake2bWord,
        region: &mut RegionHandle<'_>,
        offset: &mut usize,
    ) -> (r: Result<AssignedRow, Error>)
        requires
            has_rows(*old(region), *old(offset), 3),
        ensures
            extends(*final(region), *old(region)),
            r matches Ok(row) ==> {
                &&& *final(offset) == *old(offset) + 3
                &&& row.decomposed()
                &&& row.full_number@ == word_add(lhs@, rhs@)
                &&& row.written_at(
                    *final(region),
                    self@.full_number_u64,
                    self@.limbs,
                    *old(offset) + 2,
                )
                &&& self.sum_at(*final(region), *old(offset) as int, *lhs, *rhs, false, row)
            },
    {
        let (addition_row, carry) = self.config.addition_config.generate_addition_rows_from_cells(
            region,
            offset,
            lhs,
            rhs,
            false,
            &self.config.full_number_u64,
            &self.config.limbs,
        )?;
        assert(self.sum_at(*region, *offset - 3, *lhs, *rhs, false, addition_row)) by {
            reveal(Blake2bChip::sum_at);
            assert(self@.addition_config.laid_out(
                *region,
                self@.full_number_u64,
                self@.limbs,
                *offset - 3,
                *lhs,
                *rhs,
                false,
                addition_row,
                carry,
            ));
        }
        Ok(addition_row)
    }

    /// Sum modulo two to the 64 of the word just written and another, on two
    /// new rows.
    pub fn add_copying_one_parameter(
        &self,
        previous_cell: &AssignedBlake2bWord,
        cell_to_copy: &AssignedBlake2bWord,
        region: &mut RegionHandle<'_>,
        offset: &mut usize,
    ) -> (r: Result<AssignedRow, Error>)
        requires
            has_rows(*old(region), *old(offset), 2),
            previous_cell.stands_at(*old(region), self@.full_number_u64, *old(offset) - 1),
        ensures
            extends(*final(region), *old(region)),
            r matches Ok(row) ==> {
                &&& *final(offset) == *old(offset) + 2
                &&& row.decomposed()
                &&& row.full_number@ == word_add(previous_cell@, cell_to_copy@)
                &&& row.written_at(
                    *final(region),
                    self@.full_number_u64,
                    self@.limbs,
                    *old(offset) + 1,
                )
                &&& self.sum_at(
                    *final(region),
                    *old(offset) - 1,
                    *previous_cell,
                    *cell_to_copy,
                    true,
                    row,
                )
            },
    {
        let (addition_row, carry) = self.config.addition_config.generate_addition_rows_from_cells(
            region,
            offset,
            previous_cell,
            cell_to_copy,
            true,
            &self.config.full_number_u64,
            &self.config.limbs,
        )?;
        assert(self.sum_at(
            *region,
            *offset - 3,
            *previous_cell,
            *cell_to_copy,
            true,
            addition_row,
        )) by {
            reveal(Blake2bChip::sum_at);
            assert(self@.addition_config.laid_out(
                *region,
                self@.full_number_u64,
                self@.limbs,
                *offset - 3,
                *previous_cell,
                *cell_to_copy,
                true,
                addition_row,
                carry,
            ));
        }
        Ok(addition_row)
    }

    /// What the rotation of `input_row` by `k` limbs leaves in the region at
    /// `row`: the rotated word, copies of the limbs of the input at shifted
    /// positions, each bound to the limb it copies, and the decomposition enabled.
    #[verifier::opaque]
    pub open spec fn rotated_at(
        &self,
        region: RegionHandle<'_>,
        input_row: AssignedRow,
        k: int,
        word: AssignedBlake2bWord,
        row: int,
    ) -> bool {
        &&& word.stands_at(region, self@.full_number_u64, row)
        &&& is_enabled(region, self@.generic_limb_rotation_config.q_decompose, row)
        &&& forall|i: int|
            0 <= i < 8 ==> (#[trigger] input_row.limbs[(i + k) % 8]).copied_to(
                region,
                self@.limbs[i],
                row,
            )
    }

    /// A region that is further filled still holds a rotation that it held.
    pub proof fn lemma_rotated_kept(
        &self,
        before: RegionHandle<'_>,
        after: RegionHandle<'_>,
        input_row: AssignedRow,
        k: int,
        word: AssignedBlake2bWord,
        row: int,
    )
        requires
            extends(after, before),
            self.rotated_at(before, input_row, k, word, row),
        ensures
            self.rotated_at(after, input_row, k, word, row),
    {
        reveal(Blake2bChip::rotated_at);
        assert forall|i: int| 0 <= i < 8 implies (#[trigger] input_row.limbs[(i + k) % 8]).copied_to(
            after,
            self@.limbs[i],
            row,
        ) by {
            lemma_byte_copy_kept(before, after, input_row.limbs[(i + k) % 8], self@.limbs[i], row);
        }
    }

    /// Rotation of a row by 16 bits to the right, on one new row.
    pub fn rotate_right_16(
        &self,
        input_row: AssignedRow,
        region: &mut RegionHandle<'_>,
        offset: &mut usize,
    ) -> (r: Result<AssignedBlake2bWord, Error>)
        requires
            has_rows(*old(region), *old(offset), 1),
            input_row.decomposed(),
        ensures
            extends(*final(region), *old(region)),
            r matches Ok(word) ==> {
                &&& *final(offset) == *old(offset) + 1
                &&& word@ == word_rotate_right(input_row.full_number@, 16)
                &&& word.stands_at(*final(region), self@.full_number_u64, *old(offset) as int)
                &&& self.rotated_at(*final(region), input_row, 2, word, *old(offset) as int)
            },
    {
        proof {
            reveal(Blake2bChip::rotated_at);
        }
        self.config.generic_limb_rotation_config.generate_rotation_rows_from_input_row(
            region,
            offset,
            input_row,
            2,
            &self.config.full_number_u64,
            &self.config.limbs,
        )
    }

    /// Rotation of a row by 24 bits to the right, on one new row.
    pub fn rotate_right_24(
        &self,
        input_row: AssignedRow,
        region: &mut RegionHandle<'_>,
        offset: &mut usize,
    ) -> (r: Result<AssignedBlake2bWord, Error>)
        requires
            has_rows(*old(region), *old(offset), 1),
            input_row.decomposed(),
        ensures
            extends(*final(region), *old(region)),
            r matches Ok(word) ==> {
                &&& *final(offset) == *old(offset) + 1
                &&& word@ == word_rotate_right(input_row.full_number@, 24)
                &&& word.stands_at(*final(region), self@.full_number_u64, *old(offset) as int)
                &&& self.rotated_at(*final(region), input_row, 3, word, *old(offset) as int)
            },
    {
        proof {
            reveal(Blake2bChip::rotated_at);
        }
        self.config.generic_limb_rotation_config.generate_rotation_rows_from_input_row(
            region,
            offset,
            input_row,
            3,
            &self.config.full_number_u64,
            &self.config.limbs,
        )
    }

    /// Rotation of a row by 32 bits to the right, on one new row.
    pub fn rotate_right_32(
        &self,
        input_row: AssignedRow,
        region: &mut RegionHandle<'_>,
        offset: &mut usize,
    ) -> (r: Result<AssignedBlake2bWord, Error>)
        requires
            has_rows(*old(region), *old(offset), 1),
            input_row.decomposed(),
        ensures
            extends(*final(region), *old(region)),
            r matches Ok(word) ==> {
                &&& *final(offset) == *old(offset) + 1
                &&& word@ == word_rotate_right(input_row.full_number@, 32)
                &&& word.stands_at(*final(region), self@.full_number_u64, *old(offset) as int)
                &&& self.rotated_at(*final(region), input_row, 4, word, *old(offset) as int)
            },
    {
        proof {
            reveal(Blake2bChip::rotated_at);
        }
        self.config.generic_limb_rotation_config.generate_rotation_rows_from_input_row(
            region,
            offset,
            input_row,
            4,
            &self.config.full_number_u64,
            &self.config.limbs,
        )
    }

    /// Rotation of a word by 63 bits to the right, on one new row. The word is
    /// read where it stands, in the first column of the row before `offset`.
    pub fn rotate_right_63(
        &self,
        input: AssignedBlake2bWord,
        region: &mut RegionHandle<'_>,
        offset: &mut usize,
    ) -> (r: Result<AssignedBlake2bWord, Error>)
        requires
            has_rows(*old(region), *old(offset), 1),
            input.stands_at(*old(region), self@.full_number_u64, *old(offset) - 1),
        ensures
            extends(*final(region), *old(region)),
            r matches Ok(word) ==> {
                &&& *final(offset) == *old(offset) + 1
                &&& word@ == word_rotate_right(input@, 63)
                &&& word.stands_at(*final(region), self@.full_number_u64, *old(offset) as int)
                &&& is_enabled(*final(region), self@.rotate_63_config.q_rot63, *old(offset) - 1)
                &&& self@.rotate_63_config.output_at(
                    *final(region),
                    self@.full_number_u64,
                    self@.limbs,
                    word,
                    *old(offset) as int,
                )
            },
    {
        self.config.rotate_63_config.generate_64_bit_rotation_from_cells(
            region,
            offset,
            &input,
            &self.config.full_number_u64,
            &self.config.limbs,
        )
    }
}

} // verus!
