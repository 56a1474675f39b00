//! The rows that every gate is built from: a word in the first column and its
//! eight limbs beside it.
use vstd::prelude::*;
use midnight_curves::bls12_381::Fq;
use midnight_proofs::circuit::Layouter;
use midnight_proofs::plonk::{Error, Selector, TableColumn};
use crate::backend::{
    constraint_system_create_gate, constraint_system_lookup, declarations, extends, holds_equal,
    is_complex, layouter_assign_table, region_rows, table_assign_cell, table_cells, table_rows,
    AdviceColumn, ConstraintSystemHandle, Declaration, RegionHandle, TableCell, TableHandle,
};
use crate::base_operations::polynomial::Poly;
use crate::error::Blake2bError;
use crate::spec::hash::{bytes_word, word_limb};
use crate::spec::words::{
    lemma_limbs_unique, lemma_limbs_value, limbs_of, limbs_value, pow2_64, rotate_right,
};
use crate::types::blake2b_word::{word_value, AssignedBlake2bWord, Blake2bWord};
use crate::types::byte::{byte_value, native_byte, native_is_byte, AssignedByte, Byte};
use crate::types::row::AssignedRow;
use crate::types::AssignedNative;

pub mod addition_mod_64;
pub mod generic_limb_rotation;
pub mod negate;
pub mod polynomial;
pub mod rotate_63;
pub mod xor;

verus! {

/// A word rotated to the right by `rotation_degree` bits, taken modulo 64.
pub fn rotate_right_field_element(value_to_rotate: Blake2bWord, rotation_degree: usize) -> (rotated:
    Blake2bWord)
    ensures
        rotated.0 == if rotation_degree % 64 == 0 {
            value_to_rotate.0
        } else {
            rotate_right(value_to_rotate.0, (rotation_degree % 64) as u64)
        },
{
    let value = value_to_rotate.0;
    let degree: u64 = (rotation_degree % 64) as u64;
    if degree == 0 {
        value_to_rotate
    } else {
        Blake2bWord((value >> degree) | (value << (64 - degree)))
    }
}

/// The bytes that eight unchecked cells hold.
pub open spec fn native_bytes(bytes: Seq<AssignedNative>) -> Seq<Option<u8>> {
    Seq::new(bytes.len(), |i: int| native_byte(bytes[i].value()))
}

/// Whether each of a sequence of unchecked cells can be read as a byte.
pub open spec fn natives_are_bytes(bytes: Seq<AssignedNative>) -> bool {
    forall|i: int| 0 <= i < bytes.len() ==> native_is_byte((#[trigger] bytes[i]).value())
}

/// The word that eight unchecked cells spell, least significant first: known
/// when all eight are.
pub fn compute_full_value_u64_from_bytes(bytes: &[AssignedNative; 8]) -> (full: Option<Blake2bWord>)
    requires
        natives_are_bytes(bytes@),
    ensures
        word_value(full) == bytes_word(native_bytes(bytes@)),
{
    let mut limbs: [u8; 8] = [0, 0, 0, 0, 0, 0, 0, 0];
    let mut i: usize = 0;
    while i < 8
        invariant
            0 <= i <= 8,
            natives_are_bytes(bytes@),
            forall|j: int| 0 <= j < i ==> native_bytes(bytes@)[j] == Some(#[trigger] limbs@[j]),
        decreases 8 - i,
    {
        match bytes[i].field_value() {
            Some(repr) => {
                limbs[i] = repr[0];
            },
            None => {
                assert(native_bytes(bytes@)[i as int] is None);
                return None;
            },
        }
        i = i + 1;
    }
    let word = Blake2bWord::from_le_bytes(&limbs);
    proof {
        let known = native_bytes(bytes@);
        assert(Seq::new(8, |i: int| known[i]->0) =~= limbs@);
    }
    Some(word)
}

/// Writes a row from eight unchecked cells: the word they spell in the first
/// column, and beside it a copy of each cell, bound to it by an equality
/// constraint. A known cell of 256 or more is refused. The caller enables the
/// decomposition and the range check on the row.
pub(crate) fn generate_row_from_assigned_bytes(
    region: &mut RegionHandle<'_>,
    bytes: &[AssignedNative; 8],
    offset: usize,
    full_number_u64: &AdviceColumn,
    limbs: &[AdviceColumn; 8],
) -> (r: Result<AssignedRow, Blake2bError>)
    requires
        offset < region_rows(*old(region)),
    ensures
        extends(*final(region), *old(region)),
        r matches Err(e) ==> e is NotAByte || e is Backend,
        r matches Err(Blake2bError::NotAByte) <==> !natives_are_bytes(bytes@),
        r matches Ok(row) ==> {
            &&& row.written_at(*final(region), *full_number_u64, *limbs, offset as int)
            &&& row.full_number@ == bytes_word(native_bytes(bytes@))
            &&& forall|i: int| 0 <= i < 8 ==> (#[trigger] row.limbs[i])@ == native_bytes(bytes@)[i]
            &&& forall|i: int|
                0 <= i < 8 ==> holds_equal(
                    *final(region),
                    bytes[i].spec_cell(),
                    (#[trigger] row.limbs[i]).spec_cell(),
                )
        },
{
    let mut i: usize = 0;
    while i < 8
        invariant
            0 <= i <= 8,
            forall|j: int| 0 <= j < i ==> native_is_byte((#[trigger] bytes@[j]).value()),
        decreases 8 - i,
    {
        match bytes[i].field_value() {
            Some(repr) => {
                if Byte::new_from_field(&repr).is_none() {
                    return Err(Blake2bError::NotAByte);
                }
            },
            None => {},
        }
        i = i + 1;
    }
    let full_value = compute_full_value_u64_from_bytes(bytes);
    let full_number = match AssignedBlake2bWord::assign_advice_word(
        region,
        "full number",
        full_number_u64,
        offset,
        full_value,
    ) {
        Ok(w) => w,
        Err(e) => {
            return Err(Blake2bError::Backend(e));
        },
    };
    let l0 = AssignedByte::copy_advice_byte_from_native(
        region,
        "limb",
        &limbs[0],
        offset,
        bytes[0],
    )?;
    let l1 = AssignedByte::copy_advice_byte_from_native(
        region,
        "limb",
        &limbs[1],
        offset,
        bytes[1],
    )?;
    let l2 = AssignedByte::copy_advice_byte_from_native(
        region,
        "limb",
        &limbs[2],
        offset,
        bytes[2],
    )?;
    let l3 = AssignedByte::copy_advice_byte_from_native(
        region,
        "limb",
        &limbs[3],
        offset,
        bytes[3],
    )?;
    let l4 = AssignedByte::copy_advice_byte_from_native(
        region,
        "limb",
        &limbs[4],
        offset,
        bytes[4],
    )?;
    let l5 = AssignedByte::copy_advice_byte_from_native(
        region,
        "limb",
        &limbs[5],
        offset,
        bytes[5],
    )?;
    let l6 = AssignedByte::copy_advice_byte_from_native(
        region,
        "limb",
        &limbs[6],
        offset,
        bytes[6],
    )?;
    let l7 = AssignedByte::copy_advice_byte_from_native(
        region,
        "limb",
        &limbs[7],
        offset,
        bytes[7],
    )?;
    Ok(AssignedRow::new(full_number, [l0, l1, l2, l3, l4, l5, l6, l7]))
}

/// The limb of a word at position `limb_number`.
pub fn get_limb_from(value: Option<Blake2bWord>, limb_number: usize) -> (limb: Option<Byte>)
    requires
        limb_number < 8,
    ensures
        byte_value(limb) == word_limb(word_value(value), limb_number as int),
{
    match value {
        Some(v) => {
            let bytes = v.to_le_bytes();
            Some(Byte(bytes[limb_number]))
        },
        None => None,
    }
}

/// Writes a row with the given word and the given limbs, as they are. The
/// caller enables the decomposition and the range check on the row.
pub(crate) fn create_row_with_word_and_limbs(
    region: &mut RegionHandle<'_>,
    full_value: Option<Blake2bWord>,
    limb_values: [Option<Byte>; 8],
    offset: usize,
    full_number_u64: &AdviceColumn,
    limbs: &[AdviceColumn; 8],
) -> (r: Result<AssignedRow, Error>)
    requires
        offset < region_rows(*old(region)),
    ensures
        extends(*final(region), *old(region)),
        r matches Ok(row) ==> {
            &&& row.written_at(*final(region), *full_number_u64, *limbs, offset as int)
            &&& row.full_number@ == word_value(full_value)
            &&& forall|i: int|
                0 <= i < 8 ==> (#[trigger] row.limbs[i])@ == byte_value(limb_values[i])
        },
{
    let full_number = AssignedBlake2bWord::assign_advice_word(
        region,
        "full number",
        full_number_u64,
        offset,
        full_value,
    )?;
    let l0 = AssignedByte::assign_advice_byte(region, "limb", &limbs[0], offset, limb_values[0])?;
    let l1 = AssignedByte::assign_advice_byte(region, "limb", &limbs[1], offset, limb_values[1])?;
    let l2 = AssignedByte::assign_advice_byte(region, "limb", &limbs[2], offset, limb_values[2])?;
    let l3 = AssignedByte::assign_advice_byte(region, "limb", &limbs[3], offset, limb_values[3])?;
    let l4 = AssignedByte::assign_advice_byte(region, "limb", &limbs[4], offset, limb_values[4])?;
    let l5 = AssignedByte::assign_advice_byte(region, "limb", &limbs[5], offset, limb_values[5])?;
    let l6 = AssignedByte::assign_advice_byte(region, "limb", &limbs[6], offset, limb_values[6])?;
    let l7 = AssignedByte::assign_advice_byte(region, "limb", &limbs[7], offset, limb_values[7])?;
    Ok(AssignedRow::new(full_number, [l0, l1, l2, l3, l4, l5, l6, l7]))
}

/// Writes a row with a word and its eight limbs, and hands the whole row back,
/// so that the caller can put constraints on the limbs. The caller enables the
/// decomposition and the range check on the row.
pub fn generate_row_from_word_and_keep_row(
    region: &mut RegionHandle<'_>,
    value: Option<Blake2bWord>,
    offset: usize,
    full_number_u64: &AdviceColumn,
    limbs: &[AdviceColumn; 8],
) -> (r: Result<AssignedRow, Error>)
    requires
        offset < region_rows(*old(region)),
    ensures
        extends(*final(region), *old(region)),
        r matches Ok(row) ==> {
            &&& row.written_at(*final(region), *full_number_u64, *limbs, offset as int)
            &&& row.full_number@ == word_value(value)
            &&& row.decomposed()
        },
{
    let limb_values: [Option<Byte>; 8] = [
        get_limb_from(value, 0),
        get_limb_from(value, 1),
        get_limb_from(value, 2),
        get_limb_from(value, 3),
        get_limb_from(value, 4),
        get_limb_from(value, 5),
        get_limb_from(value, 6),
        get_limb_from(value, 7),
    ];
    create_row_with_word_and_limbs(region, value, limb_values, offset, full_number_u64, limbs)
}

/// Writes a row with a word and its eight limbs. The caller enables the
/// decomposition and the range check on the row.
pub fn generate_row_from_word_value(
    region: &mut RegionHandle<'_>,
    value: Option<Blake2bWord>,
    offset: usize,
    full_number_u64: &AdviceColumn,
    limbs: &[AdviceColumn; 8],
) -> (r: Result<AssignedRow, Error>)
    requires
        offset < region_rows(*old(region)),
    ensures
        extends(*final(region), *old(region)),
        r matches Ok(row) ==> {
            &&& row.written_at(*final(region), *full_number_u64, *limbs, offset as int)
            &&& row.full_number@ == word_value(value)
            &&& row.decomposed()
        },
{
    generate_row_from_word_and_keep_row(region, value, offset, full_number_u64, limbs)
}

/// Copies a word into the first column of a new row and writes its eight
/// limbs beside it; the copy is bound to the given cell by an equality
/// constraint. The caller enables the decomposition and the range check.
pub(crate) fn generate_row_from_cell(
    region: &mut RegionHandle<'_>,
    cell: &AssignedBlake2bWord,
    offset: usize,
    full_number_u64: &AdviceColumn,
    limbs: &[AdviceColumn; 8],
) -> (r: Result<AssignedRow, Error>)
    requires
        offset < region_rows(*old(region)),
    ensures
        extends(*final(region), *old(region)),
        r matches Ok(row) ==> {
            &&& row.written_at(*final(region), *full_number_u64, *limbs, offset as int)
            &&& row.full_number@ == cell@
            &&& row.decomposed()
            &&& holds_equal(*final(region), cell.spec_cell(), row.full_number.spec_cell())
        },
{
    let value = cell.value();
    let new_cells = generate_row_from_word_and_keep_row(
        region,
        value,
        offset,
        full_number_u64,
        limbs,
    )?;
    crate::backend::region_constrain_equal(region, cell.cell(), new_cells.full_number.cell())?;
    Ok(new_cells)
}

/// The number that the eight limb cells of the row `rotation` rows below the
/// gate spell, least significant first.
pub open spec fn limbs_sum(cells: spec_fn(int, int) -> int, rotation: int) -> int {
    cells(rotation, 1) + cells(rotation, 2) * 0x100 + cells(rotation, 3) * 0x1_0000 + cells(
        rotation,
        4,
    ) * 0x100_0000 + cells(rotation, 5) * 0x1_0000_0000 + cells(rotation, 6) * 0x100_0000_0000
        + cells(rotation, 7) * 0x1_0000_0000_0000 + cells(rotation, 8) * 0x100_0000_0000_0000
}

/// The polynomial of the decomposition gate: the full number of a row less
/// the number that its limbs spell.
pub open spec fn decomposition_gate() -> Seq<Poly> {
    let b0 = Poly::cell(1, 0);
    let b1 = Poly::cell(2, 0).times(Poly::constant(0x100));
    let b2 = Poly::cell(3, 0).times(Poly::constant(0x1_0000));
    let b3 = Poly::cell(4, 0).times(Poly::constant(0x100_0000));
    let b4 = Poly::cell(5, 0).times(Poly::constant(0x1_0000_0000));
    let b5 = Poly::cell(6, 0).times(Poly::constant(0x100_0000_0000));
    let b6 = Poly::cell(7, 0).times(Poly::constant(0x1_0000_0000_0000));
    let b7 = Poly::cell(8, 0).times(Poly::constant(0x100_0000_0000_0000));
    let spelled = b0.plus(b1).plus(b2).plus(b3).plus(b4).plus(b5).plus(b6).plus(b7);
    seq![Poly::cell(0, 0).minus(spelled)]
}

/// The polynomial of the decomposition gate computes the full number of the
/// row of its selector less the number that the limbs of the row spell.
pub proof fn lemma_decomposition_polynomial(cells: spec_fn(int, int) -> int)
    ensures
        decomposition_gate()[0].well_formed(),
        decomposition_gate()[0].eval(cells) == cells(0, 0) - limbs_sum(cells, 0),
{
    reveal_with_fuel(Poly::eval, 12);
    reveal_with_fuel(Poly::well_formed, 12);
}

/// Builds the polynomial of the decomposition gate.
pub fn decomposition_polynomial() -> (p: Poly)
    ensures
        p == decomposition_gate()[0],
        p.well_formed(),
        forall|cells: spec_fn(int, int) -> int|
            #[trigger] p.eval(cells) == cells(0, 0) - limbs_sum(cells, 0),
{
    let b0 = Poly::cell(1, 0);
    let b1 = Poly::cell(2, 0).times(Poly::constant(0x100));
    let b2 = Poly::cell(3, 0).times(Poly::constant(0x1_0000));
    let b3 = Poly::cell(4, 0).times(Poly::constant(0x100_0000));
    let b4 = Poly::cell(5, 0).times(Poly::constant(0x1_0000_0000));
    let b5 = Poly::cell(6, 0).times(Poly::constant(0x100_0000_0000));
    let b6 = Poly::cell(7, 0).times(Poly::constant(0x1_0000_0000_0000));
    let b7 = Poly::cell(8, 0).times(Poly::constant(0x100_0000_0000_0000));
    let spelled = b0.plus(b1).plus(b2).plus(b3).plus(b4).plus(b5).plus(b6).plus(b7);
    Poly::cell(0, 0).minus(spelled)
}

/// Where the limbs of a row are bytes, the decomposition polynomial vanishes
/// exactly when the full number is a word and the limbs are its limbs.
pub proof fn lemma_decomposition_gate(full: int, limbs: Seq<u8>)
    requires
        limbs.len() == 8,
    ensures
        full - limbs_value(limbs) == 0 <==> 0 <= full < pow2_64() && limbs == limbs_of(full as u64),
{
    if full - limbs_value(limbs) == 0 {
        lemma_limbs_unique(limbs, full as u64);
    }
    if 0 <= full < pow2_64() && limbs == limbs_of(full as u64) {
        lemma_limbs_value(full as u64);
    }
}

/// Declares the decomposition gate, which binds the full number of a row to its limbs:
/// `full_number - (sum over i of limbs[i] * 2^(8 i)) == 0` where `q_decompose`
/// is on.
pub fn create_limb_decomposition_gate(
    meta: &mut ConstraintSystemHandle<'_>,
    q_decompose: Selector,
    columns: &[AdviceColumn; 9],
)
    ensures
        declarations(*final(meta)) == declarations(*old(meta)).insert(
            Declaration::Gate {
                selector: q_decompose,
                columns: columns@,
                polys: decomposition_gate(),
            },
        ),
{
    let mut polys: Vec<Poly> = Vec::new();
    polys.push(decomposition_polynomial());
    assert(polys@ =~= decomposition_gate());
    constraint_system_create_gate(meta, "decompose in 8 bit words", &q_decompose, columns, &polys);
}

/// The lookup of limb `limb` of a row in the table of all bytes, as the
/// constraint system holds it.
pub open spec fn range_lookup(
    q_range: Selector,
    t_range: TableColumn,
    columns: Seq<AdviceColumn>,
    limb: int,
) -> Declaration {
    Declaration::Lookup {
        selector: q_range,
        columns,
        inputs: seq![Poly::cell((1 + limb) as usize, 0)],
        table: seq![t_range],
    }
}

/// The range lookups of the first `n` limbs of a row.
pub open spec fn range_lookups(
    q_range: Selector,
    t_range: TableColumn,
    columns: Seq<AdviceColumn>,
    n: int,
) -> Set<Declaration> {
    Set::new(
        |d: Declaration|
            exists|limb: int|
                0 <= limb < n && d == #[trigger] range_lookup(q_range, t_range, columns, limb),
    )
}

/// Declares the lookups that bind each limb of a row to the range of a byte
/// where `q_range` is on.
pub fn create_range_check_gate(
    meta: &mut ConstraintSystemHandle<'_>,
    t_range: TableColumn,
    q_range: Selector,
    columns: &[AdviceColumn; 9],
)
    requires
        is_complex(q_range),
    ensures
        declarations(*final(meta)) == declarations(*old(meta)).union(
            range_lookups(q_range, t_range, columns@, 8),
        ),
{
    let mut limb: usize = 0;
    assert(declarations(*meta) =~= declarations(*old(meta)).union(
        range_lookups(q_range, t_range, columns@, 0),
    ));
    while limb < 8
        invariant
            0 <= limb <= 8,
            is_complex(q_range),
            declarations(*meta) == declarations(*old(meta)).union(
                range_lookups(q_range, t_range, columns@, limb as int),
            ),
        decreases 8 - limb,
    {
        range_check_for_limb(meta, limb, &q_range, &t_range, columns);
        assert(declarations(*meta) =~= declarations(*old(meta)).union(
            range_lookups(q_range, t_range, columns@, limb + 1),
        ));
        limb = limb + 1;
    }
}

/// Declares the lookup of limb `limb` in the table of all bytes.
fn range_check_for_limb(
    meta: &mut ConstraintSystemHandle<'_>,
    limb: usize,
    q_range: &Selector,
    t_range: &TableColumn,
    columns: &[AdviceColumn; 9],
)
    requires
        limb < 8,
        is_complex(*q_range),
    ensures
        declarations(*final(meta)) == declarations(*old(meta)).insert(
            range_lookup(*q_range, *t_range, columns@, limb as int),
        ),
{
    let mut inputs: Vec<Poly> = Vec::new();
    inputs.push(Poly::cell(1 + limb, 0));
    let mut table: Vec<TableColumn> = Vec::new();
    table.push(*t_range);
    assert(inputs@ =~= seq![Poly::cell((1 + limb) as usize, 0)]);
    assert(table@ =~= seq![*t_range]);
    constraint_system_lookup(meta, "lookup limb", q_range, columns, &inputs, &table);
}

/// A lookup table of the chip, by the columns it fills.
pub enum LookupTable {
    /// All bytes, in one column.
    Range { column: TableColumn },
    /// All XORs of two bytes: the operands and the result, in three columns.
    Xor { left: TableColumn, right: TableColumn, out: TableColumn },
}

/// Number of rows of the table of all bytes.
pub const RANGE_TABLE_ROWS: usize = 256;

/// Number of rows of the table of all XORs of two bytes.
pub const XOR_TABLE_ROWS: usize = 65536;

impl LookupTable {
    /// The cells that the first `rows` rows of the table hold: row `i` of the
    /// table of all bytes holds `i`, and row `256 a + b` of the table of all
    /// XORs holds `a`, `b` and `a XOR b`, each in its column.
    pub open spec fn cells(self, rows: int) -> Set<TableCell> {
        match self {
            LookupTable::Range { column } => Set::new(
                |cell: TableCell|
                    cell.row < rows && cell.column == column && cell.value == cell.row,
            ),
            LookupTable::Xor { left, right, out } => Set::new(
                |cell: TableCell|
                    cell.row < rows && {
                        ||| cell.column == left && cell.value == spec_xor_table_row(
                            cell.row as int,
                        ).0
                        ||| cell.column == right && cell.value == spec_xor_table_row(
                            cell.row as int,
                        ).1
                        ||| cell.column == out && cell.value == spec_xor_table_row(
                            cell.row as int,
                        ).2
                    },
            ),
        }
    }

    /// The number of rows of the table.
    pub open spec fn rows(self) -> int {
        match self {
            LookupTable::Range { .. } => RANGE_TABLE_ROWS as int,
            LookupTable::Xor { .. } => XOR_TABLE_ROWS as int,
        }
    }
}

/// The row of the XOR table at `index`: the two operands, then their XOR.
pub open spec fn spec_xor_table_row(index: int) -> (u8, u8, u8) {
    let left = (index / 256) as u8;
    let right = (index % 256) as u8;
    (left, right, left ^ right)
}

/// The row of the XOR table at `index`: the two operands, then their XOR.
/// Every pair of bytes stands in exactly one row.
pub fn xor_table_row(index: usize) -> (row: (u8, u8, u8))
    requires
        index < XOR_TABLE_ROWS,
    ensures
        row == spec_xor_table_row(index as int),
        row.0 == index / 256,
        row.1 == index % 256,
        row.2 == row.0 ^ row.1,
{
    let left = (index / 256) as u8;
    let right = (index % 256) as u8;
    (left, right, left ^ right)
}

/// Fills a lookup table: row `i` of the range table holds `i`, and row
/// `256 a + b` of the XOR table holds `a`, `b` and `a XOR b`.
pub(crate) fn fill_lookup_table(table: &mut TableHandle<'_>, which: &LookupTable) -> (r: Result<
    (),
    Error,
>)
    requires
        which.rows() <= table_rows(*old(table)),
    ensures
        table_rows(*final(table)) == table_rows(*old(table)),
        r is Ok ==> table_cells(*final(table)) == table_cells(*old(table)).union(
            which.cells(which.rows()),
        ),
{
    let ghost start = table_cells(*table);
    assert(table_cells(*table) =~= start.union(which.cells(0)));
    match which {
        LookupTable::Range { column } => {
            let mut i: usize = 0;
            while i < RANGE_TABLE_ROWS
                invariant
                    0 <= i <= RANGE_TABLE_ROWS,
                    RANGE_TABLE_ROWS <= table_rows(*table),
                    table_rows(*table) == table_rows(*old(table)),
                    *which == (LookupTable::Range { column: *column }),
                    table_cells(*table) == start.union(which.cells(i as int)),
                decreases RANGE_TABLE_ROWS - i,
            {
                table_assign_cell(table, "value", column, i, i as u64)?;
                assert(table_cells(*table) =~= start.union(which.cells(i + 1)));
                i = i + 1;
            }
        },
        LookupTable::Xor { left, right, out } => {
            let mut i: usize = 0;
            while i < XOR_TABLE_ROWS
                invariant
                    0 <= i <= XOR_TABLE_ROWS,
                    XOR_TABLE_ROWS <= table_rows(*table),
                    table_rows(*table) == table_rows(*old(table)),
                    *which == (LookupTable::Xor { left: *left, right: *right, out: *out }),
                    table_cells(*table) == start.union(which.cells(i as int)),
                decreases XOR_TABLE_ROWS - i,
            {
                let row = xor_table_row(i);
                table_assign_cell(table, "left_value", left, i, row.0 as u64)?;
                table_assign_cell(table, "right_value", right, i, row.1 as u64)?;
                table_assign_cell(table, "out_value", out, i, row.2 as u64)?;
                assert(table_cells(*table) =~= start.union(which.cells(i + 1)));
                i = i + 1;
            }
        },
    }
    Ok(())
}

/// Fills the table of all bytes.
pub fn populate_lookup_table<L: Layouter<Fq>>(layouter: &mut L, t_range: TableColumn) -> (r: Result<
    (),
    Error,
>) {
    let table = LookupTable::Range { column: t_range };
    layouter_assign_table(layouter, "range 8-bit check table", &table)
}

} // verus!
