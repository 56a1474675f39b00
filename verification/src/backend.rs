//! The boundary with the proving backend.
//!
//! Everything the gadget asks of `midnight_proofs`, `ff` and `hex` goes through
//! this module, and nothing here is proved: each function below makes one call and
//! states what is believed of it. The backend's `Region`, `Column`,
//! `ConstraintSystem`, `VirtualCells` and `Table` are generic over traits of `ff`
//! that the verifier cannot read, so it refuses to have them declared; each is
//! kept in a handle that hides it. The field is fixed to the scalar field of
//! BLS12-381.
use vstd::prelude::*;
use midnight_curves::bls12_381::Fq;
use midnight_proofs::circuit::{Cell, Layouter, Region, Table, Value};
use midnight_proofs::plonk::{
    Advice, Column, ConstraintSystem, Constraints, Error, Expression, Fixed, Instance, Selector,
    TableColumn, VirtualCells,
};
use midnight_proofs::poly::Rotation;
use crate::base_operations::polynomial::{
    all_well_formed, lower_lookup_inputs, lower_polys, Poly,
};
use crate::base_operations::{fill_lookup_table, native_bytes, natives_are_bytes, LookupTable};
use crate::blake2b::blake2b_chip::{byte_values, hash_rows, Blake2bChip};
use crate::spec::hash::{digest, total_blocks};
use crate::types::byte::{native_byte, native_is_byte, AssignedByte};
use crate::types::AssignedNative;
use crate::usage_utils::blake2b_circuit::{assign_inputs_in_region, witnesses};
use crate::usage_utils::circuit_runner::{hex_bytes, is_hex};
use ff::PrimeField;
use hex::FromHexError;

verus! {

/// `midnight_proofs::circuit::Cell`: a position in the trace, as the backend
/// names it. Nothing is known of it here.
#[verifier::external_type_specification]
#[verifier::external_body]
pub struct ExCell(Cell);

/// `midnight_proofs::plonk::Selector`: a per-row switch for a gate or a
/// lookup. Nothing is known of it here but what `is_complex` says.
#[verifier::external_type_specification]
#[verifier::external_body]
pub struct ExSelector(Selector);

/// `midnight_proofs::plonk::TableColumn`: a fixed column that holds one
/// column of a lookup table.
#[verifier::external_type_specification]
#[verifier::external_body]
pub struct ExTableColumn(TableColumn);

/// `midnight_proofs::plonk::Error`: what the backend reports when it cannot
/// take an assignment or a constraint.
#[verifier::external_type_specification]
#[verifier::external_body]
pub struct ExError(Error);

/// `hex::FromHexError`: why a string is no hexadecimal.
#[verifier::external_type_specification]
#[verifier::external_body]
pub struct ExFromHexError(FromHexError);

/// `midnight_curves::bls12_381::Fq`: an element of the scalar field of
/// BLS12-381.
#[verifier::external_type_specification]
#[verifier::external_body]
pub struct ExFq(Fq);

/// `midnight_proofs::plonk::Expression`: a polynomial over the cells of the
/// trace, as the backend writes it.
#[verifier::external_type_specification]
#[verifier::external_body]
#[verifier::reject_recursive_types(F)]
pub struct ExExpression<F>(Expression<F>);

/// `midnight_proofs::circuit::Value`: a witness, which the prover knows and the
/// verifier does not. Nothing is known of it here but what `witness_bytes`
/// says.
#[verifier::external_type_specification]
#[verifier::external_body]
#[verifier::reject_recursive_types(V)]
pub struct ExValue<V>(Value<V>);

/// What a witness holds: the canonical little-endian bytes of its field
/// element, or `None` where it is not known.
pub uninterp spec fn witness_bytes(value: Value<Fq>) -> Option<[u8; 32]>;

/// Holds a `Column<Advice>` of `midnight_proofs::plonk`: a witness column.
#[verifier::external_body]
pub struct AdviceColumn {
    pub inner: Column<Advice>,
}

impl Clone for AdviceColumn {
    /// Copies the `Column<Advice>`, which is `Copy`.
    #[verifier::external_body]
    fn clone(&self) -> (r: Self) {
        AdviceColumn { inner: self.inner }
    }
}

impl Copy for AdviceColumn {}

/// Holds a `Column<Fixed>` of `midnight_proofs::plonk`: the column that
/// carries the constants of the circuit.
#[verifier::external_body]
pub struct FixedColumn {
    pub inner: Column<Fixed>,
}

impl Clone for FixedColumn {
    /// Copies the `Column<Fixed>`, which is `Copy`.
    #[verifier::external_body]
    fn clone(&self) -> (r: Self) {
        FixedColumn { inner: self.inner }
    }
}

impl Copy for FixedColumn {}

/// Holds a `Column<Instance>` of `midnight_proofs::plonk`: the public-input
/// column that the digest is bound to.
#[verifier::external_body]
pub struct InstanceColumn {
    pub inner: Column<Instance>,
}

impl Clone for InstanceColumn {
    /// Copies the `Column<Instance>`, which is `Copy`.
    #[verifier::external_body]
    fn clone(&self) -> (r: Self) {
        InstanceColumn { inner: self.inner }
    }
}

impl Copy for InstanceColumn {}

/// Holds a `Region` of `midnight_proofs::circuit`: the part of the trace that
/// a layouter has opened for writing.
#[verifier::external_body]
pub struct RegionHandle<'r> {
    pub inner: Region<'r, Fq>,
}

/// The number of rows, counted from its first, that the backend accepts in a
/// region: a limit that the region was made with. The mock prover of the
/// backend aborts on a row at or beyond it.
pub uninterp spec fn region_rows(region: RegionHandle<'_>) -> nat;

/// The number of rows that the backend accepts in a lookup table: a limit that
/// the table was made with. The mock prover of the backend aborts on a row at or
/// beyond it.
pub uninterp spec fn table_rows(table: TableHandle<'_>) -> nat;

/// A cell of a lookup table: the value that a column of the table holds at a
/// row.
pub struct TableCell {
    pub column: TableColumn,
    pub row: usize,
    pub value: u64,
}

/// The cells that a lookup table under assignment has taken.
pub uninterp spec fn table_cells(table: TableHandle<'_>) -> Set<TableCell>;

/// Whether a selector may stand in a lookup: whether it is complex, as
/// `complex_selector` hands them out, and not simple. The backend aborts on a
/// lookup that holds a simple selector.
pub uninterp spec fn is_complex(selector: Selector) -> bool;

/// An expression of the backend, read node by node. A constant below two to
/// the 64 is read as its number, a query of an advice column as the column and
/// the rotation, a selector as itself; a sum, a product and a negation are read
/// part by part. Whatever else an expression can hold is not told apart.
pub enum Term {
    Constant(u64),
    Cell { column: AdviceColumn, rotation: int },
    Switch(Selector),
    Sum(Box<Term>, Box<Term>),
    Product(Box<Term>, Box<Term>),
    Negated(Box<Term>),
    Other,
}

/// What an expression of the backend holds, read node by node.
pub uninterp spec fn expression_term(expression: Expression<Fq>) -> Term;

/// What the `Add` of `Expression` makes of two expressions: a zero constant
/// is dropped, else the two stand under a sum.
pub open spec fn sum_term(left: Term, right: Term) -> Term {
    if left == Term::Constant(0) {
        right
    } else if right == Term::Constant(0) {
        left
    } else {
        Term::Sum(Box::new(left), Box::new(right))
    }
}

/// What the `Mul` of `Expression` makes of two expressions: with a zero
/// constant the product is zero, a constant one is dropped, else the two stand
/// under a product.
pub open spec fn product_term(left: Term, right: Term) -> Term {
    if left == Term::Constant(0) || right == Term::Constant(0) {
        Term::Constant(0)
    } else if left == Term::Constant(1) {
        right
    } else if right == Term::Constant(1) {
        left
    } else {
        Term::Product(Box::new(left), Box::new(right))
    }
}

/// Whether an expression holds a simple selector, as the backend's
/// `Expression::contains_simple_selector` finds it. The backend aborts on a sum
/// with a term that holds one, and on a product of two factors that hold one.
pub uninterp spec fn holds_simple_selector(expression: Expression<Fq>) -> bool;

/// What a region can be asked for.
pub enum Request {
    /// A witness for the cell of a column at a row. `None` stands for a
    /// witness that is not known.
    Advice { column: AdviceColumn, row: usize, cell: Cell, value: Option<u64> },
    /// A witness of any size for the cell of a column at a row, given by the
    /// bytes of its field element.
    Witness { column: AdviceColumn, row: usize, cell: Cell, value: Option<[u8; 32]> },
    /// A constant for the cell of a column at a row, which the circuit binds
    /// the cell to.
    Constant { column: AdviceColumn, row: usize, cell: Cell, constant: u64 },
    /// A selector switched on at a row.
    Enabled { selector: Selector, row: usize },
    /// An equality constraint between two cells.
    Equal { left: Cell, right: Cell },
}

/// The requests that a region has taken since it was opened.
pub uninterp spec fn region_requests(region: RegionHandle<'_>) -> Set<Request>;

/// Whether a region is an earlier one further filled: it holds every request
/// that the earlier one held, and has its row limit.
pub open spec fn extends(after: RegionHandle<'_>, before: RegionHandle<'_>) -> bool {
    &&& region_rows(after) == region_rows(before)
    &&& region_requests(before).subset_of(region_requests(after))
}

/// Whether the region holds the request of a witness `value` for `cell`, the
/// cell of `column` at `row`.
pub open spec fn holds_advice(
    region: RegionHandle<'_>,
    column: AdviceColumn,
    row: int,
    cell: Cell,
    value: Option<u64>,
) -> bool {
    0 <= row <= usize::MAX && region_requests(region).contains(
        Request::Advice { column, row: row as usize, cell, value },
    )
}

/// Whether the region holds the request of a witness of any size for `cell`,
/// the cell of `column` at `row`.
pub open spec fn holds_witness(
    region: RegionHandle<'_>,
    column: AdviceColumn,
    row: int,
    cell: Cell,
    value: Option<[u8; 32]>,
) -> bool {
    0 <= row <= usize::MAX && region_requests(region).contains(
        Request::Witness { column, row: row as usize, cell, value },
    )
}

/// Whether the region holds the request of a constant `value` for `cell`, the
/// cell of `column` at `row`.
pub open spec fn holds_constant(
    region: RegionHandle<'_>,
    column: AdviceColumn,
    row: int,
    cell: Cell,
    value: u64,
) -> bool {
    0 <= row <= usize::MAX && region_requests(region).contains(
        Request::Constant { column, row: row as usize, cell, constant: value },
    )
}

/// Whether the region holds the request to switch `selector` on at `row`.
pub open spec fn is_enabled(region: RegionHandle<'_>, selector: Selector, row: int) -> bool {
    0 <= row <= usize::MAX && region_requests(region).contains(
        Request::Enabled { selector, row: row as usize },
    )
}

/// Whether the region holds the request of an equality constraint between
/// `left` and `right`.
pub open spec fn holds_equal(region: RegionHandle<'_>, left: Cell, right: Cell) -> bool {
    region_requests(region).contains(Request::Equal { left, right })
}

/// Whether the region takes `n` more rows from `offset` on, and the row after
/// them can still be counted.
pub open spec fn has_rows(region: RegionHandle<'_>, offset: usize, n: int) -> bool {
    offset + n <= region_rows(region) && offset + n <= usize::MAX
}

/// Calls `Region::assign_advice` with a 64-bit value embedded in the field, and
/// hands back the cell it wrote. Where the region takes the request it holds
/// one request more, for that cell; in any case it loses none.
#[verifier::external_body]
pub(crate) fn region_assign_advice(
    region: &mut RegionHandle<'_>,
    annotation: &str,
    column: &AdviceColumn,
    offset: usize,
    value: Option<u64>,
) -> (r: Result<Cell, Error>)
    requires
        offset < region_rows(*old(region)),
    ensures
        region_rows(*final(region)) == region_rows(*old(region)),
        region_requests(*old(region)).subset_of(region_requests(*final(region))),
        r matches Ok(cell) ==> region_requests(*final(region)) == region_requests(
            *old(region),
        ).insert(Request::Advice { column: *column, row: offset, cell, value }),
{
    let witness = match value {
        Some(v) => Value::known(Fq::from(v)),
        None => Value::unknown(),
    };
    Ok(region.inner.assign_advice(|| annotation, column.inner, offset, || witness)?.cell())
}

/// Calls `Value::unknown`: a witness that is not known.
#[verifier::external_body]
pub(crate) fn value_unknown() -> (value: Value<Fq>)
    ensures
        witness_bytes(value) is None,
{
    Value::unknown()
}

/// Calls `Value::known` on a byte embedded in the field: a witness that holds
/// the byte.
#[verifier::external_body]
pub(crate) fn value_of_byte(byte: u8) -> (value: Value<Fq>)
    ensures
        native_is_byte(witness_bytes(value)),
        native_byte(witness_bytes(value)) == Some(byte),
{
    Value::known(Fq::from(byte as u64))
}

/// Reads a witness with `Value::map` and `PrimeField::to_repr`: the bytes of
/// its field element, where it is known.
#[verifier::external_body]
pub(crate) fn witness_repr(value: &Value<Fq>) -> (bytes: Option<[u8; 32]>)
    ensures
        bytes == witness_bytes(*value),
{
    let mut bytes = None;
    value.map(|element| bytes = Some(element.to_repr()));
    bytes
}

/// Calls `Region::assign_advice` with a witness as it was given, and hands back
/// the cell it wrote. Where the region takes the request it holds one request
/// more, for that cell; in any case it loses none.
#[verifier::external_body]
pub(crate) fn region_assign_witness(
    region: &mut RegionHandle<'_>,
    annotation: &str,
    column: &AdviceColumn,
    offset: usize,
    value: &Value<Fq>,
) -> (r: Result<Cell, Error>)
    requires
        offset < region_rows(*old(region)),
    ensures
        region_rows(*final(region)) == region_rows(*old(region)),
        region_requests(*old(region)).subset_of(region_requests(*final(region))),
        r matches Ok(cell) ==> region_requests(*final(region)) == region_requests(
            *old(region),
        ).insert(
            Request::Witness { column: *column, row: offset, cell, value: witness_bytes(*value) },
        ),
{
    Ok(region.inner.assign_advice(|| annotation, column.inner, offset, || *value)?.cell())
}

/// Calls `Region::assign_advice_from_constant`: the cell is written and bound to
/// the constant through the constants column. Where the region takes the
/// request it holds one request more, for that cell; in any case it loses none.
#[verifier::external_body]
pub(crate) fn region_assign_constant(
    region: &mut RegionHandle<'_>,
    annotation: &str,
    column: &AdviceColumn,
    offset: usize,
    constant: u64,
) -> (r: Result<Cell, Error>)
    requires
        offset < region_rows(*old(region)),
    ensures
        region_rows(*final(region)) == region_rows(*old(region)),
        region_requests(*old(region)).subset_of(region_requests(*final(region))),
        r matches Ok(cell) ==> region_requests(*final(region)) == region_requests(
            *old(region),
        ).insert(Request::Constant { column: *column, row: offset, cell, constant }),
{
    let cell = region.inner.assign_advice_from_constant(
        || annotation,
        column.inner,
        offset,
        Fq::from(constant),
    )?;
    Ok(cell.cell())
}

/// Calls `Region::constrain_equal` on two cells that the backend has handed
/// out. Where the region takes the request it holds one request more; in any
/// case it loses none.
#[verifier::external_body]
pub(crate) fn region_constrain_equal(region: &mut RegionHandle<'_>, left: Cell, right: Cell) -> (r:
    Result<(), Error>)
    ensures
        region_rows(*final(region)) == region_rows(*old(region)),
        region_requests(*old(region)).subset_of(region_requests(*final(region))),
        r is Ok ==> region_requests(*final(region)) == region_requests(*old(region)).insert(
            Request::Equal { left, right },
        ),
{
    region.inner.constrain_equal(left, right)
}

/// Calls `Selector::enable` at a row of the region. Where the region takes the
/// request it holds one request more; in any case it loses none.
#[verifier::external_body]
pub(crate) fn region_enable_selector(
    region: &mut RegionHandle<'_>,
    selector: &Selector,
    offset: usize,
) -> (r: Result<(), Error>)
    requires
        offset < region_rows(*old(region)),
    ensures
        region_rows(*final(region)) == region_rows(*old(region)),
        region_requests(*old(region)).subset_of(region_requests(*final(region))),
        r is Ok ==> region_requests(*final(region)) == region_requests(*old(region)).insert(
            Request::Enabled { selector: *selector, row: offset },
        ),
{
    selector.enable(&mut region.inner, offset)
}

/// Holds a `ConstraintSystem` of `midnight_proofs::plonk`, which a circuit
/// declares its columns, gates and lookups in.
#[verifier::external_body]
pub struct ConstraintSystemHandle<'a> {
    pub inner: &'a mut ConstraintSystem<Fq>,
}

/// Holds the `VirtualCells` of `midnight_proofs::plonk` that a gate or a
/// lookup under declaration may query.
#[verifier::external_body]
pub struct CellQueries<'a, 'b> {
    pub(crate) inner: &'a mut VirtualCells<'b, Fq>,
}

/// Holds a `Table` of `midnight_proofs::circuit`: a lookup table under
/// assignment.
#[verifier::external_body]
pub struct TableHandle<'r> {
    pub(crate) inner: Table<'r, Fq>,
}

/// What a constraint system can be asked to hold.
pub enum Declaration {
    /// A fixed column may carry the constants of the circuit.
    Constants { column: FixedColumn },
    /// The cells of an advice column may stand in equality constraints.
    Equality { column: AdviceColumn },
    /// The cells of an instance column may stand in equality constraints.
    InstanceEquality { column: InstanceColumn },
    /// A gate: on every row where the selector is on, each of the polynomials
    /// vanishes. The polynomials read the given columns, in their order.
    Gate { selector: Selector, columns: Seq<AdviceColumn>, polys: Seq<Poly> },
    /// A lookup: on every row where the selector is on, the values of the
    /// inputs are together a row of the table columns. The inputs read the
    /// given columns, in their order.
    Lookup {
        selector: Selector,
        columns: Seq<AdviceColumn>,
        inputs: Seq<Poly>,
        table: Seq<TableColumn>,
    },
}

/// The declarations that a constraint system has taken.
pub uninterp spec fn declarations(meta: ConstraintSystemHandle<'_>) -> Set<Declaration>;

/// Calls `ConstraintSystem::advice_column`, which hands out a new witness
/// column. Nothing is declared of it yet.
#[verifier::external_body]
pub(crate) fn constraint_system_advice_column(meta: &mut ConstraintSystemHandle<'_>) -> (column:
    AdviceColumn)
    ensures
        declarations(*final(meta)) == declarations(*old(meta)),
{
    AdviceColumn { inner: meta.inner.advice_column() }
}

/// Calls `ConstraintSystem::fixed_column`, which hands out a new fixed column.
/// Nothing is declared of it yet.
#[verifier::external_body]
pub(crate) fn constraint_system_fixed_column(meta: &mut ConstraintSystemHandle<'_>) -> (column:
    FixedColumn)
    ensures
        declarations(*final(meta)) == declarations(*old(meta)),
{
    FixedColumn { inner: meta.inner.fixed_column() }
}

/// Calls `ConstraintSystem::instance_column`, which hands out a new column of
/// public inputs. Nothing is declared of it yet.
#[verifier::external_body]
pub(crate) fn constraint_system_instance_column(meta: &mut ConstraintSystemHandle<'_>) -> (column:
    InstanceColumn)
    ensures
        declarations(*final(meta)) == declarations(*old(meta)),
{
    InstanceColumn { inner: meta.inner.instance_column() }
}

/// Calls `ConstraintSystem::enable_constant`: the column may carry constants.
/// The constraint system holds that declaration more.
#[verifier::external_body]
pub(crate) fn constraint_system_enable_constant(
    meta: &mut ConstraintSystemHandle<'_>,
    column: &FixedColumn,
)
    ensures
        declarations(*final(meta)) == declarations(*old(meta)).insert(
            Declaration::Constants { column: *column },
        ),
{
    meta.inner.enable_constant(column.inner);
}

/// Calls `ConstraintSystem::enable_equality` on an advice column: its cells
/// may take part in equality constraints. The constraint system holds that
/// declaration more.
#[verifier::external_body]
pub(crate) fn constraint_system_enable_equality(
    meta: &mut ConstraintSystemHandle<'_>,
    column: &AdviceColumn,
)
    ensures
        declarations(*final(meta)) == declarations(*old(meta)).insert(
            Declaration::Equality { column: *column },
        ),
{
    meta.inner.enable_equality(column.inner);
}

/// Calls `ConstraintSystem::enable_equality` on an instance column. The
/// constraint system holds that declaration more.
#[verifier::external_body]
pub(crate) fn constraint_system_enable_instance_equality(
    meta: &mut ConstraintSystemHandle<'_>,
    column: &InstanceColumn,
)
    ensures
        declarations(*final(meta)) == declarations(*old(meta)).insert(
            Declaration::InstanceEquality { column: *column },
        ),
{
    meta.inner.enable_equality(column.inner);
}

/// Calls `ConstraintSystem::complex_selector`, which hands out a selector that
/// may stand in a lookup. Nothing is declared of it yet.
#[verifier::external_body]
pub(crate) fn constraint_system_complex_selector(meta: &mut ConstraintSystemHandle<'_>) -> (selector:
    Selector)
    ensures
        is_complex(selector),
        declarations(*final(meta)) == declarations(*old(meta)),
{
    meta.inner.complex_selector()
}

/// Calls `ConstraintSystem::lookup_table_column`, which hands out a new column
/// for a lookup table. Nothing is declared of it yet.
#[verifier::external_body]
pub(crate) fn constraint_system_lookup_table_column(meta: &mut ConstraintSystemHandle<'_>) -> (column:
    TableColumn)
    ensures
        declarations(*final(meta)) == declarations(*old(meta)),
{
    meta.inner.lookup_table_column()
}

/// Calls `ConstraintSystem::create_gate` with the given polynomials, each
/// multiplied by the selector. The constraint system holds that gate more. The
/// backend aborts on an empty gate.
#[verifier::external_body]
pub(crate) fn constraint_system_create_gate(
    meta: &mut ConstraintSystemHandle<'_>,
    name: &'static str,
    selector: &Selector,
    columns: &[AdviceColumn; 9],
    polys: &Vec<Poly>,
)
    requires
        polys.len() > 0,
        all_well_formed(polys@),
    ensures
        declarations(*final(meta)) == declarations(*old(meta)).insert(
            Declaration::Gate { selector: *selector, columns: columns@, polys: polys@ },
        ),
{
    meta.inner.create_gate(
        name,
        |cells| {
            let expressions = lower_polys(&mut CellQueries { inner: cells }, columns, polys);
            Constraints::with_selector(*selector, expressions)
        },
    );
}

/// Calls `ConstraintSystem::lookup`: on every row, the inputs, each multiplied
/// by the selector, must together be a row of the table columns. The constraint
/// system holds that lookup more. The backend aborts on a selector that is not
/// complex.
#[verifier::external_body]
pub(crate) fn constraint_system_lookup(
    meta: &mut ConstraintSystemHandle<'_>,
    name: &str,
    selector: &Selector,
    columns: &[AdviceColumn; 9],
    inputs: &Vec<Poly>,
    table: &Vec<TableColumn>,
)
    requires
        is_complex(*selector),
        inputs.len() == table.len(),
        all_well_formed(inputs@),
    ensures
        declarations(*final(meta)) == declarations(*old(meta)).insert(
            Declaration::Lookup {
                selector: *selector,
                columns: columns@,
                inputs: inputs@,
                table: table@,
            },
        ),
{
    meta.inner.lookup(
        name,
        |cells| {
            let expressions =
                lower_lookup_inputs(&mut CellQueries { inner: cells }, selector, columns, inputs);
            expressions.into_iter().zip(table.iter().copied()).collect()
        },
    );
}

/// Calls `VirtualCells::query_selector`. The expression is the selector
/// alone: it holds a simple selector exactly when the selector is not complex.
#[verifier::external_body]
pub(crate) fn query_selector(cells: &mut CellQueries<'_, '_>, selector: &Selector) -> (expression:
    Expression<Fq>)
    ensures
        expression_term(expression) == Term::Switch(*selector),
        holds_simple_selector(expression) <==> !is_complex(*selector),
{
    cells.inner.query_selector(*selector)
}

/// Calls `VirtualCells::query_advice` for the cell of a column that stands
/// `rotation` rows below the row of the selector. The expression is that query
/// alone, and holds no selector.
#[verifier::external_body]
pub(crate) fn query_advice(
    cells: &mut CellQueries<'_, '_>,
    column: &AdviceColumn,
    rotation: i32,
) -> (expression: Expression<Fq>)
    ensures
        expression_term(expression) == (Term::Cell { column: *column, rotation: rotation as int }),
        !holds_simple_selector(expression),
{
    cells.inner.query_advice(column.inner, Rotation(rotation))
}

/// Builds `Expression::Constant` from a 64-bit value embedded in the field. It
/// holds no selector.
#[verifier::external_body]
pub(crate) fn expression_constant(value: u64) -> (expression: Expression<Fq>)
    ensures
        expression_term(expression) == Term::Constant(value),
        !holds_simple_selector(expression),
{
    Expression::Constant(Fq::from(value))
}

/// Adds two expressions, with the `Add` of `Expression`, which aborts where
/// one of them holds a simple selector. The sum is one of the two or holds both,
/// so it holds no simple selector either.
#[verifier::external_body]
pub(crate) fn expression_sum(left: Expression<Fq>, right: Expression<Fq>) -> (expression:
    Expression<Fq>)
    requires
        !holds_simple_selector(left),
        !holds_simple_selector(right),
    ensures
        expression_term(expression) == sum_term(expression_term(left), expression_term(right)),
        !holds_simple_selector(expression),
{
    left + right
}

/// Multiplies two expressions, with the `Mul` of `Expression`, which aborts
/// where both hold a simple selector. The product is a constant, one of the two
/// or holds both, so it holds a simple selector only where one of them does.
#[verifier::external_body]
pub(crate) fn expression_product(left: Expression<Fq>, right: Expression<Fq>) -> (expression:
    Expression<Fq>)
    requires
        !(holds_simple_selector(left) && holds_simple_selector(right)),
    ensures
        expression_term(expression) == product_term(
            expression_term(left),
            expression_term(right),
        ),
        holds_simple_selector(expression) ==> holds_simple_selector(left) || holds_simple_selector(
            right,
        ),
{
    left * right
}

/// Negates an expression, with the `Neg` of `Expression`. It holds a simple
/// selector exactly when the expression does.
#[verifier::external_body]
pub(crate) fn expression_negated(inner: Expression<Fq>) -> (expression: Expression<Fq>)
    ensures
        expression_term(expression) == Term::Negated(Box::new(expression_term(inner))),
        holds_simple_selector(expression) <==> holds_simple_selector(inner),
{
    -inner
}

/// Calls `Table::assign_cell` with a 64-bit value embedded in the field. The
/// table keeps its row limit. Where it takes the cell it holds that cell more.
#[verifier::external_body]
pub(crate) fn table_assign_cell(
    table: &mut TableHandle<'_>,
    annotation: &str,
    column: &TableColumn,
    offset: usize,
    value: u64,
) -> (r: Result<(), Error>)
    requires
        offset < table_rows(*old(table)),
    ensures
        table_rows(*final(table)) == table_rows(*old(table)),
        r is Ok ==> table_cells(*final(table)) == table_cells(*old(table)).insert(
            TableCell { column: *column, row: offset, value },
        ),
{
    table.inner.assign_cell(|| annotation, *column, offset, || Value::known(Fq::from(value)))
}

/// Calls `Layouter::assign_table` and fills the table in it, with
/// `fill_lookup_table`. The mock prover of the backend aborts where its trace is
/// shorter than the table.
#[verifier::external_body]
pub(crate) fn layouter_assign_table<L: Layouter<Fq>>(
    layouter: &mut L,
    name: &str,
    which: &LookupTable,
) -> (r: Result<(), Error>) {
    layouter.assign_table(
        || name,
        |table| fill_lookup_table(&mut TableHandle { inner: table }, which),
    )
}

/// Calls `Layouter::assign_region` and lays the hash out in the one region it
/// opens, with `Blake2bChip::hash_in_region`. The bytes handed back are those
/// that the layout in the region gave; what is claimed of them is what
/// `hash_in_region` proves. The mock prover of the backend aborts where its
/// trace has fewer rows than the hash takes.
#[verifier::external_body]
pub(crate) fn layouter_assign_hash_region<L: Layouter<Fq>>(
    layouter: &mut L,
    chip: &Blake2bChip,
    input: &[AssignedNative],
    key: &[AssignedNative],
    output_size: usize,
) -> (r: Result<[AssignedByte; 64], Error>)
    requires
        1 <= output_size <= 64,
        key.len() <= 64,
        natives_are_bytes(input@),
        natives_are_bytes(key@),
        hash_rows(total_blocks(input.len() as int, key.len() as int)) <= usize::MAX,
    ensures
        r matches Ok(bytes) ==> byte_values(bytes@) == digest(
            native_bytes(input@),
            native_bytes(key@),
            output_size as int,
        ),
{
    layouter.assign_region(
        || "single region",
        |region| chip.hash_in_region(&mut RegionHandle { inner: region }, input, key, output_size),
    )
}

/// Calls `Layouter::assign_region` and stores witnesses in the one region it
/// opens, with `assign_inputs_in_region`. The cells handed back are those that
/// the layout in the region gave; what is claimed of them is what
/// `assign_inputs_in_region` proves. The mock prover of the backend aborts
/// where its trace has fewer rows than the witnesses take.
#[verifier::external_body]
pub(crate) fn layouter_assign_inputs_region<L: Layouter<Fq>>(
    layouter: &mut L,
    limbs: &[AdviceColumn; 8],
    input: &[Value<Fq>],
) -> (r: Result<Vec<AssignedNative>, Error>)
    ensures
        r matches Ok(cells) ==> crate::types::native_values(cells@) == witnesses(input@),
{
    layouter.assign_region(
        || "Inputs",
        |region| assign_inputs_in_region(&mut RegionHandle { inner: region }, limbs, input),
    )
}

/// Calls `Layouter::constrain_instance`: the cell must equal the public input
/// at a row of the instance column.
#[verifier::external_body]
pub(crate) fn layouter_constrain_instance<L: Layouter<Fq>>(
    layouter: &mut L,
    cell: Cell,
    column: &InstanceColumn,
    row: usize,
) -> (r: Result<(), Error>) {
    layouter.constrain_instance(cell, column.inner, row)
}

/// Calls `hex::decode`. A string decodes exactly when it has an even number of
/// characters, all of them hexadecimal digits of either case, and each pair of
/// digits then gives one byte, the high digit first.
#[verifier::external_body]
pub(crate) fn hex_decode(data: &str) -> (r: Result<Vec<u8>, FromHexError>)
    ensures
        r is Ok <==> is_hex(data@),
        r matches Ok(bytes) ==> bytes@ == hex_bytes(data@),
{
    hex::decode(data)
}

} // verus!
