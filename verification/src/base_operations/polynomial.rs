//! The polynomials that the gates of the chip ask to vanish.
//!
//! A gate is written down here as a value, with a meaning of its own: its value
//! on the cells it reads. The same value is then handed to the backend term by
//! term. What is proved of a gate is proved of this meaning.
use vstd::prelude::*;
use midnight_curves::bls12_381::Fq;
use midnight_proofs::plonk::{Expression, Selector};
use crate::backend::{
    expression_constant, expression_negated, expression_product, expression_sum,
    expression_term, holds_simple_selector, is_complex, product_term, query_advice,
    query_selector, sum_term, AdviceColumn, CellQueries, Term,
};

verus! {

/// A polynomial over the cells of the nine advice columns. A cell is named by
/// its column, 0 for the full number and `1 + i` for limb `i`, and by its
/// rotation: how many rows below the row of its selector it stands.
pub enum Poly {
    Constant(u64),
    Cell { column: usize, rotation: usize },
    Sum(Box<Poly>, Box<Poly>),
    Product(Box<Poly>, Box<Poly>),
    Negated(Box<Poly>),
}

/// Rotations beyond this are not used by any gate.
pub const MAX_ROTATION: usize = 2;

impl Poly {
    /// The value of the polynomial, where `cells(rotation, column)` is the
    /// value of a cell.
    pub open spec fn eval(self, cells: spec_fn(int, int) -> int) -> int
        decreases self,
    {
        match self {
            Poly::Constant(c) => c as int,
            Poly::Cell { column, rotation } => cells(rotation as int, column as int),
            Poly::Sum(a, b) => a.eval(cells) + b.eval(cells),
            Poly::Product(a, b) => a.eval(cells) * b.eval(cells),
            Poly::Negated(a) => -a.eval(cells),
        }
    }

    /// Every cell that the polynomial reads is one that the chip has.
    pub open spec fn well_formed(self) -> bool
        decreases self,
    {
        match self {
            Poly::Constant(_) => true,
            Poly::Cell { column, rotation } => column < 9 && rotation <= MAX_ROTATION,
            Poly::Sum(a, b) => a.well_formed() && b.well_formed(),
            Poly::Product(a, b) => a.well_formed() && b.well_formed(),
            Poly::Negated(a) => a.well_formed(),
        }
    }

    /// The constant polynomial.
    pub open spec fn spec_constant(value: u64) -> Poly {
        Poly::Constant(value)
    }

    /// The polynomial that is one cell.
    pub open spec fn spec_cell(column: usize, rotation: usize) -> Poly {
        Poly::Cell { column, rotation }
    }

    /// The sum of two polynomials.
    pub open spec fn spec_plus(self, other: Poly) -> Poly {
        Poly::Sum(Box::new(self), Box::new(other))
    }

    /// The polynomial with the opposite sign.
    pub open spec fn spec_negated(self) -> Poly {
        Poly::Negated(Box::new(self))
    }

    /// The difference of two polynomials.
    pub open spec fn spec_minus(self, other: Poly) -> Poly {
        self.spec_plus(other.spec_negated())
    }

    /// The product of two polynomials.
    pub open spec fn spec_times(self, other: Poly) -> Poly {
        Poly::Product(Box::new(self), Box::new(other))
    }

    /// The constant polynomial.
    #[verifier::when_used_as_spec(spec_constant)]
    pub fn constant(value: u64) -> (p: Poly)
        ensures
            p == Self::spec_constant(value),
            p.well_formed(),
            forall|cells: spec_fn(int, int) -> int| #[trigger] p.eval(cells) == value,
    {
        Poly::Constant(value)
    }

    /// The polynomial that is one cell.
    #[verifier::when_used_as_spec(spec_cell)]
    pub fn cell(column: usize, rotation: usize) -> (p: Poly)
        requires
            column < 9,
            rotation <= MAX_ROTATION,
        ensures
            p == Self::spec_cell(column, rotation),
            p.well_formed(),
            forall|cells: spec_fn(int, int) -> int|
                #[trigger] p.eval(cells) == cells(rotation as int, column as int),
    {
        Poly::Cell { column, rotation }
    }

    /// The sum of two polynomials.
    #[verifier::when_used_as_spec(spec_plus)]
    pub fn plus(self, other: Poly) -> (p: Poly)
        requires
            self.well_formed(),
            other.well_formed(),
        ensures
            p == self.spec_plus(other),
            p.well_formed(),
            forall|cells: spec_fn(int, int) -> int|
                #[trigger] p.eval(cells) == self.eval(cells) + other.eval(cells),
    {
        Poly::Sum(Box::new(self), Box::new(other))
    }

    /// The polynomial with the opposite sign.
    #[verifier::when_used_as_spec(spec_negated)]
    pub fn negated(self) -> (p: Poly)
        requires
            self.well_formed(),
        ensures
            p == self.spec_negated(),
            p.well_formed(),
            forall|cells: spec_fn(int, int) -> int| #[trigger] p.eval(cells) == -self.eval(cells),
    {
        Poly::Negated(Box::new(self))
    }

    /// The difference of two polynomials.
    #[verifier::when_used_as_spec(spec_minus)]
    pub fn minus(self, other: Poly) -> (p: Poly)
        requires
            self.well_formed(),
            other.well_formed(),
        ensures
            p == self.spec_minus(other),
            p.well_formed(),
            forall|cells: spec_fn(int, int) -> int|
                #[trigger] p.eval(cells) == self.eval(cells) - other.eval(cells),
    {
        let opposite = other.negated();
        self.plus(opposite)
    }

    /// The product of two polynomials.
    #[verifier::when_used_as_spec(spec_times)]
    pub fn times(self, other: Poly) -> (p: Poly)
        requires
            self.well_formed(),
            other.well_formed(),
        ensures
            p == self.spec_times(other),
            p.well_formed(),
            forall|cells: spec_fn(int, int) -> int|
                #[trigger] p.eval(cells) == self.eval(cells) * other.eval(cells),
    {
        Poly::Product(Box::new(self), Box::new(other))
    }

    /// The polynomial as the backend reads it once it is lowered over the
    /// given columns: a constant is a constant, a cell the query of its column at
    /// its rotation, and a sum, a product and a negation are what the backend
    /// makes of their parts.
    pub open spec fn term(self, columns: Seq<AdviceColumn>) -> Term
        decreases self,
    {
        match self {
            Poly::Constant(c) => Term::Constant(c),
            Poly::Cell { column, rotation } => Term::Cell {
                column: columns[column as int],
                rotation: rotation as int,
            },
            Poly::Sum(a, b) => sum_term(a.term(columns), b.term(columns)),
            Poly::Product(a, b) => product_term(a.term(columns), b.term(columns)),
            Poly::Negated(a) => Term::Negated(Box::new(a.term(columns))),
        }
    }

    /// The polynomial as an expression of the backend, term by term: a
    /// constant becomes a constant of the field, a cell a query of its column at
    /// its rotation.
    pub(crate) fn lower(&self, cells: &mut CellQueries<'_, '_>, columns: &[AdviceColumn; 9]) -> (expression:
        Expression<Fq>)
        requires
            self.well_formed(),
        ensures
            expression_term(expression) == self.term(columns@),
            !holds_simple_selector(expression),
        decreases self,
    {
        match self {
            Poly::Constant(c) => expression_constant(*c),
            Poly::Cell { column, rotation } => query_advice(cells, &columns[*column], *rotation as i32),
            Poly::Sum(a, b) => {
                let left = a.lower(cells, columns);
                let right = b.lower(cells, columns);
                expression_sum(left, right)
            },
            Poly::Product(a, b) => {
                let left = a.lower(cells, columns);
                let right = b.lower(cells, columns);
                expression_product(left, right)
            },
            Poly::Negated(a) => {
                let inner = a.lower(cells, columns);
                expression_negated(inner)
            },
        }
    }
}

/// Every polynomial of a list reads only cells that the chip has.
pub open spec fn all_well_formed(polys: Seq<Poly>) -> bool {
    forall|i: int| 0 <= i < polys.len() ==> (#[trigger] polys[i]).well_formed()
}

/// The polynomials of a gate as expressions of the backend, in their order.
pub(crate) fn lower_polys(
    cells: &mut CellQueries<'_, '_>,
    columns: &[AdviceColumn; 9],
    polys: &Vec<Poly>,
) -> (expressions: Vec<Expression<Fq>>)
    requires
        all_well_formed(polys@),
    ensures
        expressions.len() == polys.len(),
        forall|i: int|
            0 <= i < expressions.len() ==> expression_term(#[trigger] expressions[i])
                == polys[i].term(columns@),
        forall|i: int|
            0 <= i < expressions.len() ==> !holds_simple_selector(#[trigger] expressions[i]),
{
    let mut expressions: Vec<Expression<Fq>> = Vec::new();
    let mut i: usize = 0;
    while i < polys.len()
        invariant
            0 <= i <= polys.len(),
            expressions.len() == i,
            all_well_formed(polys@),
            forall|j: int|
                0 <= j < i ==> expression_term(#[trigger] expressions[j]) == polys[j].term(
                    columns@,
                ),
            forall|j: int| 0 <= j < i ==> !holds_simple_selector(#[trigger] expressions[j]),
        decreases polys.len() - i,
    {
        let expression = polys[i].lower(cells, columns);
        expressions.push(expression);
        i = i + 1;
    }
    expressions
}

/// The inputs of a lookup as expressions of the backend, each multiplied by
/// the selector of the lookup: where the selector is off the input is zero.
pub(crate) fn lower_lookup_inputs(
    cells: &mut CellQueries<'_, '_>,
    selector: &Selector,
    columns: &[AdviceColumn; 9],
    inputs: &Vec<Poly>,
) -> (expressions: Vec<Expression<Fq>>)
    requires
        all_well_formed(inputs@),
    ensures
        expressions.len() == inputs.len(),
        forall|i: int|
            0 <= i < expressions.len() ==> expression_term(#[trigger] expressions[i])
                == product_term(Term::Switch(*selector), inputs[i].term(columns@)),
        is_complex(*selector) ==> forall|i: int|
            0 <= i < expressions.len() ==> !holds_simple_selector(#[trigger] expressions[i]),
{
    let mut expressions: Vec<Expression<Fq>> = Vec::new();
    let mut i: usize = 0;
    while i < inputs.len()
        invariant
            0 <= i <= inputs.len(),
            expressions.len() == i,
            all_well_formed(inputs@),
            forall|j: int|
                0 <= j < i ==> expression_term(#[trigger] expressions[j]) == product_term(
                    Term::Switch(*selector),
                    inputs[j].term(columns@),
                ),
            is_complex(*selector) ==> forall|j: int|
                0 <= j < i ==> !holds_simple_selector(#[trigger] expressions[j]),
        decreases inputs.len() - i,
    {
        let switch = query_selector(cells, selector);
        let input = inputs[i].lower(cells, columns);
        expressions.push(expression_product(switch, input));
        i = i + 1;
    }
    expressions
}

} // verus!
