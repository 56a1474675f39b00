//! An example circuit that shows how the BLAKE2b chip is used.
//!
//! The circuit stores its witnesses in the trace, loads the tables of the chip
//! and lays the hash out, which binds the digest to the public inputs.
use vstd::prelude::*;
use midnight_curves::bls12_381::Fq;
use midnight_proofs::circuit::{Layouter, Value};
use midnight_proofs::plonk::Error;
use crate::backend::{
    constraint_system_advice_column, constraint_system_fixed_column,
    constraint_system_instance_column, declarations, extends, holds_witness,
    layouter_assign_inputs_region, region_assign_witness, region_requests, region_rows,
    value_unknown, witness_bytes, witness_repr, AdviceColumn, ConstraintSystemHandle,
    FixedColumn, RegionHandle, Request,
};
use crate::blake2b::blake2b_chip::{hash_rows, Blake2bChip, Blake2bConfig};
use crate::error::Blake2bError;
use crate::spec::hash::total_blocks;
use crate::types::byte::native_is_byte;
use crate::types::{native_values, AssignedNative};

verus! {

/// What a sequence of witnesses holds: for each, the bytes of its field
/// element, or `None` where it is not known.
pub open spec fn witnesses(values: Seq<Value<Fq>>) -> Seq<Option<[u8; 32]>> {
    Seq::new(values.len(), |i: int| witness_bytes(values[i]))
}

/// Whether each of a sequence of witnesses can be read as a byte: it is not
/// known, or is below 256.
pub open spec fn are_bytes(values: Seq<Option<[u8; 32]>>) -> bool {
    forall|i: int| 0 <= i < values.len() ==> native_is_byte(#[trigger] values[i])
}

/// The rows that `n` witnesses take, eight to a row.
pub open spec fn input_rows(n: int) -> int {
    (n + 7) / 8
}

/// Stores witnesses in a region, from its first row on: eight to a row, in the
/// limb columns, in their order. Hands back the cells, one for each witness.
/// They are not bound to the range of a byte here: the chip does so with every
/// cell that it reads. Without witnesses nothing is asked of the region, and
/// nothing can fail.
pub fn assign_inputs_in_region(
    region: &mut RegionHandle<'_>,
    limbs: &[AdviceColumn; 8],
    input: &[Value<Fq>],
) -> (r: Result<Vec<AssignedNative>, Error>)
    requires
        input_rows(input.len() as int) <= region_rows(*old(region)),
    ensures
        extends(*final(region), *old(region)),
        input.len() == 0 ==> r is Ok && *final(region) == *old(region),
        r matches Ok(cells) ==> {
            &&& native_values(cells@) == witnesses(input@)
            &&& forall|i: int|
                0 <= i < input.len() ==> holds_witness(
                    *final(region),
                    limbs[i % 8],
                    i / 8,
                    (#[trigger] cells@[i]).spec_cell(),
                    witness_bytes(input[i]),
                )
        },
{
    let ghost start = *region;
    let mut cells: Vec<AssignedNative> = Vec::new();
    let mut index: usize = 0;
    while index < input.len()
        invariant
            0 <= index <= input.len(),
            start == *old(region),
            index == 0 ==> *region == start,
            input_rows(input.len() as int) <= region_rows(start),
            extends(*region, start),
            cells.len() == index,
            forall|i: int|
                0 <= i < index ==> (#[trigger] cells@[i]).value() == witness_bytes(input[i]),
            forall|i: int|
                0 <= i < index ==> holds_witness(
                    *region,
                    limbs[i % 8],
                    i / 8,
                    (#[trigger] cells@[i]).spec_cell(),
                    witness_bytes(input[i]),
                ),
        decreases input.len() - index,
    {
        let row: usize = index / 8;
        let column: usize = index % 8;
        let ghost before = *region;
        let assigned = region_assign_witness(region, "input", &limbs[column], row, &input[index]);
        assert(extends(*region, start)) by {
            assert forall|request: Request| region_requests(start).contains(request) implies
                region_requests(*region).contains(request) by {
                assert(region_requests(before).contains(request));
            }
        }
        let cell = assigned?;
        cells.push(AssignedNative::new(cell, witness_repr(&input[index])));
        index = index + 1;
    }
    assert(native_values(cells@) =~= witnesses(input@));
    Ok(cells)
}

/// The circuit: the input and the key that are hashed, and the sizes of the
/// input, the key and the digest.
#[derive(Clone, Debug)]
pub struct Blake2bCircuit {
    /// The input and the key are unknown to the verifier.
    input: Vec<Value<Fq>>,
    key: Vec<Value<Fq>>,
    /// The sizes are known when the circuit is built, so they are no witnesses.
    input_size: usize,
    key_size: usize,
    output_size: usize,
}

impl Blake2bCircuit {
    /// The witnesses of the input.
    pub closed spec fn input(&self) -> Seq<Option<[u8; 32]>> {
        witnesses(self.input@)
    }

    /// The witnesses of the key.
    pub closed spec fn key(&self) -> Seq<Option<[u8; 32]>> {
        witnesses(self.key@)
    }

    /// The number of input bytes that the circuit was declared with.
    pub closed spec fn input_size(&self) -> usize {
        self.input_size
    }

    /// The number of key bytes that the circuit was declared with.
    pub closed spec fn key_size(&self) -> usize {
        self.key_size
    }

    /// The length of the digest that the circuit exposes.
    pub closed spec fn output_size(&self) -> usize {
        self.output_size
    }

    /// A circuit for the given input, key and sizes.
    pub fn new(
        input: Vec<Value<Fq>>,
        input_size: usize,
        key: Vec<Value<Fq>>,
        key_size: usize,
        output_size: usize,
    ) -> (circuit: Self)
        ensures
            circuit.input() == witnesses(input@),
            circuit.key() == witnesses(key@),
            circuit.input_size() == input_size,
            circuit.key_size() == key_size,
            circuit.output_size() == output_size,
    {
        Self { input, input_size, key, key_size, output_size }
    }

    /// The circuit as the verifier sees it: with the sizes it was declared
    /// with, and as many witnesses, none of them known.
    pub fn without_witnesses(&self) -> (circuit: Self)
        ensures
            circuit.input() == Seq::new(self.input_size() as nat, |i: int| None::<[u8; 32]>),
            circuit.key() == Seq::new(self.key_size() as nat, |i: int| None::<[u8; 32]>),
            circuit.input_size() == self.input_size(),
            circuit.key_size() == self.key_size(),
            circuit.output_size() == self.output_size(),
    {
        let input = Self::unknown_values(self.input_size);
        let key = Self::unknown_values(self.key_size);
        Self {
            input,
            input_size: self.input_size,
            key,
            key_size: self.key_size,
            output_size: self.output_size,
        }
    }

    /// As many witnesses as asked for, none of them known.
    fn unknown_values(n: usize) -> (values: Vec<Value<Fq>>)
        ensures
            witnesses(values@) == Seq::new(n as nat, |i: int| None::<[u8; 32]>),
    {
        let mut values: Vec<Value<Fq>> = Vec::new();
        let mut i: usize = 0;
        while i < n
            invariant
                0 <= i <= n,
                values.len() == i,
                forall|j: int| 0 <= j < i ==> witness_bytes(#[trigger] values@[j]) is None,
            decreases n - i,
        {
            values.push(value_unknown());
            i = i + 1;
        }
        assert(witnesses(values@) =~= Seq::new(n as nat, |i: int| None::<[u8; 32]>));
        values
    }

    /// Declares the columns of the circuit, a word column, eight limb columns,
    /// one for constants and one for the digest, and configures the chip on
    /// them.
    pub fn configure(meta: &mut ConstraintSystemHandle<'_>) -> (config: Blake2bConfig)
        ensures
            config.well_formed(),
            exists|constants: FixedColumn|
                declarations(*final(meta)) == declarations(*old(meta)).union(
                    #[trigger] config.declared(constants),
                ),
    {
        let full_number_u64 = constraint_system_advice_column(meta);
        let l0 = constraint_system_advice_column(meta);
        let l1 = constraint_system_advice_column(meta);
        let l2 = constraint_system_advice_column(meta);
        let l3 = constraint_system_advice_column(meta);
        let l4 = constraint_system_advice_column(meta);
        let l5 = constraint_system_advice_column(meta);
        let l6 = constraint_system_advice_column(meta);
        let l7 = constraint_system_advice_column(meta);
        let limbs: [AdviceColumn; 8] = [l0, l1, l2, l3, l4, l5, l6, l7];
        let constant_col = constraint_system_fixed_column(meta);
        let expected_final_state = constraint_system_instance_column(meta);
        Blake2bChip::configure(meta, constant_col, full_number_u64, limbs, expected_final_state)
    }

    /// Stores witnesses in the trace, in a region of their own, eight to a row
    /// in the limb columns.
    pub fn assign_inputs_to_the_trace<L: Layouter<Fq>>(
        config: &Blake2bConfig,
        layouter: &mut L,
        input: &[Value<Fq>],
    ) -> (r: Result<Vec<AssignedNative>, Error>)
        ensures
            r matches Ok(cells) ==> native_values(cells@) == witnesses(input@),
    {
        layouter_assign_inputs_region(layouter, &config.limbs, input)
    }

    /// Whether the chip takes the sizes and the witnesses of the circuit.
    pub open spec fn hashable(&self) -> bool {
        &&& 1 <= self.output_size() <= 64
        &&& self.key().len() <= 64
        &&& hash_rows(total_blocks(self.input().len() as int, self.key().len() as int))
            <= usize::MAX
        &&& are_bytes(self.input())
        &&& are_bytes(self.key())
    }

    /// Lays the circuit out: the input and the key are stored in the trace, the
    /// tables of the chip are filled, and the hash is laid out, with each byte
    /// of the digest bound to the public input of its index. Succeeds only on
    /// sizes and witnesses that the chip takes; on others, the error is that of
    /// the chip, unless the backend failed before the chip was asked.
    pub fn synthesize<L: Layouter<Fq>>(&self, config: Blake2bConfig, layouter: &mut L) -> (r:
        Result<(), Blake2bError>)
        requires
            config.well_formed(),
        ensures
            r is Ok ==> self.hashable(),
            r matches Err(Blake2bError::OutputSize) ==> !(1 <= self.output_size() <= 64),
            r matches Err(Blake2bError::KeySize) ==> 1 <= self.output_size() <= 64
                && self.key().len() > 64,
            r matches Err(Blake2bError::InputTooLong) ==> 1 <= self.output_size() <= 64
                && self.key().len() <= 64 && hash_rows(
                total_blocks(self.input().len() as int, self.key().len() as int),
            ) > usize::MAX,
            r matches Err(Blake2bError::NotAByte) ==> 1 <= self.output_size() <= 64
                && self.key().len() <= 64 && hash_rows(
                total_blocks(self.input().len() as int, self.key().len() as int),
            ) <= usize::MAX && !(are_bytes(self.input()) && are_bytes(self.key())),
    {
        let assigned_input = match Self::assign_inputs_to_the_trace(
            &config,
            layouter,
            self.input.as_slice(),
        ) {
            Ok(cells) => cells,
            Err(e) => {
                return Err(Blake2bError::Backend(e));
            },
        };
        let assigned_key = match Self::assign_inputs_to_the_trace(
            &config,
            layouter,
            self.key.as_slice(),
        ) {
            Ok(cells) => cells,
            Err(e) => {
                return Err(Blake2bError::Backend(e));
            },
        };
        proof {
            Self::lemma_are_bytes(assigned_input@);
            Self::lemma_are_bytes(assigned_key@);
            assert(assigned_input@.len() == native_values(assigned_input@).len());
            assert(assigned_key@.len() == native_values(assigned_key@).len());
        }
        let chip = Blake2bChip::new(&config);
        if let Err(e) = chip.load(layouter) {
            return Err(Blake2bError::Backend(e));
        }
        match chip.hash(
            layouter,
            assigned_input.as_slice(),
            assigned_key.as_slice(),
            self.output_size,
        ) {
            Ok(_) => Ok(()),
            Err(e) => Err(e),
        }
    }

    /// Cells can be read as bytes exactly when their witnesses can.
    proof fn lemma_are_bytes(cells: Seq<AssignedNative>)
        ensures
            crate::base_operations::natives_are_bytes(cells) <==> are_bytes(native_values(cells)),
    {
        if crate::base_operations::natives_are_bytes(cells) {
            assert forall|i: int| 0 <= i < cells.len() implies native_is_byte(
                #[trigger] native_values(cells)[i],
            ) by {
                assert(native_is_byte(cells[i].value()));
            }
        }
        if are_bytes(native_values(cells)) {
            assert forall|i: int| 0 <= i < cells.len() implies native_is_byte(
                (#[trigger] cells[i]).value(),
            ) by {
                assert(native_is_byte(native_values(cells)[i]));
            }
        }
    }
}

} // verus!
