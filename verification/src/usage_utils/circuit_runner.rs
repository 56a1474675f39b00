//! Turns test vectors, written in hexadecimal, into what a circuit is built
//! from, and reports what a prover made of it.
use vstd::prelude::*;
use midnight_curves::bls12_381::Fq;
use midnight_proofs::circuit::Value;
use crate::backend::{hex_decode, value_of_byte, witness_bytes};
use crate::types::byte::{native_byte, native_is_byte};
use crate::usage_utils::blake2b_circuit::{witnesses, Blake2bCircuit};

verus! {

/// What a circuit is built from: the bytes of the input, their number, the
/// bytes of the key, their number, the 64 bytes of the expected digest and the
/// number of them that the circuit exposes.
pub type Blake2bCircuitInputs = (Vec<u8>, usize, Vec<u8>, usize, [u8; 64], usize);

/// Why a test vector was not run, or how the run ended.
#[derive(Debug, PartialEq, Eq)]
pub enum RunnerError {
    /// The input, the key or the expected digest is not a hexadecimal string of
    /// even length.
    InvalidHex,
    /// The expected digest is not 64 bytes long.
    OutputLength,
    /// The prover did not accept the circuit.
    Rejected,
}

/// The value of a hexadecimal digit, in either case.
pub open spec fn hex_digit(c: char) -> Option<int> {
    let code = c as u32 as int;
    if 48 <= code <= 57 {
        Some(code - 48)
    } else if 97 <= code <= 102 {
        Some(code - 97 + 10)
    } else if 65 <= code <= 70 {
        Some(code - 65 + 10)
    } else {
        None
    }
}

/// Whether a string is made of hexadecimal digits, two for each byte.
pub open spec fn is_hex(s: Seq<char>) -> bool {
    s.len() % 2 == 0 && forall|i: int| 0 <= i < s.len() ==> hex_digit(#[trigger] s[i]) is Some
}

/// The bytes that a hexadecimal string spells: each pair of digits is one
/// byte, the high digit first.
pub open spec fn hex_bytes(s: Seq<char>) -> Seq<u8> {
    Seq::new(
        s.len() / 2,
        |i: int| (16 * hex_digit(s[2 * i])->0 + hex_digit(s[2 * i + 1])->0) as u8,
    )
}

/// Whether witnesses hold the given bytes, one each, in their order.
pub open spec fn hold_bytes(values: Seq<Option<[u8; 32]>>, bytes: Seq<u8>) -> bool {
    &&& values.len() == bytes.len()
    &&& forall|i: int|
        0 <= i < bytes.len() ==> native_is_byte(#[trigger] values[i]) && native_byte(values[i])
            == Some(bytes[i])
}

/// Runs circuits from test vectors.
#[derive(Debug)]
pub struct CircuitRunner;

impl CircuitRunner {
    /// Prepares a test vector, builds the circuit for it and hands the circuit
    /// to `prove` with the expected digest. `prove` runs a prover on the circuit
    /// with the digest as public input and says whether the prover accepted. A
    /// vector that cannot be prepared is not handed on.
    pub fn mocked_preprocess_inputs_synthesize_prove_and_verify<
        P: FnOnce(Blake2bCircuit, [u8; 64]) -> bool,
    >(input: &String, key: &String, expected: &String, prove: P) -> (r: Result<(), RunnerError>)
        requires
            forall|circuit: Blake2bCircuit, digest: [u8; 64]| prove.requires((circuit, digest)),
        ensures
            Self::is_vector(input@, key@, expected@) ==> exists|
                circuit: Blake2bCircuit,
                digest: [u8; 64],
                accepted: bool,
            |
                {
                    &&& Self::is_circuit_for(circuit, hex_bytes(input@), hex_bytes(key@), 64)
                    &&& digest@ == hex_bytes(expected@)
                    &&& prove.ensures((circuit, digest), accepted)
                    &&& r == if accepted {
                        Ok::<(), RunnerError>(())
                    } else {
                        Err(RunnerError::Rejected)
                    }
                },
            !Self::is_vector(input@, key@, expected@) ==> r == Err::<(), RunnerError>(
                Self::vector_error(input@, key@, expected@),
            ),
    {
        let circuit_inputs = Self::prepare_parameters_for_test(input, key, expected)?;
        let digest = circuit_inputs.4;
        let circuit = Self::create_circuit_for_packed_inputs(circuit_inputs);
        let ghost built = circuit;
        let accepted = prove(circuit, digest);
        assert(prove.ensures((built, digest), accepted));
        if accepted {
            Ok(())
        } else {
            Err(RunnerError::Rejected)
        }
    }

    /// Whether a circuit hashes the given bytes under the given key, to a
    /// digest of the given length.
    pub open spec fn is_circuit_for(
        circuit: Blake2bCircuit,
        input: Seq<u8>,
        key: Seq<u8>,
        output_size: int,
    ) -> bool {
        &&& hold_bytes(circuit.input(), input)
        &&& circuit.input_size() == input.len()
        &&& hold_bytes(circuit.key(), key)
        &&& circuit.key_size() == key.len()
        &&& circuit.output_size() == output_size
    }

    /// A circuit for the given witnesses and sizes.
    pub fn create_circuit_for_inputs(
        input_values: Vec<Value<Fq>>,
        input_size: usize,
        key_values: Vec<Value<Fq>>,
        key_size: usize,
        output_size: usize,
    ) -> (circuit: Blake2bCircuit)
        ensures
            circuit.input() == witnesses(input_values@),
            circuit.key() == witnesses(key_values@),
            circuit.input_size() == input_size,
            circuit.key_size() == key_size,
            circuit.output_size() == output_size,
    {
        Blake2bCircuit::new(input_values, input_size, key_values, key_size, output_size)
    }

    /// A circuit for inputs that come in one piece: its witnesses hold the bytes
    /// of the input and of the key, and its sizes are those given.
    pub fn create_circuit_for_packed_inputs(ci: Blake2bCircuitInputs) -> (circuit: Blake2bCircuit)
        ensures
            hold_bytes(circuit.input(), ci.0@),
            hold_bytes(circuit.key(), ci.2@),
            circuit.input_size() == ci.1,
            circuit.key_size() == ci.3,
            circuit.output_size() == ci.5,
    {
        let input_values = Self::known_values(&ci.0);
        let key_values = Self::known_values(&ci.2);
        Blake2bCircuit::new(input_values, ci.1, key_values, ci.3, ci.5)
    }

    /// Witnesses that hold the given bytes.
    fn known_values(bytes: &Vec<u8>) -> (values: Vec<Value<Fq>>)
        ensures
            hold_bytes(witnesses(values@), bytes@),
    {
        let mut values: Vec<Value<Fq>> = Vec::new();
        let mut i: usize = 0;
        while i < bytes.len()
            invariant
                0 <= i <= bytes.len(),
                values.len() == i,
                forall|j: int|
                    0 <= j < i ==> native_is_byte(witness_bytes(#[trigger] values@[j]))
                        && native_byte(witness_bytes(values@[j])) == Some(bytes@[j]),
            decreases bytes.len() - i,
        {
            values.push(value_of_byte(bytes[i]));
            i = i + 1;
        }
        assert forall|j: int| 0 <= j < bytes.len() implies native_is_byte(
            #[trigger] witnesses(values@)[j],
        ) && native_byte(witnesses(values@)[j]) == Some(bytes@[j]) by {
            assert(witnesses(values@)[j] == witness_bytes(values@[j]));
        }
        values
    }

    /// Whether three strings make a test vector: each is hexadecimal, and the
    /// expected digest is 64 bytes long.
    pub open spec fn is_vector(input: Seq<char>, key: Seq<char>, expected: Seq<char>) -> bool {
        is_hex(input) && is_hex(key) && is_hex(expected) && expected.len() == 128
    }

    /// What is wrong with three strings that make no test vector: the first
    /// fault found in the input, then in the expected digest, then in the key.
    pub open spec fn vector_error(
        input: Seq<char>,
        key: Seq<char>,
        expected: Seq<char>,
    ) -> RunnerError {
        if !is_hex(input) || !is_hex(expected) {
            RunnerError::InvalidHex
        } else if expected.len() != 128 {
            RunnerError::OutputLength
        } else {
            RunnerError::InvalidHex
        }
    }

    /// The circuit inputs are those that the test vector spells.
    pub open spec fn is_prepared(
        inputs: Blake2bCircuitInputs,
        input: Seq<char>,
        key: Seq<char>,
        expected: Seq<char>,
    ) -> bool {
        &&& inputs.0@ == hex_bytes(input)
        &&& inputs.1 == input.len() / 2
        &&& inputs.2@ == hex_bytes(key)
        &&& inputs.3 == key.len() / 2
        &&& inputs.4@ == hex_bytes(expected)
        &&& inputs.5 == 64
    }

    /// Decodes the input, the key and the expected digest of a test vector.
    pub fn prepare_parameters_for_test(input: &String, key: &String, expected: &String) -> (r:
        Result<Blake2bCircuitInputs, RunnerError>)
        ensures
            r is Ok <==> Self::is_vector(input@, key@, expected@),
            r matches Ok(inputs) ==> Self::is_prepared(inputs, input@, key@, expected@),
            r matches Err(e) ==> e == Self::vector_error(input@, key@, expected@),
    {
        let input_bytes = match hex_decode(input.as_str()) {
            Ok(bytes) => bytes,
            Err(_) => {
                return Err(RunnerError::InvalidHex);
            },
        };
        let input_size = input_bytes.len();
        let (expected_output, output_size) = Self::formed_output_block_for(expected)?;
        let key_bytes = match hex_decode(key.as_str()) {
            Ok(bytes) => bytes,
            Err(_) => {
                return Err(RunnerError::InvalidHex);
            },
        };
        let key_size = key_bytes.len();
        Ok((input_bytes, input_size, key_bytes, key_size, expected_output, output_size))
    }

    /// Decodes the expected digest of a test vector, which is 64 bytes long,
    /// and hands it back with its length.
    pub fn formed_output_block_for(output: &String) -> (r: Result<([u8; 64], usize), RunnerError>)
        ensures
            r is Ok <==> is_hex(output@) && output@.len() == 128,
            r matches Ok(block) ==> block.0@ == hex_bytes(output@) && block.1 == 64,
            r matches Err(e) ==> (e is InvalidHex <==> !is_hex(output@)) && (e is OutputLength
                <==> is_hex(output@)),
    {
        let output_bytes = match hex_decode(output.as_str()) {
            Ok(bytes) => bytes,
            Err(_) => {
                return Err(RunnerError::InvalidHex);
            },
        };
        if output_bytes.len() != 64 {
            return Err(RunnerError::OutputLength);
        }
        let mut block: [u8; 64] = [0;64];
        let mut i: usize = 0;
        while i < 64
            invariant
                0 <= i <= 64,
                output_bytes.len() == 64,
                forall|j: int| 0 <= j < i ==> block[j] == output_bytes[j],
            decreases 64 - i,
        {
            block[i] = output_bytes[i];
            i = i + 1;
        }
        assert(block@ =~= output_bytes@);
        Ok((block, output_bytes.len()))
    }
}

} // verus!
