use blake2b_halo2::backend::{
    AdviceColumn, ConstraintSystemHandle, FixedColumn, InstanceColumn, RegionHandle,
};
use blake2b_halo2::base_operations::generate_row_from_word_and_keep_row;
use blake2b_halo2::blake2b::blake2b_chip::{Blake2bChip, Blake2bConfig, MIX_ROWS};
use blake2b_halo2::blake2b::blake2b_instructions::Blake2bInstructions;
use blake2b_halo2::types::blake2b_word::{AssignedBlake2bWord, Blake2bWord};
use blake2b_halo2::types::row::AssignedRow;
use midnight_curves::bls12_381::Fq;
use midnight_proofs::circuit::{Layouter, SimpleFloorPlanner};
use midnight_proofs::dev::MockProver;
use midnight_proofs::plonk::{Circuit, ConstraintSystem, Error};
use rand::Rng;
use std::cell::RefCell;

#[derive(Clone, Copy)]
enum Operation {
    Add(u64, u64),
    AddCopying(u64, u64),
    Xor(u64, u64),
    XorCopying(u64, u64),
    Rotate16(u64),
    Rotate24(u64),
    Rotate32(u64),
    Rotate63(u64),
    Not(u64),
    Mix([u64; 16], [usize; 4], u64, u64),
    MixThroughTrait([u64; 16], [usize; 4], u64, u64),
}

/// What an operation left behind: the words it computed and the rows it took.
#[derive(Clone, Debug, PartialEq)]
struct Outcome {
    words: Vec<Option<u64>>,
    rows: usize,
}

struct OperationCircuit {
    operation: Operation,
    /// The words that the results are bound to, as constants of the circuit.
    claimed: Vec<u64>,
    outcome: RefCell<Option<Outcome>>,
}

fn operand(
    config: &Blake2bConfig,
    region: &mut RegionHandle<'_>,
    offset: &mut usize,
    value: u64,
) -> Result<AssignedRow, Error> {
    config.q_decompose.enable(&mut region.inner, *offset)?;
    config.q_range.enable(&mut region.inner, *offset)?;
    let row = generate_row_from_word_and_keep_row(
        region,
        Some(Blake2bWord(value)),
        *offset,
        &config.full_number_u64,
        &config.limbs,
    )?;
    *offset += 1;
    Ok(row)
}

impl Circuit<Fq> for OperationCircuit {
    type Config = Blake2bConfig;
    type FloorPlanner = SimpleFloorPlanner;

    fn without_witnesses(&self) -> Self {
        Self { operation: self.operation, claimed: self.claimed.clone(), outcome: RefCell::new(None) }
    }

    fn configure(meta: &mut ConstraintSystem<Fq>) -> Self::Config {
        let full_number_u64 = AdviceColumn { inner: meta.advice_column() };
        let limbs: [AdviceColumn; 8] =
            std::array::from_fn(|_| AdviceColumn { inner: meta.advice_column() });
        let constants = FixedColumn { inner: meta.fixed_column() };
        let output = InstanceColumn { inner: meta.instance_column() };
        Blake2bChip::configure(
            &mut ConstraintSystemHandle { inner: meta },
            constants,
            full_number_u64,
            limbs,
            output,
        )
    }

    fn synthesize(&self, config: Self::Config, mut layouter: impl Layouter<Fq>) -> Result<(), Error> {
        let chip = Blake2bChip::new(&config);
        chip.load(&mut layouter)?;
        let outcome = layouter.assign_region(
            || "operation",
            |region| {
                let mut region = RegionHandle { inner: region };
                let mut offset = 0;
                let (results, start): (Vec<AssignedBlake2bWord>, usize) = match self.operation {
                    Operation::Add(a, b) => {
                        let a = operand(&config, &mut region, &mut offset, a)?;
                        let b = operand(&config, &mut region, &mut offset, b)?;
                        let start = offset;
                        let row = chip.add(&a.full_number, &b.full_number, &mut region, &mut offset)?;
                        (vec![row.full_number], start)
                    },
                    Operation::AddCopying(a, b) => {
                        let b = operand(&config, &mut region, &mut offset, b)?;
                        let a = operand(&config, &mut region, &mut offset, a)?;
                        let start = offset;
                        let row = chip.add_copying_one_parameter(
                            &a.full_number,
                            &b.full_number,
                            &mut region,
                            &mut offset,
                        )?;
                        (vec![row.full_number], start)
                    },
                    Operation::Xor(a, b) => {
                        let a = operand(&config, &mut region, &mut offset, a)?;
                        let b = operand(&config, &mut region, &mut offset, b)?;
                        let start = offset;
                        let row = chip.xor(&a.full_number, &b.full_number, &mut region, &mut offset)?;
                        (vec![row.full_number], start)
                    },
                    Operation::XorCopying(a, b) => {
                        let b = operand(&config, &mut region, &mut offset, b)?;
                        let a = operand(&config, &mut region, &mut offset, a)?;
                        let start = offset;
                        let row = chip.xor_copying_one_parameter(
                            &a,
                            &b.full_number,
                            &mut region,
                            &mut offset,
                        )?;
                        (vec![row.full_number], start)
                    },
                    Operation::Rotate16(a) => {
                        let a = operand(&config, &mut region, &mut offset, a)?;
                        let start = offset;
                        (vec![chip.rotate_right_16(a, &mut region, &mut offset)?], start)
                    },
                    Operation::Rotate24(a) => {
                        let a = operand(&config, &mut region, &mut offset, a)?;
                        let start = offset;
                        (vec![chip.rotate_right_24(a, &mut region, &mut offset)?], start)
                    },
                    Operation::Rotate32(a) => {
                        let a = operand(&config, &mut region, &mut offset, a)?;
                        let start = offset;
                        (vec![chip.rotate_right_32(a, &mut region, &mut offset)?], start)
                    },
                    Operation::Rotate63(a) => {
                        let a = operand(&config, &mut region, &mut offset, a)?;
                        let start = offset;
                        (vec![chip.rotate_right_63(a.full_number, &mut region, &mut offset)?], start)
                    },
                    Operation::Not(a) => {
                        let a = operand(&config, &mut region, &mut offset, a)?;
                        let start = offset;
                        (vec![chip.not(&a.full_number, &mut region, &mut offset)?], start)
                    },
                    Operation::Mix(state, indexes, x, y)
                    | Operation::MixThroughTrait(state, indexes, x, y) => {
                        let mut rows = Vec::new();
                        for word in state {
                            rows.push(operand(&config, &mut region, &mut offset, word)?.full_number);
                        }
                        let mut state: [AssignedBlake2bWord; 16] = rows.try_into().ok().unwrap();
                        let x = operand(&config, &mut region, &mut offset, x)?.full_number;
                        let y = operand(&config, &mut region, &mut offset, y)?.full_number;
                        let start = offset;
                        if matches!(self.operation, Operation::Mix(..)) {
                            chip.mix(indexes, x, y, &mut state, &mut region, &mut offset)?;
                        } else {
                            Blake2bInstructions::mix(
                                &chip,
                                indexes,
                                x,
                                y,
                                &mut state,
                                &mut region,
                                &mut offset,
                            )?;
                        }
                        (state.to_vec(), start)
                    },
                };
                for (result, claimed) in results.iter().zip(self.claimed.iter()) {
                    region.inner.constrain_constant(result.cell(), Fq::from(*claimed))?;
                }
                Ok(Outcome {
                    words: results.iter().map(|word| word.value().map(|w| w.0)).collect(),
                    rows: offset - start,
                })
            },
        )?;
        *self.outcome.borrow_mut() = Some(outcome);
        Ok(())
    }
}

/// Runs an operation with its results bound to `claimed`, and hands back what it computed and
/// whether the prover accepted.
fn run(operation: Operation, claimed: Vec<u64>) -> (Outcome, bool) {
    let circuit = OperationCircuit { operation, claimed, outcome: RefCell::new(None) };
    let prover = MockProver::run(17, &circuit, vec![vec![]]).unwrap();
    let outcome = circuit.outcome.borrow().clone().unwrap();
    (outcome, prover.verify().is_ok())
}

/// Checks that an operation computes `expected` in `rows` rows, that the prover accepts it, and
/// that the prover rejects it when the result is bound to another word.
fn check(operation: Operation, expected: u64, rows: usize) {
    let (outcome, accepted) = run(operation, vec![expected]);
    assert_eq!(outcome, Outcome { words: vec![Some(expected)], rows });
    assert!(accepted);
    let (_, accepted) = run(operation, vec![expected ^ 1]);
    assert!(!accepted);
}

#[test]
fn test_add_is_the_sum_modulo_two_to_the_64() {
    check(Operation::Add(1, 2), 3, 3);
    check(Operation::Add(u64::MAX, 1), 0, 3);
    check(Operation::Add(u64::MAX, u64::MAX), u64::MAX - 1, 3);
    check(Operation::Add(1 << 63, 1 << 63), 0, 3);
    check(Operation::Add(0, 0), 0, 3);
    let mut rng = rand::thread_rng();
    let (a, b): (u64, u64) = (rng.gen(), rng.gen());
    check(Operation::Add(a, b), a.wrapping_add(b), 3);
}

#[test]
fn test_add_copying_one_parameter_reads_the_row_before() {
    check(Operation::AddCopying(40, 2), 42, 2);
    check(Operation::AddCopying(u64::MAX, 43), 42, 2);
    let mut rng = rand::thread_rng();
    let (a, b): (u64, u64) = (rng.gen(), rng.gen());
    check(Operation::AddCopying(a, b), a.wrapping_add(b), 2);
}

#[test]
fn test_xor_is_bitwise() {
    check(Operation::Xor(1 << 33, (1 << 33) + (1 << 34)), 1 << 34, 3);
    check(Operation::Xor(u64::MAX, u64::MAX - 1), 1, 3);
    check(Operation::Xor(0x0123_4567_89ab_cdef, 0), 0x0123_4567_89ab_cdef, 3);
    let mut rng = rand::thread_rng();
    let (a, b): (u64, u64) = (rng.gen(), rng.gen());
    check(Operation::Xor(a, b), a ^ b, 3);
}

#[test]
fn test_xor_copying_one_parameter_reads_the_row_before() {
    check(Operation::XorCopying(0xff00, 0x0ff0), 0xf0f0, 2);
    let mut rng = rand::thread_rng();
    let (a, b): (u64, u64) = (rng.gen(), rng.gen());
    check(Operation::XorCopying(a, b), a ^ b, 2);
}

#[test]
fn test_rotations_match_the_rotation_of_a_word() {
    let word = 0x0123_4567_89ab_cdefu64;
    check(Operation::Rotate16(word), 0xcdef_0123_4567_89ab, 1);
    check(Operation::Rotate24(word), 0xabcd_ef01_2345_6789, 1);
    check(Operation::Rotate32(word), 0x89ab_cdef_0123_4567, 1);
    check(Operation::Rotate63(word), 0x0246_8acf_1357_9bde, 1);
    check(Operation::Rotate63(1 << 63), 1, 1);
}

#[test]
fn test_rotations_of_random_words() {
    let mut rng = rand::thread_rng();
    let word: u64 = rng.gen();
    check(Operation::Rotate16(word), word.rotate_right(16), 1);
    check(Operation::Rotate24(word), word.rotate_right(24), 1);
    check(Operation::Rotate32(word), word.rotate_right(32), 1);
    check(Operation::Rotate63(word), word.rotate_right(63), 1);
    check(Operation::Rotate63(word | (1 << 63)), (word | (1 << 63)).rotate_right(63), 1);
    check(Operation::Rotate63(word >> 1), (word >> 1).rotate_right(63), 1);
}

#[test]
fn test_not_is_the_distance_from_the_largest_word() {
    check(Operation::Not(0), u64::MAX, 2);
    check(Operation::Not(u64::MAX), 0, 2);
    check(Operation::Not((1 << 40) - 1), u64::MAX - ((1 << 40) - 1), 2);
    let mut rng = rand::thread_rng();
    let word: u64 = rng.gen();
    check(Operation::Not(word), u64::MAX - word, 2);
}

/// The mixing function of BLAKE2b on plain words.
fn reference_mix(v: &mut [u64; 16], indexes: [usize; 4], x: u64, y: u64) {
    let [a, b, c, d] = indexes;
    v[a] = v[a].wrapping_add(v[b]).wrapping_add(x);
    v[d] = (v[d] ^ v[a]).rotate_right(32);
    v[c] = v[c].wrapping_add(v[d]);
    v[b] = (v[b] ^ v[c]).rotate_right(24);
    v[a] = v[a].wrapping_add(v[b]).wrapping_add(y);
    v[d] = (v[d] ^ v[a]).rotate_right(16);
    v[c] = v[c].wrapping_add(v[d]);
    v[b] = (v[b] ^ v[c]).rotate_right(63);
}

#[test]
fn test_mix_is_the_mixing_function_of_blake2b() {
    let mut rng = rand::thread_rng();
    let state: [u64; 16] = std::array::from_fn(|_| rng.gen());
    let (x, y): (u64, u64) = (rng.gen(), rng.gen());
    for indexes in [[0, 4, 8, 12], [3, 4, 9, 14]] {
        let mut expected = state;
        reference_mix(&mut expected, indexes, x, y);
        let (outcome, accepted) = run(Operation::Mix(state, indexes, x, y), expected.to_vec());
        assert_eq!(outcome.words, expected.iter().map(|w| Some(*w)).collect::<Vec<_>>());
        assert_eq!(outcome.rows, MIX_ROWS);
        assert_eq!(outcome.rows, 25);
        assert!(accepted);
        let mut wrong = expected.to_vec();
        wrong[indexes[1]] ^= 1 << 17;
        let (_, accepted) = run(Operation::Mix(state, indexes, x, y), wrong);
        assert!(!accepted);
    }
}

#[test]
fn test_mix_through_the_instruction_set() {
    let state: [u64; 16] = std::array::from_fn(|i| 0x0101_0101_0101_0101 * i as u64);
    let indexes = [1, 6, 11, 12];
    let mut expected = state;
    reference_mix(&mut expected, indexes, 7, u64::MAX);
    let (outcome, accepted) =
        run(Operation::MixThroughTrait(state, indexes, 7, u64::MAX), expected.to_vec());
    assert_eq!(outcome.words, expected.iter().map(|w| Some(*w)).collect::<Vec<_>>());
    assert_eq!(outcome.rows, 25);
    assert!(accepted);
}
