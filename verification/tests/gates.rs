use blake2b_halo2::backend::{AdviceColumn, ConstraintSystemHandle, RegionHandle};
use blake2b_halo2::base_operations::addition_mod_64::AdditionMod64Config;
use blake2b_halo2::base_operations::generic_limb_rotation::LimbRotation;
use blake2b_halo2::base_operations::negate::NegateConfig;
use blake2b_halo2::base_operations::rotate_63::Rotate63Config;
use blake2b_halo2::base_operations::xor::XorConfig;
use blake2b_halo2::base_operations::{
    create_limb_decomposition_gate, create_range_check_gate, generate_row_from_word_and_keep_row,
    populate_lookup_table,
};
use blake2b_halo2::types::blake2b_word::Blake2bWord;
use blake2b_halo2::types::row::AssignedRow;
use ff::{Field, PrimeField};
use midnight_curves::bls12_381::Fq;
use midnight_proofs::circuit::{AssignedCell, Layouter, Region, SimpleFloorPlanner, Value};
use midnight_proofs::dev::MockProver;
use midnight_proofs::plonk::{
    Advice, Circuit, Column, ConstraintSystem, Error, Fixed, Selector, TableColumn,
};
use rand::Rng;

fn one() -> Value<Fq> {
    Value::known(Fq::ONE)
}

fn zero() -> Value<Fq> {
    Value::known(Fq::ZERO)
}

fn blake2b_value_for(number: u64) -> Option<Blake2bWord> {
    Some(Blake2bWord(number))
}

fn value_for<T: Into<u128>>(number: T) -> Value<Fq> {
    Value::known(Fq::from_u128(number.into()))
}

fn generate_row_8bits<T: Into<u128>>(number: T) -> [Value<Fq>; 9] {
    let mut number: u128 = number.into();
    let mut ans = [Value::unknown(); 9];
    ans[0] = value_for(number);
    for ans_item in ans.iter_mut().take(9).skip(1) {
        *ans_item = value_for(number % 256);
        number /= 256;
    }
    ans
}

fn advice_columns(meta: &mut ConstraintSystem<Fq>, with_equality: bool) -> [AdviceColumn; 9] {
    std::array::from_fn(|_| {
        let column = meta.advice_column();
        if with_equality {
            meta.enable_equality(column);
        }
        AdviceColumn { inner: column }
    })
}

fn limb_columns(columns: &[AdviceColumn; 9]) -> [AdviceColumn; 8] {
    std::array::from_fn(|i| columns[i + 1])
}

/// Decomposes 64-bit numbers into 8-bit limbs in the trace, each limb range-checked.
#[derive(Clone)]
struct Decompose8Config {
    columns: [AdviceColumn; 9],
    q_decompose: Selector,
    q_range: Selector,
    t_range: TableColumn,
}

impl Decompose8Config {
    fn configure(meta: &mut ConstraintSystem<Fq>, columns: [AdviceColumn; 9]) -> Self {
        let q_range = meta.complex_selector();
        let t_range = meta.lookup_table_column();
        let q_decompose = meta.complex_selector();
        create_limb_decomposition_gate(
            &mut ConstraintSystemHandle { inner: &mut *meta },
            q_decompose,
            &columns,
        );
        create_range_check_gate(
            &mut ConstraintSystemHandle { inner: &mut *meta },
            t_range,
            q_range,
            &columns,
        );
        Self { columns, q_decompose, q_range, t_range }
    }

    fn populate_lookup_table(&self, layouter: &mut impl Layouter<Fq>) -> Result<(), Error> {
        populate_lookup_table(layouter, self.t_range)
    }

    fn populate_row_from_values(
        &self,
        region: &mut Region<'_, Fq>,
        row: &[Value<Fq>],
        offset: usize,
        check_decomposition: bool,
    ) -> Result<Vec<AssignedCell<Fq, Fq>>, Error> {
        if check_decomposition {
            self.q_decompose.enable(region, offset)?;
            self.q_range.enable(region, offset)?;
        }
        (0..9)
            .map(|i| region.assign_advice(|| "cell", self.columns[i].inner, offset, || row[i]))
            .collect()
    }

    fn generate_row_from_word_and_keep_row(
        &self,
        region: &mut RegionHandle<'_>,
        value: Option<Blake2bWord>,
        offset: usize,
    ) -> Result<AssignedRow, Error> {
        self.q_range.enable(&mut region.inner, offset)?;
        generate_row_from_word_and_keep_row(
            region,
            value,
            offset,
            &self.columns[0],
            &limb_columns(&self.columns),
        )
    }
}

// ------------ ADDITION ------------ //

struct AdditionMod64Circuit8Bits {
    trace: [[Value<Fq>; 9]; 3],
}

#[derive(Clone)]
struct AdditionMod64Config8Bits {
    sum_8bits_config: AdditionMod64Config,
    decompose_8_config: Decompose8Config,
}

impl Circuit<Fq> for AdditionMod64Circuit8Bits {
    type Config = AdditionMod64Config8Bits;
    type FloorPlanner = SimpleFloorPlanner;

    fn without_witnesses(&self) -> Self {
        Self { trace: [[Value::unknown(); 9]; 3] }
    }

    fn configure(meta: &mut ConstraintSystem<Fq>) -> Self::Config {
        let columns = advice_columns(meta, false);
        let decompose_8_config = Decompose8Config::configure(meta, columns);
        let sum_8bits_config = AdditionMod64Config::configure(
            &mut ConstraintSystemHandle { inner: meta },
            &columns,
            decompose_8_config.q_decompose,
            decompose_8_config.q_range,
        );
        Self::Config { decompose_8_config, sum_8bits_config }
    }

    fn synthesize(&self, config: Self::Config, mut layouter: impl Layouter<Fq>) -> Result<(), Error> {
        config.decompose_8_config.populate_lookup_table(&mut layouter)?;
        layouter.assign_region(
            || "decompose",
            |mut region| {
                config.sum_8bits_config.q_add.enable(&mut region, 0)?;
                let decompose = &config.decompose_8_config;
                decompose.populate_row_from_values(&mut region, &self.trace[0], 0, true)?;
                decompose.populate_row_from_values(&mut region, &self.trace[1], 1, false)?;
                decompose.populate_row_from_values(&mut region, &self.trace[2], 2, true)?;
                Ok(())
            },
        )
    }
}

fn run_addition(trace: [[Value<Fq>; 9]; 3]) {
    let circuit = AdditionMod64Circuit8Bits { trace };
    let prover = MockProver::run(17, &circuit, vec![]).unwrap();
    prover.verify().unwrap();
}

fn addition_trace(x: u128, y: u128, sum: u128, carry: u8) -> [[Value<Fq>; 9]; 3] {
    let mut second = [zero(); 9];
    second[0] = value_for(y);
    second[1] = value_for(carry);
    [generate_row_8bits(x), second, generate_row_8bits(sum)]
}

#[test]
fn test_positive_addition_with_0() {
    // This value is assigned in cells that the circuit does not constrain.
    let unconstrained_value = zero();
    let trace = [
        [zero(), zero(), zero(), zero(), zero(), zero(), zero(), zero(), zero()],
        [
            value_for(42u64),
            zero(),
            unconstrained_value,
            unconstrained_value,
            unconstrained_value,
            unconstrained_value,
            unconstrained_value,
            unconstrained_value,
            unconstrained_value,
        ],
        [value_for(42u64), value_for(42u64), zero(), zero(), zero(), zero(), zero(), zero(), zero()],
    ];
    run_addition(trace);

    let trace = [
        [value_for(42u64), value_for(42u64), zero(), zero(), zero(), zero(), zero(), zero(), zero()],
        [
            zero(),
            zero(),
            unconstrained_value,
            unconstrained_value,
            unconstrained_value,
            unconstrained_value,
            unconstrained_value,
            unconstrained_value,
            unconstrained_value,
        ],
        [value_for(42u64), value_for(42u64), zero(), zero(), zero(), zero(), zero(), zero(), zero()],
    ];
    run_addition(trace);

    let trace = [generate_row_8bits::<u64>(0); 3];
    run_addition(trace);
}

#[test]
fn test_positive_addition_with_carry() {
    let x = u64::MAX as u128;
    run_addition(addition_trace(x, 2, 1, 1));
    run_addition(addition_trace(x, x, x - 1, 1));
    run_addition(addition_trace(1 << 63, 1 << 63, 0, 1));
}

#[test]
fn test_positive_random_addition() {
    let mut rng = rand::thread_rng();
    let x: u64 = rng.gen();
    let y: u64 = rng.gen();
    let (sum, carry) = x.overflowing_add(y);
    run_addition(addition_trace(x as u128, y as u128, sum as u128, carry as u8));
}

#[test]
#[should_panic]
fn test_negative_addition() {
    let trace =
        [generate_row_8bits::<u64>(1), generate_row_8bits::<u64>(1), generate_row_8bits::<u64>(3)];
    run_addition(trace);
}

#[test]
#[should_panic]
fn test_negative_random_addition() {
    let mut rng = rand::thread_rng();
    let trace = [
        generate_row_8bits::<u64>(rng.gen()),
        generate_row_8bits::<u64>(rng.gen()),
        generate_row_8bits::<u64>(rng.gen()),
    ];
    run_addition(trace);
}

#[test]
#[should_panic]
fn test_negative_sum_correct_but_no_carry_tracked() {
    // The sum is correct, but the carry cell is not set. It should be 1.
    let mut rng = rand::thread_rng();
    let x: u128 = rng.gen();
    let max_u64 = u64::MAX as u128;
    let trace = [
        generate_row_8bits::<u128>(x),
        generate_row_8bits::<u128>(max_u64),
        generate_row_8bits::<u128>(x + max_u64),
    ];
    run_addition(trace);
}

#[test]
#[should_panic]
fn test_negative_sum_correct_but_unnecessary_carry() {
    // The sum is correct, but the carry cell is wrong. It should be 0.
    let mut trace =
        [generate_row_8bits::<u64>(1), generate_row_8bits::<u128>(2), generate_row_8bits::<u64>(3)];
    trace[1][1] = value_for(1u8);
    run_addition(trace);
}

#[test]
#[should_panic]
fn test_negative_sum_correct_but_decomposition_exceedes_range_check() {
    // The sum is correct, but a limb of the first operand is no byte.
    let mut trace = [
        generate_row_8bits::<u64>(1 << 8),
        generate_row_8bits::<u128>((1 << 8) - 1),
        generate_row_8bits::<u64>((1 << 9) - 1),
    ];
    trace[0][1] = value_for(1u16 << 8);
    trace[0][2] = value_for(0u8);
    run_addition(trace);
}

// ------------ LIMB ROTATION ------------ //

#[derive(Clone)]
struct LimbRotationCircuit<const T: usize> {
    trace: [[Value<Fq>; 9]; 2],
}

#[derive(Clone)]
struct LimbRotationCircuitConfig {
    decompose_8_config: Decompose8Config,
    limb_rotation_config: LimbRotation,
}

impl<const T: usize> Circuit<Fq> for LimbRotationCircuit<T> {
    type Config = LimbRotationCircuitConfig;
    type FloorPlanner = SimpleFloorPlanner;

    fn without_witnesses(&self) -> Self {
        Self { trace: [[Value::unknown(); 9]; 2] }
    }

    fn configure(meta: &mut ConstraintSystem<Fq>) -> Self::Config {
        let columns = advice_columns(meta, true);
        let decompose_8_config = Decompose8Config::configure(meta, columns);
        Self::Config {
            decompose_8_config: decompose_8_config.clone(),
            limb_rotation_config: LimbRotation::configure(decompose_8_config.q_decompose),
        }
    }

    fn synthesize(&self, config: Self::Config, mut layouter: impl Layouter<Fq>) -> Result<(), Error> {
        let limbs_to_rotate_to_the_right = match T {
            32 => 4,
            24 => 3,
            16 => 2,
            _ => panic!("Unexpected Rotation"),
        };
        config.decompose_8_config.populate_lookup_table(&mut layouter)?;
        layouter.assign_region(
            || format!("rotate {}", limbs_to_rotate_to_the_right),
            |mut region| {
                let decompose = &config.decompose_8_config;
                let first_row =
                    decompose.populate_row_from_values(&mut region, &self.trace[0], 0, true)?;
                let second_row =
                    decompose.populate_row_from_values(&mut region, &self.trace[1], 1, true)?;
                for i in 0..8 {
                    let top_cell = first_row[i + 1].cell();
                    let bottom_cell =
                        second_row[((8 + i - limbs_to_rotate_to_the_right) % 8) + 1].cell();
                    region.constrain_equal(top_cell, bottom_cell)?;
                }
                Ok(())
            },
        )
    }
}

fn run_limb_rotation<const T: usize>(trace: [[Value<Fq>; 9]; 2]) {
    let circuit = LimbRotationCircuit::<T> { trace };
    let prover = MockProver::run(17, &circuit, vec![]).unwrap();
    prover.verify().unwrap();
}

#[test]
fn test_positive_rotate_right_32() {
    let first_row = generate_row_8bits((1u64 << 32) - 1u64);
    let second_row = generate_row_8bits((1u128 << 64) - (1u128 << 32));
    run_limb_rotation::<32>([first_row, second_row]);
}

#[test]
fn test_positive_random_rotate_right_32() {
    let mut rng = rand::thread_rng();
    let n: u64 = rng.gen();
    let pow32 = 1u64 << 32;
    let expected_result = ((n % pow32) << 32) + (n / pow32);
    assert_eq!(expected_result, n.rotate_right(32));
    run_limb_rotation::<32>([generate_row_8bits(n), generate_row_8bits(expected_result)]);
}

#[test]
#[should_panic]
fn test_negative_rotate_right_32() {
    let first_row = generate_row_8bits((1u64 << 32) - 1u64);
    let second_row = generate_row_8bits((1u128 << 64) - 1);
    run_limb_rotation::<32>([first_row, second_row]);
}

#[test]
#[should_panic]
fn test_negative_correct_rotation32_wrong_decomposition() {
    let mut first_row = generate_row_8bits(1u64 << 32);
    let second_row = generate_row_8bits(1u64);
    first_row[4] = value_for(0u8);
    first_row[3] = value_for(1u16 << 8);
    run_limb_rotation::<32>([first_row, second_row]);
}

#[test]
fn test_positive_rotate_right_24_limbs() {
    let first_row = generate_row_8bits(1u128 << 24);
    let second_row = generate_row_8bits(1u128);
    run_limb_rotation::<24>([first_row, second_row]);
}

#[test]
fn test_positive_random_rotate_right_24() {
    let mut rng = rand::thread_rng();
    let n: u64 = rng.gen();
    let pow24 = 1u64 << 24;
    let expected_result = ((n % pow24) << 40) + (n / pow24);
    assert_eq!(expected_result, n.rotate_right(24));
    run_limb_rotation::<24>([generate_row_8bits(n), generate_row_8bits(expected_result)]);
}

#[test]
#[should_panic]
fn test_negative_rotate_right_24_limbs() {
    let first_row = generate_row_8bits(1u128 << 24);
    let second_row = generate_row_8bits(2u8);
    run_limb_rotation::<24>([first_row, second_row]);
}

#[test]
#[should_panic]
fn test_negative_correct_rotation24_wrong_decomposition() {
    let mut first_row = generate_row_8bits(1u64 << 32);
    let second_row = generate_row_8bits(1u64 << 8);
    first_row[4] = value_for(0u8);
    first_row[3] = value_for(1u16 << 8);
    run_limb_rotation::<24>([first_row, second_row]);
}

#[test]
fn test_positive_rotate_right_16_limbs() {
    let first_row = generate_row_8bits(1u128 << 16);
    let second_row = generate_row_8bits(1u128);
    run_limb_rotation::<16>([first_row, second_row]);
}

#[test]
fn test_positive_random_rotate_right_16() {
    let mut rng = rand::thread_rng();
    let n: u64 = rng.gen();
    let pow16 = 1u64 << 16;
    let expected_result = ((n % pow16) << 48) + (n / pow16);
    assert_eq!(expected_result, n.rotate_right(16));
    run_limb_rotation::<16>([generate_row_8bits(n), generate_row_8bits(expected_result)]);
}

#[test]
#[should_panic]
fn test_negative_rotate_right_16_limbs() {
    let first_row = generate_row_8bits(1u128 << 16);
    let second_row = generate_row_8bits(2u8);
    run_limb_rotation::<16>([first_row, second_row]);
}

#[test]
#[should_panic]
fn test_negative_correct_rotation16_wrong_decomposition() {
    let mut first_row = generate_row_8bits(1u64 << 32);
    let second_row = generate_row_8bits(1u64 << 16);
    first_row[4] = value_for(0u8);
    first_row[3] = value_for(1u16 << 8);
    run_limb_rotation::<16>([first_row, second_row]);
}

// ------------ ROTATION 63 ------------ //

struct Rotation63Circuit8bitLimbs {
    trace: [[Value<Fq>; 9]; 2],
}

#[derive(Clone)]
struct Rotation63Config8bitLimbs {
    rotation_63_config: Rotate63Config,
    decompose_8_config: Decompose8Config,
}

impl Circuit<Fq> for Rotation63Circuit8bitLimbs {
    type Config = Rotation63Config8bitLimbs;
    type FloorPlanner = SimpleFloorPlanner;

    fn without_witnesses(&self) -> Self {
        Self { trace: [[Value::unknown(); 9]; 2] }
    }

    fn configure(meta: &mut ConstraintSystem<Fq>) -> Self::Config {
        let columns = advice_columns(meta, false);
        let decompose_8_config = Decompose8Config::configure(meta, columns);
        let rotation_63_config = Rotate63Config::configure(
            &mut ConstraintSystemHandle { inner: meta },
            &columns,
            decompose_8_config.q_decompose,
            decompose_8_config.q_range,
        );
        Self::Config { decompose_8_config, rotation_63_config }
    }

    fn synthesize(&self, config: Self::Config, mut layouter: impl Layouter<Fq>) -> Result<(), Error> {
        config.decompose_8_config.populate_lookup_table(&mut layouter)?;
        layouter.assign_region(
            || "rotate 63",
            |mut region| {
                config.rotation_63_config.q_rot63.enable(&mut region, 0)?;
                let decompose = &config.decompose_8_config;
                decompose.populate_row_from_values(&mut region, &self.trace[0], 0, true)?;
                decompose.populate_row_from_values(&mut region, &self.trace[1], 1, true)?;
                Ok(())
            },
        )
    }
}

fn run_rotation_63(trace: [[Value<Fq>; 9]; 2]) {
    let circuit = Rotation63Circuit8bitLimbs { trace };
    let prover = MockProver::run(17, &circuit, vec![]).unwrap();
    prover.verify().unwrap();
}

fn valid_rotation_63_trace_8bit() -> [[Value<Fq>; 9]; 2] {
    [
        [one(), one(), zero(), zero(), zero(), zero(), zero(), zero(), zero()],
        [one() + one(), one() + one(), zero(), zero(), zero(), zero(), zero(), zero(), zero()],
    ]
}

#[test]
fn test_positive_rotate_right_63() {
    run_rotation_63(valid_rotation_63_trace_8bit());
}

#[test]
fn test_positive_random_rotate_right_63() {
    let mut rng = rand::thread_rng();
    let n: u64 = rng.gen();
    run_rotation_63([generate_row_8bits(n), generate_row_8bits(n.rotate_right(63))]);
    let top = n | (1 << 63);
    run_rotation_63([generate_row_8bits(top), generate_row_8bits(top.rotate_right(63))]);
    let low = n >> 1;
    run_rotation_63([generate_row_8bits(low), generate_row_8bits(low.rotate_right(63))]);
}

#[test]
#[should_panic]
fn test_negative_rotate_right_63() {
    let mut invalid_rotation_trace = valid_rotation_63_trace_8bit();
    invalid_rotation_trace[0][1] = one() + invalid_rotation_trace[0][1];
    invalid_rotation_trace[0][0] = one() + invalid_rotation_trace[0][0];
    run_rotation_63(invalid_rotation_trace);
}

#[test]
#[should_panic]
fn test_badly_decomposed_rotate_right_63() {
    let mut invalid_rotation_trace = valid_rotation_63_trace_8bit();
    invalid_rotation_trace[1][2] = one();
    run_rotation_63(invalid_rotation_trace);
}

// ------------ XOR ------------ //

#[derive(Clone)]
struct XorCircuitConfig {
    xor_config: XorConfig,
    decompose_8_config: Decompose8Config,
}

struct XorCircuit {
    trace: [[Value<Fq>; 9]; 3],
}

impl Circuit<Fq> for XorCircuit {
    type Config = XorCircuitConfig;
    type FloorPlanner = SimpleFloorPlanner;

    fn without_witnesses(&self) -> Self {
        Self { trace: [[Value::unknown(); 9]; 3] }
    }

    fn configure(meta: &mut ConstraintSystem<Fq>) -> Self::Config {
        let columns = advice_columns(meta, false);
        let decompose_8_config = Decompose8Config::configure(meta, columns);
        let xor_config = XorConfig::configure(
            &mut ConstraintSystemHandle { inner: meta },
            &columns,
            decompose_8_config.q_decompose,
        );
        Self::Config { xor_config, decompose_8_config }
    }

    fn synthesize(&self, config: Self::Config, mut layouter: impl Layouter<Fq>) -> Result<(), Error> {
        config.decompose_8_config.populate_lookup_table(&mut layouter)?;
        config.xor_config.populate_xor_lookup_table(&mut layouter)?;
        layouter.assign_region(
            || "xor",
            |mut region| {
                config.xor_config.q_xor.enable(&mut region, 0)?;
                let decompose = &config.decompose_8_config;
                decompose.populate_row_from_values(&mut region, &self.trace[0], 0, true)?;
                decompose.populate_row_from_values(&mut region, &self.trace[1], 1, true)?;
                decompose.populate_row_from_values(&mut region, &self.trace[2], 2, true)?;
                Ok(())
            },
        )
    }
}

fn run_xor(trace: [[Value<Fq>; 9]; 3]) {
    let circuit = XorCircuit { trace };
    let prover = MockProver::run(17, &circuit, vec![]).unwrap();
    prover.verify().unwrap();
}

fn row_decomposed_in_8_limbs_from_u64(x: u64) -> [Value<Fq>; 9] {
    let mut x_aux = x;
    let mut limbs: [u64; 8] = [0; 8];
    for limb in limbs.iter_mut() {
        *limb = x_aux % 256;
        x_aux /= 256;
    }
    [
        value_for(x),
        value_for(limbs[0]),
        value_for(limbs[1]),
        value_for(limbs[2]),
        value_for(limbs[3]),
        value_for(limbs[4]),
        value_for(limbs[5]),
        value_for(limbs[6]),
        value_for(limbs[7]),
    ]
}

#[test]
fn test_positive_random_duplicate_xor() {
    let mut rng = rand::thread_rng();
    let n: u64 = rng.gen();
    run_xor([
        row_decomposed_in_8_limbs_from_u64(n),
        row_decomposed_in_8_limbs_from_u64(n),
        row_decomposed_in_8_limbs_from_u64(0),
    ]);
}

#[test]
fn test_positive_random_xor_with_0() {
    let mut rng = rand::thread_rng();
    let n: u64 = rng.gen();
    run_xor([
        row_decomposed_in_8_limbs_from_u64(n),
        row_decomposed_in_8_limbs_from_u64(0),
        row_decomposed_in_8_limbs_from_u64(n),
    ]);
}

#[test]
fn test_positive_random_xor() {
    let mut rng = rand::thread_rng();
    let n1: u64 = rng.gen();
    let n2: u64 = rng.gen();
    run_xor([
        row_decomposed_in_8_limbs_from_u64(n1),
        row_decomposed_in_8_limbs_from_u64(n2),
        row_decomposed_in_8_limbs_from_u64(n1 ^ n2),
    ]);
}

#[test]
fn test_positive_xor_differs_from_sum() {
    let a = 1u64 << 33;
    let b = (1u64 << 33) + (1u64 << 34);
    assert_ne!(a ^ b, a + b);
    run_xor([
        row_decomposed_in_8_limbs_from_u64(a),
        row_decomposed_in_8_limbs_from_u64(b),
        row_decomposed_in_8_limbs_from_u64(1u64 << 34),
    ]);
}

#[test]
fn test_xor_of_two_words_is_not_their_sum() {
    let a = 1u64 << 33;
    let b = (1u64 << 33) + (1u64 << 34);
    let circuit = XorCircuit {
        trace: [
            row_decomposed_in_8_limbs_from_u64(a),
            row_decomposed_in_8_limbs_from_u64(b),
            row_decomposed_in_8_limbs_from_u64(a + b),
        ],
    };
    let prover = MockProver::run(17, &circuit, vec![]).unwrap();
    assert!(prover.verify().is_err());
}

#[test]
#[should_panic]
fn test_xor_badly_done() {
    run_xor([
        row_decomposed_in_8_limbs_from_u64(((1u128 << 64) - 1) as u64),
        row_decomposed_in_8_limbs_from_u64(((1u128 << 64) - 2) as u64),
        row_decomposed_in_8_limbs_from_u64(0),
    ]);
}

#[test]
#[should_panic]
fn test_incorrect_xor_in_fifth_limb() {
    run_xor([
        row_decomposed_in_8_limbs_from_u64(1u64 << 33),
        row_decomposed_in_8_limbs_from_u64((1u64 << 33) + (1u64 << 34)),
        row_decomposed_in_8_limbs_from_u64(0),
    ]);
}

#[test]
#[should_panic]
fn test_bad_decomposition_in_8_bit_limbs() {
    let mut badly_decomposed_row = [value_for(0u16); 9];
    badly_decomposed_row[4] = value_for(1u16);
    run_xor([
        row_decomposed_in_8_limbs_from_u64(((1u128 << 64) - 1) as u64),
        row_decomposed_in_8_limbs_from_u64(((1u128 << 64) - 1) as u64),
        badly_decomposed_row,
    ]);
}

#[test]
#[should_panic]
fn test_bad_range_check_limb_u8() {
    let out_of_range_decomposition_row = [
        value_for((1u32 << 16) - 1),
        value_for((1u32 << 16) - 1),
        value_for(0u16),
        value_for(0u16),
        value_for(0u16),
        value_for(0u16),
        value_for(0u16),
        value_for(0u16),
        value_for(0u16),
    ];
    run_xor([
        out_of_range_decomposition_row,
        row_decomposed_in_8_limbs_from_u64(0u64),
        out_of_range_decomposition_row,
    ]);
}

// ------------ NEGATION ------------ //

struct NegateCircuit {
    value: Option<Blake2bWord>,
    expected_result: Option<Blake2bWord>,
}

#[derive(Clone)]
struct NegateCircuitConfig {
    negate_config: NegateConfig,
    decompose_8_config: Decompose8Config,
    fixed_result: Column<Fixed>,
    full_number_u64: Column<Advice>,
}

impl Circuit<Fq> for NegateCircuit {
    type Config = NegateCircuitConfig;
    type FloorPlanner = SimpleFloorPlanner;

    fn without_witnesses(&self) -> Self {
        Self { value: None, expected_result: None }
    }

    fn configure(meta: &mut ConstraintSystem<Fq>) -> Self::Config {
        let columns = advice_columns(meta, false);
        let decompose_8_config = Decompose8Config::configure(meta, columns);
        let negate_config =
            NegateConfig::configure(&mut ConstraintSystemHandle { inner: &mut *meta }, &columns);
        let fixed_result = meta.fixed_column();
        meta.enable_equality(columns[0].inner);
        meta.enable_equality(fixed_result);
        Self::Config {
            negate_config,
            decompose_8_config,
            fixed_result,
            full_number_u64: columns[0].inner,
        }
    }

    fn synthesize(&self, config: Self::Config, mut layouter: impl Layouter<Fq>) -> Result<(), Error> {
        config.decompose_8_config.populate_lookup_table(&mut layouter)?;
        layouter.assign_region(
            || "negate",
            |region| {
                let mut region = RegionHandle { inner: region };
                let mut offset = 0;
                let cell = config
                    .decompose_8_config
                    .generate_row_from_word_and_keep_row(&mut region, self.value, offset)?
                    .full_number;
                offset += 1;
                let result = config.negate_config.generate_rows_from_cell(
                    &mut region,
                    &mut offset,
                    &cell,
                    &AdviceColumn { inner: config.full_number_u64 },
                )?;
                assert_eq!(offset, 3);
                let expected = match self.expected_result {
                    Some(word) => Value::known(Fq::from(word.0)),
                    None => Value::unknown(),
                };
                let fixed_cell =
                    region.inner.assign_fixed(|| "assign fixed", config.fixed_result, 0, || expected)?;
                region.inner.constrain_equal(result.cell(), fixed_cell.cell())?;
                Ok(())
            },
        )
    }
}

fn run_negation(value: Option<Blake2bWord>, expected_result: Option<Blake2bWord>) {
    let circuit = NegateCircuit { value, expected_result };
    let prover = MockProver::run(17, &circuit, vec![]).unwrap();
    prover.verify().unwrap();
}

#[test]
fn test_negate_zero_should_result_in_max_number() {
    let x = blake2b_value_for(0);
    let not_x = blake2b_value_for(((1u128 << 64) - 1) as u64);
    run_negation(x, not_x);
}

#[test]
fn test_negate_number_should_result_in_max_number_minus_that_number() {
    let number = ((1u128 << 40) - 1) as u64;
    let max_number = ((1u128 << 64) - 1) as u64;
    let not_x = blake2b_value_for(max_number - number);
    run_negation(blake2b_value_for(number), not_x);
}

#[test]
fn test_negate_random_number_is_bitwise_complement() {
    let mut rng = rand::thread_rng();
    let number: u64 = rng.gen();
    run_negation(blake2b_value_for(number), blake2b_value_for(!number));
}

#[test]
#[should_panic]
fn test_negate_number_fails_when_given_a_wrong_result() {
    let number = (1u64 << 40) - 1;
    let max_number = ((1u128 << 64) - 1) as u64;
    let not_x = blake2b_value_for(max_number - number - 1);
    run_negation(blake2b_value_for(number), not_x);
}
