use blake2b_halo2::backend::ConstraintSystemHandle;
use blake2b_halo2::blake2b::blake2b_chip::{Blake2bChip, Blake2bConfig};
use blake2b_halo2::error::Blake2bError;
use blake2b_halo2::usage_utils::blake2b_circuit::Blake2bCircuit;
use blake2b_halo2::usage_utils::circuit_runner::{CircuitRunner, RunnerError};
use ff::Field;
use midnight_curves::bls12_381::Fq;
use midnight_proofs::circuit::{Layouter, SimpleFloorPlanner, Value};
use midnight_proofs::dev::MockProver;
use midnight_proofs::plonk::{Circuit, ConstraintSystem, Error};
use std::cell::RefCell;

/// What a run of the chip left behind: the 64 bytes it handed back, or the name of its error.
type Outcome = Result<Vec<Option<u8>>, &'static str>;

/// A circuit that calls the chip and keeps what it handed back.
struct RecordingCircuit {
    input: Vec<Value<Fq>>,
    key: Vec<Value<Fq>>,
    output_size: usize,
    outcome: RefCell<Option<Outcome>>,
}

impl RecordingCircuit {
    fn new(input: Vec<Value<Fq>>, key: Vec<Value<Fq>>, output_size: usize) -> Self {
        Self { input, key, output_size, outcome: RefCell::new(None) }
    }
}

impl Circuit<Fq> for RecordingCircuit {
    type Config = Blake2bConfig;
    type FloorPlanner = SimpleFloorPlanner;

    fn without_witnesses(&self) -> Self {
        Self::new(
            vec![Value::unknown(); self.input.len()],
            vec![Value::unknown(); self.key.len()],
            self.output_size,
        )
    }

    fn configure(meta: &mut ConstraintSystem<Fq>) -> Self::Config {
        Blake2bCircuit::configure(&mut ConstraintSystemHandle { inner: meta })
    }

    fn synthesize(&self, config: Self::Config, mut layouter: impl Layouter<Fq>) -> Result<(), Error> {
        let assigned_input =
            Blake2bCircuit::assign_inputs_to_the_trace(&config, &mut layouter, &self.input)?;
        let assigned_key =
            Blake2bCircuit::assign_inputs_to_the_trace(&config, &mut layouter, &self.key)?;

        let chip = Blake2bChip::new(&config);
        chip.load(&mut layouter)?;
        let outcome = match chip.hash(&mut layouter, &assigned_input, &assigned_key, self.output_size)
        {
            Ok(result) => Ok(result.iter().map(|byte| byte.value().map(|b| b.0)).collect()),
            Err(Blake2bError::Backend(e)) => return Err(e),
            Err(Blake2bError::OutputSize) => Err("OutputSize"),
            Err(Blake2bError::KeySize) => Err("KeySize"),
            Err(Blake2bError::NotAByte) => Err("NotAByte"),
            Err(Blake2bError::InputTooLong) => Err("InputTooLong"),
        };
        *self.outcome.borrow_mut() = Some(outcome);
        Ok(())
    }
}

fn values(bytes: &[u8]) -> Vec<Value<Fq>> {
    bytes.iter().map(|x| Value::known(Fq::from(*x as u64))).collect()
}

fn fields(bytes: &[u8]) -> Vec<Fq> {
    bytes.iter().map(|x| Fq::from(*x as u64)).collect()
}

/// The example circuit of the library as the backend takes it.
struct ExampleCircuit {
    circuit: Blake2bCircuit,
    /// Where an error of the chip is kept. Without it, such an error aborts the run.
    refusal: Option<RefCell<Option<&'static str>>>,
}

impl ExampleCircuit {
    fn aborting(circuit: Blake2bCircuit) -> Self {
        Self { circuit, refusal: None }
    }

    fn keeping(circuit: Blake2bCircuit) -> Self {
        Self { circuit, refusal: Some(RefCell::new(None)) }
    }

    fn refusal(&self) -> Option<&'static str> {
        self.refusal.as_ref().and_then(|slot| *slot.borrow())
    }
}

impl Circuit<Fq> for ExampleCircuit {
    type Config = Blake2bConfig;
    type FloorPlanner = SimpleFloorPlanner;

    fn without_witnesses(&self) -> Self {
        Self { circuit: self.circuit.without_witnesses(), refusal: self.refusal.clone() }
    }

    fn configure(meta: &mut ConstraintSystem<Fq>) -> Self::Config {
        Blake2bCircuit::configure(&mut ConstraintSystemHandle { inner: meta })
    }

    fn synthesize(&self, config: Self::Config, mut layouter: impl Layouter<Fq>) -> Result<(), Error> {
        match self.circuit.synthesize(config, &mut layouter) {
            Ok(()) => Ok(()),
            Err(Blake2bError::Backend(e)) => Err(e),
            Err(e) => match &self.refusal {
                Some(slot) => {
                    *slot.borrow_mut() = Some(e.message());
                    Ok(())
                },
                None => panic!("{}", e.message()),
            },
        }
    }
}

fn create_circuit_for_inputs(
    input_values: Vec<Value<Fq>>,
    key_values: Vec<Value<Fq>>,
    output_size: usize,
) -> ExampleCircuit {
    let input_size = input_values.len();
    let key_size = key_values.len();
    ExampleCircuit::aborting(CircuitRunner::create_circuit_for_inputs(
        input_values,
        input_size,
        key_values,
        key_size,
        output_size,
    ))
}

fn mock_prove_with_public_inputs_ref(
    expected_output_fields: &[Fq],
    circuit: &ExampleCircuit,
) -> MockProver<Fq> {
    MockProver::run(17, circuit, vec![expected_output_fields.to_vec()]).unwrap()
}

fn verify_mock_prover(prover: MockProver<Fq>) {
    prover.verify().unwrap()
}

/// Builds the circuit of a prepared test vector, proves it and says whether the prover accepted.
fn mock_prove(circuit: Blake2bCircuit, expected: [u8; 64]) -> bool {
    let prover = mock_prove_with_public_inputs_ref(&fields(&expected), &ExampleCircuit::aborting(circuit));
    prover.verify().is_ok()
}

fn run_test(input: &str, key: &str, expected: &str) {
    let outcome = CircuitRunner::mocked_preprocess_inputs_synthesize_prove_and_verify(
        &input.to_string(),
        &key.to_string(),
        &expected.to_string(),
        mock_prove,
    );
    assert_eq!(outcome, Ok(()));
}

fn hex_of(bytes: &[u8]) -> String {
    bytes.iter().map(|b| format!("{:02x}", b)).collect()
}

/// The bytes 0, 1, 2, ... that the standard test vectors of BLAKE2b are made of.
fn counting(len: usize) -> Vec<u8> {
    (0..len).map(|i| i as u8).collect()
}

fn correct_output_for_empty_input_64() -> [Fq; 64] {
    [
        120, 106, 2, 247, 66, 1, 89, 3, 198, 198, 253, 133, 37, 82, 210, 114, 145, 47, 71, 64, 225,
        88, 71, 97, 138, 134, 226, 23, 247, 31, 84, 25, 210, 94, 16, 49, 175, 238, 88, 83, 19, 137,
        100, 68, 147, 78, 176, 75, 144, 58, 104, 91, 20, 72, 183, 85, 213, 111, 112, 26, 254, 155,
        226, 206,
    ]
    .map(|x: u64| Fq::from(x))
}

fn correct_output_for_empty_input_1() -> [Fq; 1] {
    [Fq::from(46)]
}

fn correct_output_for_empty_input_32() -> [Fq; 32] {
    [
        14, 87, 81, 192, 38, 229, 67, 178, 232, 171, 46, 176, 96, 153, 218, 161, 209, 229, 223, 71,
        119, 143, 119, 135, 250, 171, 69, 205, 241, 47, 227, 168,
    ]
    .map(|x: u64| Fq::from(x))
}

fn run_variable_output_length_test<const OUT_SIZE: usize>(
    output_size: usize,
    input: Vec<Value<Fq>>,
    expected_output_state: [Fq; OUT_SIZE],
) {
    let circuit = create_circuit_for_inputs(input, vec![], output_size);
    let prover = mock_prove_with_public_inputs_ref(&expected_output_state, &circuit);
    verify_mock_prover(prover);
}

// ------------ SMOKE TESTS ------------ //

#[test]
fn test_blake2b_single_empty_block_positive() {
    let output_size = 64;
    let input = vec![];
    let expected_output_state = correct_output_for_empty_input_64();

    let circuit = create_circuit_for_inputs(input, vec![], output_size);
    let prover = mock_prove_with_public_inputs_ref(&expected_output_state, &circuit);
    verify_mock_prover(prover);
}

#[test]
#[should_panic]
fn test_blake2b_single_empty_block_negative() {
    let output_size = 64;
    let input = vec![];
    let mut expected_output_state = correct_output_for_empty_input_64();
    expected_output_state[7] = Fq::from(14u64); // Wrong value

    let circuit = create_circuit_for_inputs(input, vec![], output_size);
    let prover = mock_prove_with_public_inputs_ref(&expected_output_state, &circuit);
    verify_mock_prover(prover);
}

#[test]
fn test_blake2b_wrong_digest_is_rejected_by_the_prover() {
    let mut expected_output_state = correct_output_for_empty_input_64();
    expected_output_state[7] = Fq::from(14u64);
    let circuit = create_circuit_for_inputs(vec![], vec![], 64);
    let prover = mock_prove_with_public_inputs_ref(&expected_output_state, &circuit);
    assert!(prover.verify().is_err());
}

// ------------ KEY LENGTH ------------ //

#[test]
#[should_panic(expected = "Key size must be between 1 and 64 bytes")]
fn test_blake2b_circuit_should_receive_an_key_length_less_or_equal_64() {
    let input = vec![];
    let key: Vec<Value<Fq>> = vec![Value::known(Fq::ZERO); 65];

    let expected_output_state = [Fq::ZERO; 65];
    let circuit = create_circuit_for_inputs(input, key, 64);
    let prover = mock_prove_with_public_inputs_ref(&expected_output_state, &circuit);
    verify_mock_prover(prover);
}

#[test]
fn test_blake2b_circuit_takes_a_key_of_64_bytes() {
    let key = counting(64);
    let expected = "10ebb67700b1868efb4417987acf4690ae9d972fb7a590c2f02871799aaa4786b5e996e8f0f4eb981fc214b005f42d2ff4233499391653df7aefcbc13fc51568";
    run_test("", &hex_of(&key), expected);
}

// ------------ OUTPUT LENGTH ------------ //

#[test]
fn test_blake2b_circuit_can_verify_an_output_of_length_1() {
    let output_size = 1;
    let input = vec![];
    let expected_output_state = correct_output_for_empty_input_1();
    run_variable_output_length_test(output_size, input, expected_output_state);
}

#[test]
#[should_panic]
fn test_blake2b_circuit_can_verify_an_output_of_length_1_negative() {
    let output_size = 1;
    let input = vec![];
    let mut expected_output_state = correct_output_for_empty_input_1();
    expected_output_state[0] = Fq::from(14u64); // Wrong value
    run_variable_output_length_test(output_size, input, expected_output_state);
}

#[test]
fn test_blake2b_circuit_can_verify_an_output_of_length_32() {
    let output_size = 32;
    let input = vec![];
    let expected_output_state = correct_output_for_empty_input_32();
    run_variable_output_length_test(output_size, input, expected_output_state);
}

#[test]
#[should_panic]
fn test_blake2b_circuit_can_verify_an_output_of_length_32_negative() {
    let output_size = 32;
    let input = vec![];
    let mut expected_output_state = correct_output_for_empty_input_32();
    expected_output_state[0] = Fq::from(15u64); // Wrong value
    run_variable_output_length_test(output_size, input, expected_output_state);
}

#[test]
#[should_panic(expected = "Output size must be between 1 and 64 bytes")]
fn test_blake2b_circuit_should_receive_an_output_length_less_or_equal_64() {
    let output_size = 65;
    let input = vec![];
    let expected_output_state = [Fq::ZERO; 65];
    run_variable_output_length_test(output_size, input, expected_output_state);
}

#[test]
#[should_panic(expected = "Output size must be between 1 and 64 bytes")]
fn test_blake2b_circuit_should_receive_an_output_length_bigger_or_equal_1() {
    let output_size = 0;
    let input = vec![];
    let expected_output_state = [Fq::ZERO; 65];
    run_variable_output_length_test(output_size, input, expected_output_state);
}

#[test]
fn test_blake2b_digest_of_length_20_with_key_over_two_blocks() {
    let circuit = create_circuit_for_inputs(values(&counting(200)), values(&counting(17)), 20);
    let expected = hex::decode("a2a00a08bc365c98b66aae6abd42719c07157ee5").unwrap();
    let prover = mock_prove_with_public_inputs_ref(&fields(&expected), &circuit);
    verify_mock_prover(prover);
}

// ------------ TEST VECTORS ------------ //

#[test]
fn test_hashes_in_circuit_one_block() {
    run_test("", "", "786a02f742015903c6c6fd852552d272912f4740e15847618a86e217f71f5419d25e1031afee585313896444934eb04b903a685b1448b755d56f701afe9be2ce");
    run_test("000102", "", "40a374727302d9a4769c17b5f409ff32f58aa24ff122d7603e4fda1509e919d4107a52c57570a6d94e50967aea573b11f86f473f537565c66f7039830a85d186");
    run_test("616263", "", "ba80a53f981c4d0d6a2797b69f12f6e94c212f14685ac4b74b12bb6fdbffa2d17d87c5392aab792dc252d5de4533cc9518d38aa8dbf1925ab92386edd4009923");
    run_test(&hex_of(&counting(128)), "", "2319e3789c47e2daa5fe807f61bec2a1a6537fa03f19ff32e87eecbfd64b7e0e8ccff439ac333b040f19b0c4ddd11a61e24ac1fe0f10a039806c5dcc0da3d115");
}

#[test]
fn test_hashes_in_circuit_more_than_one_block() {
    run_test(&hex_of(&counting(129)), "", "f59711d44a031d5f97a9413c065d1e614c417ede998590325f49bad2fd444d3e4418be19aec4e11449ac1a57207898bc57d76a1bcf3566292c20c683a5c4648f");
    run_test(&hex_of(&counting(255)), "", "5b21c5fd8868367612474fa2e70e9cfa2201ffeee8fafab5797ad58fefa17c9b5b107da4a3db6320baaf2c8617d5a51df914ae88da3867c2d41f0cc14fa67928");
}

#[test]
fn test_hashes_in_circuit_with_key() {
    let key = hex_of(&counting(64));
    run_test("", &key, "10ebb67700b1868efb4417987acf4690ae9d972fb7a590c2f02871799aaa4786b5e996e8f0f4eb981fc214b005f42d2ff4233499391653df7aefcbc13fc51568");
    run_test("00", &key, "961f6dd1e4dd30f63901690c512e78e4b45e4742ed197c3c5e45c549fd25f2e4187b0bc9fe30492b16b0d0bc4ef9b0f34c7003fac09a5ef1532e69430234cebd");
    run_test(&hex_of(&counting(128)), &key, "72065ee4dd91c2d8509fa1fc28a37c7fc9fa7d5b3f8ad3d0d7a25626b57b1b44788d4caf806290425f9890a3a2a35a905ab4b37acfd0da6e4517b2525c9651e4");
    run_test(&hex_of(&counting(129)), &key, "64475dfe7600d7171bea0b394e27c9b00d8e74dd1e416a79473682ad3dfdbb706631558055cfc8a40e07bd015a4540dcdea15883cbbf31412df1de1cd4152b91");
    run_test("616263", "6b6579", "5c6a9a4ae911c02fb7e71a991eb9aea371ae993d4842d206e6020d46f5e41358c6d5c277c110ef86c959ed63e6ecaaaceaaff38019a43264ae06acf73b9550b1");
}

#[test]
fn test_runner_reports_a_digest_that_the_prover_rejects() {
    let wrong = "796a02f742015903c6c6fd852552d272912f4740e15847618a86e217f71f5419d25e1031afee585313896444934eb04b903a685b1448b755d56f701afe9be2ce";
    let outcome = CircuitRunner::mocked_preprocess_inputs_synthesize_prove_and_verify(
        &String::new(),
        &String::new(),
        &wrong.to_string(),
        mock_prove,
    );
    assert_eq!(outcome, Err(RunnerError::Rejected));
}

#[test]
fn test_runner_does_not_prove_what_is_no_test_vector() {
    let digest = "786a02f742015903c6c6fd852552d272912f4740e15847618a86e217f71f5419d25e1031afee585313896444934eb04b903a685b1448b755d56f701afe9be2ce";
    let never = |_: Blake2bCircuit, _: [u8; 64]| -> bool { panic!("not a test vector") };
    let outcome = CircuitRunner::mocked_preprocess_inputs_synthesize_prove_and_verify(
        &"0g".to_string(),
        &String::new(),
        &digest.to_string(),
        never,
    );
    assert_eq!(outcome, Err(RunnerError::InvalidHex));
    let outcome = CircuitRunner::mocked_preprocess_inputs_synthesize_prove_and_verify(
        &String::new(),
        &String::new(),
        &"786a".to_string(),
        never,
    );
    assert_eq!(outcome, Err(RunnerError::OutputLength));
}

// ------------ WITNESS ------------ //

fn witness_of(input: &[u8], key: &[u8], output_size: usize) -> Vec<Option<u8>> {
    let circuit = RecordingCircuit::new(values(input), values(key), output_size);
    let expected = vec![Fq::ZERO; output_size];
    let _ = MockProver::run(17, &circuit, vec![expected]).unwrap();
    let outcome = circuit.outcome.borrow().clone();
    outcome.unwrap().unwrap()
}

#[test]
fn test_witness_of_the_digest_is_the_blake2b_hash() {
    let expected = hex::decode("ba80a53f981c4d0d6a2797b69f12f6e94c212f14685ac4b74b12bb6fdbffa2d17d87c5392aab792dc252d5de4533cc9518d38aa8dbf1925ab92386edd4009923").unwrap();
    let witness = witness_of(b"abc", &[], 64);
    assert_eq!(witness.len(), 64);
    let bytes: Vec<u8> = witness.into_iter().map(|b| b.unwrap()).collect();
    assert_eq!(bytes, expected);
}

#[test]
fn test_digest_length_is_folded_into_the_hash() {
    let expected = hex::decode("bddd813c634239723171ef3fee98579b94964e3bb1cb3e427262c8c068d52319").unwrap();
    let witness = witness_of(b"abc", &[], 32);
    assert_eq!(witness.len(), 64);
    let bytes: Vec<u8> = witness.iter().take(32).map(|b| b.unwrap()).collect();
    assert_eq!(bytes, expected);
    let full = witness_of(b"abc", &[], 64);
    assert_ne!(witness[0], full[0]);
}

#[test]
fn test_hashing_twice_gives_the_same_digest() {
    let input = counting(150);
    let key = counting(20);
    let first = witness_of(&input, &key, 48);
    let second = witness_of(&input, &key, 48);
    assert_eq!(first, second);
    assert!(first.iter().all(|b| b.is_some()));
}

fn error_of(input: Vec<Value<Fq>>, key: Vec<Value<Fq>>, output_size: usize) -> Option<Outcome> {
    let circuit = RecordingCircuit::new(input, key, output_size);
    let _ = MockProver::run(17, &circuit, vec![vec![]]).unwrap();
    let outcome = circuit.outcome.borrow().clone();
    outcome
}

#[test]
fn test_sizes_are_checked_before_anything_is_laid_out() {
    for (key_len, output_size, name) in
        [(0, 0, "OutputSize"), (0, 65, "OutputSize"), (65, 64, "KeySize"), (65, 0, "OutputSize")]
    {
        assert_eq!(error_of(vec![], values(&counting(key_len)), output_size), Some(Err(name)));
    }
    assert!(matches!(error_of(vec![], values(&counting(64)), 1), Some(Ok(_))));
    assert!(matches!(error_of(vec![], vec![], 64), Some(Ok(_))));
}

#[test]
fn test_input_that_is_no_byte_is_refused() {
    let input = vec![Value::known(Fq::from(7)), Value::known(Fq::from(256))];
    assert_eq!(error_of(input, vec![], 64), Some(Err("NotAByte")));
    let key = vec![Value::known(-Fq::ONE)];
    assert_eq!(error_of(vec![], key, 64), Some(Err("NotAByte")));
    let input = vec![Value::known(Fq::from(255))];
    assert!(matches!(error_of(input, vec![], 64), Some(Ok(_))));
}

// ------------ EXAMPLE CIRCUIT ------------ //

fn refusal_of(input: Vec<Value<Fq>>, key: Vec<Value<Fq>>, output_size: usize) -> Option<&'static str> {
    let input_size = input.len();
    let key_size = key.len();
    let circuit =
        ExampleCircuit::keeping(Blake2bCircuit::new(input, input_size, key, key_size, output_size));
    let _ = MockProver::run(17, &circuit, vec![vec![]]).unwrap();
    circuit.refusal()
}

#[test]
fn test_example_circuit_hands_on_the_error_of_the_chip() {
    assert_eq!(refusal_of(vec![], vec![], 0), Some("Output size must be between 1 and 64 bytes"));
    assert_eq!(refusal_of(vec![], vec![], 65), Some("Output size must be between 1 and 64 bytes"));
    assert_eq!(
        refusal_of(vec![], values(&counting(65)), 64),
        Some("Key size must be between 1 and 64 bytes")
    );
    assert_eq!(
        refusal_of(vec![Value::known(Fq::from(256))], vec![], 64),
        Some("Input and key cells must hold bytes")
    );
    assert_eq!(
        refusal_of(vec![], vec![Value::known(-Fq::ONE)], 64),
        Some("Input and key cells must hold bytes")
    );
    assert_eq!(refusal_of(values(&[255]), values(&counting(64)), 1), None);
}

#[test]
fn test_example_circuit_binds_the_digest_to_the_public_inputs() {
    let expected = hex::decode("ba80a53f981c4d0d6a2797b69f12f6e94c212f14685ac4b74b12bb6fdbffa2d17d87c5392aab792dc252d5de4533cc9518d38aa8dbf1925ab92386edd4009923").unwrap();
    let circuit = ExampleCircuit::aborting(Blake2bCircuit::new(values(b"abc"), 3, vec![], 0, 64));
    let prover = MockProver::run(17, &circuit, vec![fields(&expected)]).unwrap();
    assert_eq!(prover.verify(), Ok(()));
    for wrong in [0, 31, 63] {
        let mut digest = expected.clone();
        digest[wrong] ^= 1;
        let prover = MockProver::run(17, &circuit, vec![fields(&digest)]).unwrap();
        assert!(prover.verify().is_err());
    }
}

#[test]
fn test_example_circuit_binds_no_more_than_the_digest_length() {
    let expected = hex::decode("bddd813c634239723171ef3fee98579b94964e3bb1cb3e427262c8c068d52319").unwrap();
    let circuit = ExampleCircuit::aborting(Blake2bCircuit::new(values(b"abc"), 3, vec![], 0, 32));
    let prover = MockProver::run(17, &circuit, vec![fields(&expected)]).unwrap();
    assert_eq!(prover.verify(), Ok(()));
    let mut longer = expected.clone();
    longer.push(0);
    let prover = MockProver::run(17, &circuit, vec![fields(&longer)]).unwrap();
    assert_eq!(prover.verify(), Ok(()));
}

#[test]
fn test_packed_inputs_make_the_circuit_of_their_bytes() {
    let expected = hex::decode("5c6a9a4ae911c02fb7e71a991eb9aea371ae993d4842d206e6020d46f5e41358c6d5c277c110ef86c959ed63e6ecaaaceaaff38019a43264ae06acf73b9550b1").unwrap();
    let mut digest = [0u8; 64];
    digest.copy_from_slice(&expected);
    let packed = (b"abc".to_vec(), 3, b"key".to_vec(), 3, digest, 64);
    let circuit = ExampleCircuit::aborting(CircuitRunner::create_circuit_for_packed_inputs(packed));
    let prover = MockProver::run(17, &circuit, vec![fields(&expected)]).unwrap();
    assert_eq!(prover.verify(), Ok(()));
}

#[test]
fn test_circuit_without_witnesses_keeps_its_sizes_and_knows_nothing() {
    let digest = hex::decode("786a02f742015903c6c6fd852552d272912f4740e15847618a86e217f71f5419d25e1031afee585313896444934eb04b903a685b1448b755d56f701afe9be2ce").unwrap();
    let empty = ExampleCircuit::aborting(Blake2bCircuit::new(vec![], 0, vec![], 0, 64));
    let blank = empty.without_witnesses();
    let prover = MockProver::run(17, &blank, vec![fields(&digest)]).unwrap();
    assert_eq!(prover.verify(), Ok(()));

    // The mock prover takes no witness that is not known.
    let filled = ExampleCircuit::aborting(Blake2bCircuit::new(values(b"abc"), 3, vec![], 0, 64));
    assert!(MockProver::run(17, &filled, vec![vec![]]).is_ok());
    assert!(MockProver::run(17, &filled.without_witnesses(), vec![vec![]]).is_err());

    // The blank circuit has as many witnesses as the circuit was declared with.
    let declared_empty =
        ExampleCircuit::aborting(Blake2bCircuit::new(values(b"abc"), 0, values(b"key"), 0, 64));
    let prover =
        MockProver::run(17, &declared_empty.without_witnesses(), vec![fields(&digest)]).unwrap();
    assert_eq!(prover.verify(), Ok(()));
}

#[test]
fn test_hash_binds_the_digest_to_the_public_inputs() {
    let expected = hex::decode("ba80a53f981c4d0d6a2797b69f12f6e94c212f14685ac4b74b12bb6fdbffa2d17d87c5392aab792dc252d5de4533cc9518d38aa8dbf1925ab92386edd4009923").unwrap();
    let circuit = RecordingCircuit::new(values(b"abc"), vec![], 64);
    let prover = MockProver::run(17, &circuit, vec![fields(&expected)]).unwrap();
    assert_eq!(prover.verify(), Ok(()));
    let mut wrong = expected.clone();
    wrong[63] ^= 0x80;
    let prover = MockProver::run(17, &circuit, vec![fields(&wrong)]).unwrap();
    assert!(prover.verify().is_err());

    // Beyond the digest length nothing is bound.
    let circuit = RecordingCircuit::new(values(b"abc"), vec![], 1);
    let first = hex::decode("6b").unwrap();
    assert_eq!(witness_of(b"abc", &[], 1)[0], Some(first[0]));
    let mut instance = fields(&first);
    instance.push(Fq::from(77));
    let prover = MockProver::run(17, &circuit, vec![instance]).unwrap();
    assert_eq!(prover.verify(), Ok(()));
}
