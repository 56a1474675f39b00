use blake2b_halo2::base_operations::addition_mod_64::AdditionMod64Config;
use blake2b_halo2::base_operations::polynomial::Poly;
use blake2b_halo2::base_operations::xor::XorConfig;
use blake2b_halo2::base_operations::{
    compute_full_value_u64_from_bytes, get_limb_from, rotate_right_field_element, xor_table_row,
};
use blake2b_halo2::blake2b::blake2b_chip::Blake2bChip;
use blake2b_halo2::blake2b::utils::{
    compute_processed_bytes_count_value_for_iteration, enforce_input_sizes,
    get_total_blocks_count, is_padding_cell, zeros_to_pad_in_current_block, ABCD,
    BLAKE2B_BLOCK_SIZE, IV_CONSTANTS, SIGMA,
};
use blake2b_halo2::blake2b::NB_BLAKE2B_ADVICE_COLS;
use blake2b_halo2::error::Blake2bError;
use blake2b_halo2::types::bit::Bit;
use blake2b_halo2::types::blake2b_word::Blake2bWord;
use blake2b_halo2::types::byte::Byte;
use blake2b_halo2::types::{field_bytes_of_word, get_word_from_le_field, AssignedNative};
use blake2b_halo2::usage_utils::circuit_runner::{CircuitRunner, RunnerError};
use ff::{Field, PrimeField};
use midnight_curves::bls12_381::Fq;
use midnight_proofs::circuit::Cell;
use midnight_proofs::plonk::ConstraintSystem;

fn repr(value: u128) -> [u8; 32] {
    Fq::from_u128(value).to_repr()
}

fn natives(values: &[u128]) -> Vec<AssignedNative> {
    let mut cs = ConstraintSystem::<Fq>::default();
    let column = cs.advice_column();
    values
        .iter()
        .enumerate()
        .map(|(row_offset, value)| {
            let cell = Cell { region_index: 0.into(), row_offset, column: column.into() };
            AssignedNative::new(cell, Some(repr(*value)))
        })
        .collect()
}

// ------------ FIELD ELEMENTS ------------ //

#[test]
fn test_word_of_a_field_element() {
    assert_eq!(get_word_from_le_field(&repr(0)), Some(0));
    assert_eq!(get_word_from_le_field(&repr(0x0123_4567_89ab_cdef)), Some(0x0123_4567_89ab_cdef));
    assert_eq!(get_word_from_le_field(&repr(u64::MAX as u128)), Some(u64::MAX));
    assert_eq!(get_word_from_le_field(&repr(1 << 64)), None);
    assert_eq!(get_word_from_le_field(&(-Fq::ONE).to_repr()), None);
    let mut top = [0u8; 32];
    top[31] = 1;
    assert_eq!(get_word_from_le_field(&top), None);
}

#[test]
fn test_field_bytes_of_a_word_are_those_of_the_backend() {
    for word in [0, 1, 255, 256, 0x0123_4567_89ab_cdef, u64::MAX] {
        assert_eq!(field_bytes_of_word(word), Fq::from(word).to_repr());
        assert_eq!(get_word_from_le_field(&field_bytes_of_word(word)), Some(word));
    }
}

#[test]
fn test_byte_from_field() {
    assert_eq!(Byte::new_from_field(&repr(0)).map(|b| b.0), Some(0));
    assert_eq!(Byte::new_from_field(&repr(200)).map(|b| b.0), Some(200));
    assert_eq!(Byte::new_from_field(&repr(255)).map(|b| b.0), Some(255));
    assert!(Byte::new_from_field(&repr(256)).is_none());
    assert!(Byte::new_from_field(&repr(1 << 64)).is_none());
    assert!(Byte::new_from_field(&(-Fq::ONE).to_repr()).is_none());
}

#[test]
fn test_bit_from_field() {
    assert_eq!(Bit::new_from_field(&repr(0)).map(|b| b.0), Some(false));
    assert_eq!(Bit::new_from_field(&repr(1)).map(|b| b.0), Some(true));
    assert!(Bit::new_from_field(&repr(2)).is_none());
    assert!(Bit::new_from_field(&repr(256)).is_none());
    assert!(Bit::new_from_field(&repr(1 << 64)).is_none());
}

#[test]
fn test_word_from_field() {
    assert_eq!(Blake2bWord::new_from_field(&repr(42)).map(|w| w.0), Some(42));
    assert_eq!(Blake2bWord::new_from_field(&repr(u64::MAX as u128)).map(|w| w.0), Some(u64::MAX));
    assert!(Blake2bWord::new_from_field(&repr(1 << 64)).is_none());
}

// ------------ WORDS ------------ //

#[test]
fn test_limbs_of_a_word_are_little_endian() {
    let word = Blake2bWord(0x0123_4567_89ab_cdef);
    assert_eq!(word.to_le_bytes(), [0xef, 0xcd, 0xab, 0x89, 0x67, 0x45, 0x23, 0x01]);
    assert_eq!(word.to_le_bytes(), 0x0123_4567_89ab_cdefu64.to_le_bytes());
    assert_eq!(Blake2bWord(0).to_le_bytes(), [0; 8]);
    assert_eq!(Blake2bWord(u64::MAX).to_le_bytes(), [255; 8]);
    assert_eq!(Blake2bWord::from_le_bytes(&word.to_le_bytes()).0, word.0);
    assert_eq!(Blake2bWord::from_le_bytes(&[1, 2, 3, 4, 5, 6, 7, 8]).0, 0x0807_0605_0403_0201);
    for limb in 0..8 {
        assert_eq!(get_limb_from(Some(word), limb).map(|b| b.0), Some(word.to_le_bytes()[limb]));
        assert!(get_limb_from(None, limb).is_none());
    }
}

#[test]
fn test_word_operators() {
    assert_eq!(Blake2bWord(0b1100).bitxor(Blake2bWord(0b1010)).0, 0b0110);
    assert_eq!(Blake2bWord(10).sub(Blake2bWord(3)).0, 7);
    assert_eq!(Blake2bWord(u64::MAX).sub(Blake2bWord(u64::MAX)).0, 0);
    assert_eq!(Byte(0xf0).bitxor(Byte(0x3c)).0, 0xcc);
}

#[test]
fn test_rotate_right_field_element() {
    let word = 0x0123_4567_89ab_cdefu64;
    for degree in [0usize, 1, 16, 24, 32, 63, 64, 65, 127, 128] {
        assert_eq!(
            rotate_right_field_element(Blake2bWord(word), degree).0,
            word.rotate_right(degree as u32)
        );
    }
    assert_eq!(rotate_right_field_element(Blake2bWord(1), 63).0, 2);
    assert_eq!(rotate_right_field_element(Blake2bWord(1), 1).0, 1 << 63);
    assert_eq!(rotate_right_field_element(Blake2bWord((1 << 32) - 1), 32).0, u64::MAX << 32);
}

#[test]
fn test_sum_and_carry() {
    let value = |out: (Option<Blake2bWord>, Option<Bit>)| (out.0.map(|w| w.0), out.1.map(|b| b.0));
    let add = |a: u64, b: u64| {
        value(AdditionMod64Config::calculate_result_and_carry(
            Some(Blake2bWord(a)),
            Some(Blake2bWord(b)),
        ))
    };
    assert_eq!(add(1, 2), (Some(3), Some(false)));
    assert_eq!(add(u64::MAX, 0), (Some(u64::MAX), Some(false)));
    assert_eq!(add(u64::MAX, 1), (Some(0), Some(true)));
    assert_eq!(add(u64::MAX, u64::MAX), (Some(u64::MAX - 1), Some(true)));
    assert_eq!(add(1 << 63, 1 << 63), (Some(0), Some(true)));
    assert_eq!(
        value(AdditionMod64Config::calculate_result_and_carry(None, Some(Blake2bWord(1)))),
        (None, None)
    );
    assert_eq!(
        value(AdditionMod64Config::calculate_result_and_carry(Some(Blake2bWord(1)), None)),
        (None, None)
    );
}

#[test]
fn test_xor_of_words() {
    let a = 1u64 << 33;
    let b = (1u64 << 33) + (1u64 << 34);
    let xor = XorConfig::calculate_xor(Some(Blake2bWord(a)), Some(Blake2bWord(b)));
    assert_eq!(xor.map(|w| w.0), Some(1 << 34));
    assert_ne!(xor.map(|w| w.0), Some(a + b));
    assert!(XorConfig::calculate_xor(None, Some(Blake2bWord(b))).is_none());
    assert!(XorConfig::calculate_xor(Some(Blake2bWord(a)), None).is_none());
}

#[test]
fn test_xor_table_rows() {
    assert_eq!(xor_table_row(0), (0, 0, 0));
    assert_eq!(xor_table_row(1), (0, 1, 1));
    assert_eq!(xor_table_row(256), (1, 0, 1));
    assert_eq!(xor_table_row(0xf03c), (0xf0, 0x3c, 0xcc));
    assert_eq!(xor_table_row(65535), (255, 255, 0));
    for index in 0..65536 {
        let (a, b, c) = xor_table_row(index);
        assert_eq!(a as usize * 256 + b as usize, index);
        assert_eq!(c, a ^ b);
    }
}

#[test]
fn test_word_of_eight_cells() {
    let cells: [AssignedNative; 8] = natives(&[1, 2, 3, 4, 5, 6, 7, 8]).try_into().ok().unwrap();
    assert_eq!(compute_full_value_u64_from_bytes(&cells).map(|w| w.0), Some(0x0807_0605_0403_0201));
    let mut unknown = cells;
    let cell = unknown[3].cell();
    unknown[3] = AssignedNative::new(cell, None);
    assert!(compute_full_value_u64_from_bytes(&unknown).is_none());
    assert_eq!(cells[2].field_value(), Some(repr(3)));
}

#[test]
fn test_polynomials_are_built_term_by_term() {
    let p = Poly::cell(0, 0).minus(Poly::cell(1, 0).times(Poly::constant(256)));
    match p {
        Poly::Sum(left, right) => {
            assert!(matches!(*left, Poly::Cell { column: 0, rotation: 0 }));
            assert!(matches!(*right, Poly::Negated(_)));
        },
        _ => panic!("a difference is a sum with a negated term"),
    }
    assert!(matches!(Poly::constant(7).plus(Poly::constant(8)), Poly::Sum(_, _)));
    assert!(matches!(Poly::constant(7).negated(), Poly::Negated(_)));
}

// ------------ BLOCK SCHEDULE ------------ //

#[test]
fn test_constants_of_blake2b() {
    assert_eq!(NB_BLAKE2B_ADVICE_COLS, 9);
    assert_eq!(BLAKE2B_BLOCK_SIZE, 128);
    assert_eq!(IV_CONSTANTS[0], 0x6A09E667F3BCC908);
    assert_eq!(IV_CONSTANTS[7], 0x5BE0CD19137E2179);
    assert_eq!(SIGMA[10], SIGMA[0]);
    assert_eq!(SIGMA[11], SIGMA[1]);
    for row in SIGMA {
        let mut seen = [false; 16];
        for word in row {
            seen[word] = true;
        }
        assert!(seen.iter().all(|s| *s));
    }
    assert_eq!(ABCD[0], [0, 4, 8, 12]);
    assert_eq!(ABCD[7], [3, 4, 9, 14]);
}

#[test]
fn test_enforce_input_sizes() {
    assert!(matches!(enforce_input_sizes(1, 0), Ok(())));
    assert!(matches!(enforce_input_sizes(64, 64), Ok(())));
    assert!(matches!(enforce_input_sizes(32, 17), Ok(())));
    assert!(matches!(enforce_input_sizes(0, 0), Err(Blake2bError::OutputSize)));
    assert!(matches!(enforce_input_sizes(65, 0), Err(Blake2bError::OutputSize)));
    assert!(matches!(enforce_input_sizes(64, 65), Err(Blake2bError::KeySize)));
    assert!(matches!(enforce_input_sizes(0, 65), Err(Blake2bError::OutputSize)));
    assert_eq!(Blake2bError::OutputSize.message(), "Output size must be between 1 and 64 bytes");
    assert_eq!(Blake2bError::KeySize.message(), "Key size must be between 1 and 64 bytes");
}

#[test]
fn test_total_blocks_count() {
    assert_eq!(get_total_blocks_count(0, true, true), 1);
    assert_eq!(get_total_blocks_count(1, false, true), 1);
    assert_eq!(get_total_blocks_count(3, false, true), 3);
    assert_eq!(get_total_blocks_count(0, true, false), 1);
    assert_eq!(get_total_blocks_count(1, false, false), 2);
    assert_eq!(get_total_blocks_count(3, false, false), 4);
}

#[test]
fn test_processed_bytes_count() {
    assert_eq!(compute_processed_bytes_count_value_for_iteration(0, false, 300, true), 128);
    assert_eq!(compute_processed_bytes_count_value_for_iteration(1, false, 300, true), 256);
    assert_eq!(compute_processed_bytes_count_value_for_iteration(2, true, 300, true), 300);
    assert_eq!(compute_processed_bytes_count_value_for_iteration(0, false, 300, false), 128);
    assert_eq!(compute_processed_bytes_count_value_for_iteration(3, true, 300, false), 428);
    assert_eq!(compute_processed_bytes_count_value_for_iteration(0, true, 0, true), 0);
    assert_eq!(compute_processed_bytes_count_value_for_iteration(0, true, 0, false), 128);
}

#[test]
fn test_zeros_to_pad() {
    let no_key = natives(&[]);
    let key = natives(&[7; 17]);
    assert_eq!(zeros_to_pad_in_current_block(&no_key, 0, true, false), 128);
    assert_eq!(zeros_to_pad_in_current_block(&no_key, 1, true, false), 127);
    assert_eq!(zeros_to_pad_in_current_block(&no_key, 128, true, false), 0);
    assert_eq!(zeros_to_pad_in_current_block(&no_key, 129, true, false), 127);
    assert_eq!(zeros_to_pad_in_current_block(&no_key, 300, false, false), 0);
    assert_eq!(zeros_to_pad_in_current_block(&key, 300, false, true), 111);
    assert_eq!(zeros_to_pad_in_current_block(&key, 0, true, true), 111);
    assert_eq!(zeros_to_pad_in_current_block(&key, 300, true, false), 84);
    assert_eq!(zeros_to_pad_in_current_block(&natives(&[0; 64]), 3, false, true), 64);
}

#[test]
fn test_padding_stands_at_the_end_of_a_block() {
    assert!(!is_padding_cell(0, 15, 7));
    assert!(is_padding_cell(1, 15, 7));
    assert!(!is_padding_cell(1, 15, 6));
    assert!(is_padding_cell(9, 14, 7));
    assert!(!is_padding_cell(9, 14, 6));
    assert!(is_padding_cell(128, 0, 0));
    assert!(!is_padding_cell(127, 0, 0));
    for zeros in [0usize, 1, 64, 111, 128] {
        let count = (0..16)
            .flat_map(|row| (0..8).map(move |limb| (row, limb)))
            .filter(|(row, limb)| is_padding_cell(zeros, *row, *limb))
            .count();
        assert_eq!(count, zeros);
    }
}

#[test]
fn test_rows_of_a_hash() {
    assert_eq!(Blake2bChip::rows_needed(0, 0), Some(2469));
    assert_eq!(Blake2bChip::rows_needed(1, 0), Some(2469));
    assert_eq!(Blake2bChip::rows_needed(128, 0), Some(2469));
    assert_eq!(Blake2bChip::rows_needed(129, 0), Some(2469 + 2465));
    assert_eq!(Blake2bChip::rows_needed(0, 64), Some(2469));
    assert_eq!(Blake2bChip::rows_needed(1, 64), Some(2469 + 2465));
    assert_eq!(Blake2bChip::rows_needed(256, 1), Some(2469 + 2 * 2465));
    assert_eq!(Blake2bChip::rows_needed(usize::MAX, 0), None);
    assert_eq!(Blake2bChip::rows_needed(usize::MAX / 16, 1), None);
}

#[test]
fn test_cells_that_are_bytes() {
    assert!(Blake2bChip::all_bytes(&natives(&[])));
    assert!(Blake2bChip::all_bytes(&natives(&[0, 1, 255])));
    assert!(!Blake2bChip::all_bytes(&natives(&[0, 256, 255])));
    assert!(!Blake2bChip::all_bytes(&natives(&[1 << 64])));
    let unknown = AssignedNative::new(natives(&[0])[0].cell(), None);
    assert!(Blake2bChip::all_bytes(&[unknown]));
}

// ------------ TEST VECTORS ------------ //

#[test]
fn test_prepare_parameters_for_test() {
    let digest = "00".repeat(63) + "fF";
    let prepared = CircuitRunner::prepare_parameters_for_test(
        &"00ff10aB".to_string(),
        &"6b6579".to_string(),
        &digest,
    )
    .unwrap();
    assert_eq!(prepared.0, vec![0, 255, 16, 171]);
    assert_eq!(prepared.1, 4);
    assert_eq!(prepared.2, b"key".to_vec());
    assert_eq!(prepared.3, 3);
    let mut expected = [0u8; 64];
    expected[63] = 255;
    assert_eq!(prepared.4, expected);
    assert_eq!(prepared.5, 64);

    let empty = CircuitRunner::prepare_parameters_for_test(&String::new(), &String::new(), &digest)
        .unwrap();
    assert_eq!((empty.0.len(), empty.1, empty.2.len(), empty.3), (0, 0, 0, 0));
}

#[test]
fn test_prepare_parameters_refuses_what_is_no_test_vector() {
    let digest = "ab".repeat(64);
    let prepare = |input: &str, key: &str, expected: &str| {
        CircuitRunner::prepare_parameters_for_test(
            &input.to_string(),
            &key.to_string(),
            &expected.to_string(),
        )
        .err()
    };
    assert_eq!(prepare("0", "", &digest), Some(RunnerError::InvalidHex));
    assert_eq!(prepare("0g", "", &digest), Some(RunnerError::InvalidHex));
    assert_eq!(prepare("é0", "", &digest), Some(RunnerError::InvalidHex));
    assert_eq!(prepare("00", "xy", &digest), Some(RunnerError::InvalidHex));
    assert_eq!(prepare("00", "", "zz"), Some(RunnerError::InvalidHex));
    assert_eq!(prepare("00", "", "abcd"), Some(RunnerError::OutputLength));
    assert_eq!(prepare("00", "xy", "abcd"), Some(RunnerError::OutputLength));
    assert_eq!(prepare("00", "", &"ab".repeat(65)), Some(RunnerError::OutputLength));
    assert_eq!(prepare("00", "", &digest), None);
}

#[test]
fn test_formed_output_block_for() {
    let digest = "0123456789abcdef".repeat(8);
    let (block, size) = CircuitRunner::formed_output_block_for(&digest).unwrap();
    assert_eq!(size, 64);
    assert_eq!(block.to_vec(), hex::decode(&digest).unwrap());
    assert_eq!(block[0], 0x01);
    assert_eq!(block[7], 0xef);
    assert_eq!(
        CircuitRunner::formed_output_block_for(&"00".to_string()).err(),
        Some(RunnerError::OutputLength)
    );
    assert_eq!(
        CircuitRunner::formed_output_block_for(&"0".to_string()).err(),
        Some(RunnerError::InvalidHex)
    );
}
