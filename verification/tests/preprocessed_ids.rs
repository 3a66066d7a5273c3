//! Names of preprocessed columns.

use cairo_cuda_witness::preprocessed_ids::{
    parse_bitwise_xor_id, parse_blake_sigma_id, parse_pedersen_points_id,
    parse_pedersen_points_small_id, parse_poseidon_round_keys_id, parse_range_check_id,
    starts_with,
};
use cairo_cuda_witness::text::{
    chars_of, find_pattern, parse_number, same_text, split_text, strip_prefix,
};

#[test]
fn test_parse_range_check_id() {
    let (bits, col) = parse_range_check_id("range_check_4_3_column_0").unwrap();
    assert_eq!(bits, vec![4, 3]);
    assert_eq!(col, 0);

    let (bits, col) = parse_range_check_id("range_check_9_9_column_1").unwrap();
    assert_eq!(bits, vec![9, 9]);
    assert_eq!(col, 1);

    let (bits, col) = parse_range_check_id("range_check_7_2_5_column_2").unwrap();
    assert_eq!(bits, vec![7, 2, 5]);
    assert_eq!(col, 2);

    assert!(parse_range_check_id("seq_5").is_none());
    assert!(parse_range_check_id("bitwise_xor_8_0").is_none());
}

#[test]
fn test_parse_bitwise_xor_id() {
    let (n_bits, col) = parse_bitwise_xor_id("bitwise_xor_8_0").unwrap();
    assert_eq!(n_bits, 8);
    assert_eq!(col, 0);

    let (n_bits, col) = parse_bitwise_xor_id("bitwise_xor_4_2").unwrap();
    assert_eq!(n_bits, 4);
    assert_eq!(col, 2);

    assert!(parse_bitwise_xor_id("range_check_4_3_column_0").is_none());
    assert!(parse_bitwise_xor_id("seq_5").is_none());
}

#[test]
fn test_parse_pedersen_points_id() {
    assert_eq!(parse_pedersen_points_id("pedersen_points_0"), Some(0));
    assert_eq!(parse_pedersen_points_id("pedersen_points_55"), Some(55));
    assert!(parse_pedersen_points_id("seq_5").is_none());
}

#[test]
fn test_parse_poseidon_round_keys_id() {
    assert_eq!(parse_poseidon_round_keys_id("poseidon_round_keys_0"), Some(0));
    assert_eq!(parse_poseidon_round_keys_id("poseidon_round_keys_8"), Some(8));
    assert!(parse_poseidon_round_keys_id("seq_5").is_none());
}

#[test]
fn test_parse_blake_sigma_id() {
    assert_eq!(parse_blake_sigma_id("blake_sigma_0"), Some(0));
    assert_eq!(parse_blake_sigma_id("blake_sigma_15"), Some(15));
    assert!(parse_blake_sigma_id("seq_5").is_none());
}

#[test]
fn the_two_tables_of_points_are_told_apart() {
    assert_eq!(parse_pedersen_points_small_id("pedersen_points_small_7"), Some(7));
    assert_eq!(parse_pedersen_points_id("pedersen_points_small_7"), None);
    assert_eq!(parse_pedersen_points_small_id("pedersen_points_7"), None);
}

#[test]
fn malformed_range_check_names_are_refused() {
    // No column, two columns, an empty segment, a segment that is no number.
    assert!(parse_range_check_id("range_check_4_3").is_none());
    assert!(parse_range_check_id("range_check_4_column_0_column_1").is_none());
    assert!(parse_range_check_id("range_check_4__3_column_0").is_none());
    assert!(parse_range_check_id("range_check_4_x_column_0").is_none());
    assert!(parse_range_check_id("range_check_4_3_column_").is_none());
}

#[test]
fn malformed_xor_names_are_refused() {
    assert!(parse_bitwise_xor_id("bitwise_xor_8").is_none());
    assert!(parse_bitwise_xor_id("bitwise_xor__0").is_none());
    assert!(parse_bitwise_xor_id("bitwise_xor_8_").is_none());
}

#[test]
fn what_follows_the_column_of_a_xor_name_is_ignored() {
    assert_eq!(parse_bitwise_xor_id("bitwise_xor_8_0_1"), Some((8, 0)));
}

#[test]
fn malformed_indices_are_refused() {
    assert_eq!(parse_blake_sigma_id("blake_sigma_"), None);
    assert_eq!(parse_blake_sigma_id("blake_sigma_1x"), None);
    assert_eq!(parse_blake_sigma_id("blake_sigma_99999999999999999999999"), None);
    assert_eq!(parse_blake_sigma_id("blake_sigma_007"), Some(7));
}

#[test]
fn numbers_are_read_as_decimals() {
    assert_eq!(parse_number(&chars_of("0"), 100), Some(0));
    assert_eq!(parse_number(&chars_of("+42"), 100), Some(42));
    assert_eq!(parse_number(&chars_of("100"), 100), Some(100));
    assert_eq!(parse_number(&chars_of("101"), 100), None);
    assert_eq!(parse_number(&chars_of(""), 100), None);
    assert_eq!(parse_number(&chars_of("+"), 100), None);
    assert_eq!(parse_number(&chars_of("-1"), 100), None);
    assert_eq!(parse_number(&chars_of("18446744073709551615"), u64::MAX), Some(u64::MAX));
    assert_eq!(parse_number(&chars_of("18446744073709551616"), u64::MAX), None);
}

#[test]
fn splitting_undoes_joining() {
    let pieces = split_text(&chars_of("a_b__c"), '_');
    assert_eq!(pieces, vec![vec!['a'], vec!['b'], vec![], vec!['c']]);
    assert_eq!(split_text(&chars_of("ab"), '_'), vec![vec!['a', 'b']]);
    assert_eq!(split_text(&chars_of(""), '_'), vec![Vec::<char>::new()]);
}

#[test]
fn prefixes_are_found_and_removed() {
    assert!(starts_with("seq_5", "seq_"));
    assert!(!starts_with("se", "seq_"));
    assert_eq!(strip_prefix("seq_5", "seq_"), Some(vec!['5']));
    assert_eq!(strip_prefix("seq_5", "xor_"), None);
}

#[test]
fn the_first_occurrence_is_found() {
    let text = chars_of("4_3_column_0_column_1");
    assert_eq!(find_pattern(&text, &chars_of("_column_")), Some(3));
    assert_eq!(find_pattern(&text, &chars_of("_row_")), None);
    assert!(same_text("seq", "seq"));
    assert!(!same_text("seq", "sequence"));
}
