//! The read-description encoding: formatting, parsing, and the round trip.

use digestiflow::digits::{parse_i32_str, parse_u32_str, u32_to_string};
use digestiflow::reads::{parse_description, string_description, ReadDescription, ReadPair};

fn rd(number: i32, num_cycles: i32, is_index: bool) -> ReadDescription {
    ReadDescription { number, num_cycles, is_index }
}

#[test]
fn description_of_typical_run() {
    let reads = vec![rd(1, 76, false), rd(2, 8, true), rd(3, 8, true), rd(4, 76, false)];
    assert_eq!(string_description(&reads), "76T8B8B76T");
}

#[test]
fn description_of_miseq_scenario() {
    let reads = vec![rd(1, 76, false), rd(2, 8, true), rd(3, 76, false)];
    assert_eq!(string_description(&reads), "76T8B76T");
}

#[test]
fn description_of_empty_run_is_empty() {
    assert_eq!(string_description(&Vec::new()), "");
}

#[test]
fn round_trip_recovers_cycles_and_flags() {
    let reads = vec![rd(1, 76, false), rd(2, 8, true), rd(3, 8, true), rd(4, 76, false)];
    let encoded = string_description(&reads);
    let pairs = parse_description(&encoded).expect("the encoding must parse");
    let expected: Vec<ReadPair> = reads
        .iter()
        .map(|r| ReadPair { num_cycles: r.num_cycles, is_index: r.is_index })
        .collect();
    assert_eq!(pairs, expected);
}

#[test]
fn round_trip_with_zero_cycles() {
    let reads = vec![rd(1, 0, true), rd(2, 305, false)];
    let encoded = string_description(&reads);
    assert_eq!(encoded, "0B305T");
    let pairs = parse_description(&encoded).unwrap();
    assert_eq!(
        pairs,
        vec![
            ReadPair { num_cycles: 0, is_index: true },
            ReadPair { num_cycles: 305, is_index: false },
        ]
    );
}

#[test]
fn parse_rejects_malformed_descriptions() {
    assert!(parse_description("76X").is_none());
    assert!(parse_description("76").is_none());
    assert!(parse_description("T").is_none());
    assert!(parse_description("76T8").is_none());
}

#[test]
fn parse_of_empty_description_is_empty() {
    assert_eq!(parse_description("").unwrap(), Vec::<ReadPair>::new());
}

#[test]
fn numeral_formatting() {
    assert_eq!(u32_to_string(0), "0");
    assert_eq!(u32_to_string(7), "7");
    assert_eq!(u32_to_string(305), "305");
    assert_eq!(u32_to_string(4294967295), "4294967295");
}

#[test]
fn numeral_parsing_exact_values() {
    assert_eq!(parse_u32_str("0"), Some(0));
    assert_eq!(parse_u32_str("007"), Some(7));
    assert_eq!(parse_u32_str("4294967295"), Some(4294967295));
    assert_eq!(parse_u32_str("4294967296"), None);
    assert_eq!(parse_u32_str(""), None);
    assert_eq!(parse_u32_str("12a"), None);
}

#[test]
fn signed_numeral_parsing_bounds() {
    assert_eq!(parse_i32_str("2147483647"), Some(2147483647));
    assert_eq!(parse_i32_str("2147483648"), None);
    assert_eq!(parse_i32_str("-2147483648"), Some(i32::MIN));
    assert_eq!(parse_i32_str("-2147483649"), None);
    assert_eq!(parse_i32_str("-"), None);
    assert_eq!(parse_i32_str("-0"), Some(0));
}
