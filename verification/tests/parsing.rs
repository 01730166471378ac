use proofhub::errors::VerificationError;
use proofhub::models::Outputs;
use proofhub::parse::parse_risc0_image_id;
use proofhub::parse::string_to_u64_vec;

#[test]
fn bracketed_list_parses_to_values() {
    let values = string_to_u64_vec("[1, 2, 3]").unwrap();
    assert_eq!(values, vec![1, 2, 3]);
}

#[test]
fn list_without_brackets_parses_too() {
    let values = string_to_u64_vec("10,20,30").unwrap();
    assert_eq!(values, vec![10, 20, 30]);
}

#[test]
fn leading_plus_and_unicode_space_are_accepted() {
    // Element trimming covers all Unicode whitespace, and a number may
    // carry one leading plus sign.
    let values = string_to_u64_vec("[+1, 2]").unwrap();
    assert_eq!(values, vec![1, 2]);
    let values = string_to_u64_vec("[1,\u{A0}2,\u{2003}3]").unwrap();
    assert_eq!(values, vec![1, 2, 3]);
    // A second sign is malformed and reads as zero.
    let values = string_to_u64_vec("[++1]").unwrap();
    assert_eq!(values, vec![0]);
}

#[test]
fn malformed_elements_become_zero() {
    let values = string_to_u64_vec("[10, x, 3]").unwrap();
    assert_eq!(values, vec![10, 0, 3]);
    let values = string_to_u64_vec("abc").unwrap();
    assert_eq!(values, vec![0]);
    let values = string_to_u64_vec("[]").unwrap();
    assert_eq!(values, vec![0]);
}

#[test]
fn out_of_range_elements_become_zero() {
    // One past the largest `u64` overflows and reads as zero; the largest
    // itself reads exactly.
    let values = string_to_u64_vec("[18446744073709551616]").unwrap();
    assert_eq!(values, vec![0]);
    let values = string_to_u64_vec("[18446744073709551615]").unwrap();
    assert_eq!(values, vec![18446744073709551615]);
}

#[test]
fn image_id_with_eight_numbers_parses() {
    let id = parse_risc0_image_id("[101, 102, 103, 104, 105, 106, 107, 108]").unwrap();
    assert_eq!(id, vec![101, 102, 103, 104, 105, 106, 107, 108]);
}

#[test]
fn image_id_requires_comma_space_separators() {
    // The separator is the exact two characters `", "`: a bare-comma list
    // is one segment, not eight, and is rejected as wrong length.
    let r = parse_risc0_image_id("[1,2,3,4,5,6,7,8]");
    assert!(matches!(r, Err(VerificationError::InvalidImageID(_))));
    // A doubled space leaves a segment `" 3"`, which is not a number.
    let r = parse_risc0_image_id("[1, 2,  3, 4, 5, 6, 7, 8]");
    assert!(matches!(r, Err(VerificationError::InvalidImageID(_))));
}

#[test]
fn image_id_accepts_signed_numbers() {
    // Number parsing takes one optional leading plus sign.
    let id = parse_risc0_image_id("[+1, 2, 3, 4, 5, 6, 7, 8]").unwrap();
    assert_eq!(id[0], 1);
    let r = parse_risc0_image_id("[++1, 2, 3, 4, 5, 6, 7, 8]");
    assert!(matches!(r, Err(VerificationError::InvalidImageID(_))));
}

#[test]
fn image_id_of_wrong_length_is_rejected() {
    let r = parse_risc0_image_id("[1, 2, 3, 4, 5, 6, 7]");
    assert!(matches!(r, Err(VerificationError::InvalidImageID(_))));
    let r = parse_risc0_image_id("[1, 2, 3, 4, 5, 6, 7, 8, 9]");
    assert!(matches!(r, Err(VerificationError::InvalidImageID(_))));
}

#[test]
fn image_id_with_malformed_number_is_rejected() {
    let r = parse_risc0_image_id("[1, 2, three, 4, 5, 6, 7, 8]");
    assert!(matches!(r, Err(VerificationError::InvalidImageID(_))));
}

#[test]
fn image_id_element_beyond_u32_is_rejected() {
    let r = parse_risc0_image_id("[1, 2, 3, 4, 5, 6, 7, 4294967296]");
    assert!(matches!(r, Err(VerificationError::InvalidImageID(_))));
    let id = parse_risc0_image_id("[1, 2, 3, 4, 5, 6, 7, 4294967295]").unwrap();
    assert_eq!(id[7], 4294967295);
}

#[test]
fn stack_outputs_default_to_empty_overflow() {
    let with_overflow = Outputs { stack: vec![1, 2], overflow_addrs: Some(vec![9]) };
    let (stack, overflow) = with_overflow.into_parts();
    assert_eq!(stack, vec![1, 2]);
    assert_eq!(overflow, vec![9]);
    let without = Outputs { stack: vec![3], overflow_addrs: None };
    let (stack, overflow) = without.into_parts();
    assert_eq!(stack, vec![3]);
    assert!(overflow.is_empty());
}
