use tolliver::cli::type_parsing::{hex_string_to_bytes, hex_to_number};

#[test]
fn single_byte() {
    let actual = hex_string_to_bytes("42");
    assert_eq!(actual, Ok(vec![66]));
}

#[test]
fn single_byte_min() {
    let actual = hex_string_to_bytes("00");
    assert_eq!(actual, Ok(vec![0]));
}

#[test]
fn single_byte_max() {
    let actual = hex_string_to_bytes("ff");
    assert_eq!(actual, Ok(vec![255]));
}

#[test]
fn multibyte() {
    let actual = hex_string_to_bytes("abcd");
    assert_eq!(actual, Ok(vec![171, 205]));
}

#[test]
fn multibyte_min() {
    let actual = hex_string_to_bytes("000000");
    assert_eq!(actual, Ok(vec![0, 0, 0]));
}

#[test]
fn multibyte_max() {
    let actual = hex_string_to_bytes("ffffff");
    assert_eq!(actual, Ok(vec![255, 255, 255]));
}

#[test]
fn empty_string() {
    let actual = hex_string_to_bytes("");
    assert_eq!(actual, Ok(vec![]));
}

#[test]
fn odd_number_of_chars() {
    let actual = hex_string_to_bytes("fffff");
    assert!(actual.is_err());
}

#[test]
fn illegal_char() {
    let actual = hex_string_to_bytes("fffgff");
    assert!(actual.is_err());
}

#[test]
fn odd_number_of_chars_message() {
    let actual = hex_string_to_bytes("fffff");
    assert_eq!(
        actual,
        Err(
            "There must be an even number of characters. Every two characters corresponds to a byte."
                .to_string()
        )
    );
}

#[test]
fn illegal_char_is_named() {
    assert_eq!(
        hex_string_to_bytes("fffgff"),
        Err("Invalid character: g".to_string())
    );
    assert_eq!(
        hex_string_to_bytes("zf"),
        Err("Invalid character: z".to_string())
    );
}

#[test]
fn first_illegal_char_wins_over_odd_length() {
    assert_eq!(
        hex_string_to_bytes("0x123"),
        Err("Invalid character: x".to_string())
    );
}

#[test]
fn illegal_last_char_of_odd_text_is_odd_length() {
    let actual = hex_string_to_bytes("ffg");
    assert_eq!(
        actual,
        Err(
            "There must be an even number of characters. Every two characters corresponds to a byte."
                .to_string()
        )
    );
}

#[test]
fn upper_case_is_no_digit() {
    assert_eq!(
        hex_string_to_bytes("AB"),
        Err("Invalid character: A".to_string())
    );
}

#[test]
fn every_digit_has_its_number() {
    let digits = "0123456789abcdef";
    let mut expected: u8 = 0;
    for digit in digits.chars() {
        assert_eq!(hex_to_number(digit), Some(expected));
        expected += 1;
    }
    assert_eq!(hex_to_number('g'), None);
    assert_eq!(hex_to_number('F'), None);
    assert_eq!(hex_to_number(' '), None);
    assert_eq!(hex_to_number('/'), None);
    assert_eq!(hex_to_number(':'), None);
    assert_eq!(hex_to_number('`'), None);
}

#[test]
fn first_digit_counts_sixteen_times() {
    assert_eq!(hex_string_to_bytes("10"), Ok(vec![16]));
    assert_eq!(hex_string_to_bytes("01"), Ok(vec![1]));
    assert_eq!(hex_string_to_bytes("a5"), Ok(vec![165]));
}

#[test]
fn api_key_of_zeros() {
    let text = "00".repeat(32);
    assert_eq!(hex_string_to_bytes(&text), Ok(vec![0u8; 32]));
}
