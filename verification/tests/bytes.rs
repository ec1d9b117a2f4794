use read_color::{char_to_hex, hex_pair};

const DIGITS: &str = "0123456789ABCDEFabcdef";

#[test]
fn one_a_is_twenty_six() {
    let mut chars = "1A".chars();
    assert_eq!(hex_pair(&mut chars), Some(26));
    assert_eq!(chars.as_str(), "");
}

#[test]
fn every_pair_of_digits_joins_high_then_low() {
    for h1 in DIGITS.chars() {
        for h2 in DIGITS.chars() {
            let text = format!("{}{}", h1, h2);
            let mut chars = text.chars();
            let high = char_to_hex(h1).unwrap();
            let low = char_to_hex(h2).unwrap();
            assert_eq!(hex_pair(&mut chars), Some((high << 4) | low), "{}", text);
            assert_eq!(chars.as_str(), "", "{}", text);
        }
    }
}

#[test]
fn every_byte_is_read_back_from_its_two_digits() {
    for byte in 0..=255u8 {
        for text in [format!("{:02X}", byte), format!("{:02x}", byte)] {
            let mut chars = text.chars();
            assert_eq!(hex_pair(&mut chars), Some(byte), "{}", text);
            assert_eq!(chars.as_str(), "");
        }
    }
}

#[test]
fn extremes_of_a_byte() {
    assert_eq!(hex_pair(&mut "00".chars()), Some(0));
    assert_eq!(hex_pair(&mut "0f".chars()), Some(15));
    assert_eq!(hex_pair(&mut "10".chars()), Some(16));
    assert_eq!(hex_pair(&mut "F0".chars()), Some(240));
    assert_eq!(hex_pair(&mut "fF".chars()), Some(255));
}

#[test]
fn empty_input_fails_and_nothing_is_taken() {
    let mut chars = "".chars();
    assert_eq!(hex_pair(&mut chars), None);
    assert_eq!(chars.as_str(), "");
}

#[test]
fn lone_digit_fails_and_is_taken() {
    for digit in DIGITS.chars() {
        let text = format!("{}", digit);
        let mut chars = text.chars();
        assert_eq!(hex_pair(&mut chars), None, "{}", text);
        assert_eq!(chars.as_str(), "");
        assert_eq!(chars.next(), None);
    }
}

#[test]
fn bad_first_character_is_the_only_one_taken() {
    let mut chars = "G1A".chars();
    assert_eq!(hex_pair(&mut chars), None);
    assert_eq!(chars.as_str(), "1A");
    assert_eq!(hex_pair(&mut chars), Some(26));
}

#[test]
fn bad_second_character_is_taken_with_the_first() {
    let mut chars = "1G2B".chars();
    assert_eq!(hex_pair(&mut chars), None);
    assert_eq!(chars.as_str(), "2B");
    assert_eq!(hex_pair(&mut chars), Some(43));
}

#[test]
fn only_two_characters_are_taken_on_success() {
    let mut chars = "1A2B".chars();
    assert_eq!(hex_pair(&mut chars), Some(26));
    assert_eq!(chars.as_str(), "2B");
    assert_eq!(hex_pair(&mut chars), Some(43));
    assert_eq!(chars.as_str(), "");
    assert_eq!(hex_pair(&mut chars), None);
}

#[test]
fn a_prefix_sign_is_not_skipped() {
    let mut chars = "#FF".chars();
    assert_eq!(hex_pair(&mut chars), None);
    assert_eq!(chars.as_str(), "FF");
}
