use key_derivation::{KeyDerivation, INVALID_KEY_FORMAT, INVALID_KEY_LENGTH};

const MAX_KEY_DECIMAL: &str =
    "115792089237316195423570985008687907853269984665640564039457584007913129639935";
const TOO_LARGE_DECIMAL: &str =
    "115792089237316195423570985008687907853269984665640564039457584007913129639936";

#[test]
fn zero_key_encodes_as_zero_and_back() {
    let key = [0u8; 32];
    let encoded = KeyDerivation::key_to_string(&key);
    assert_eq!(encoded, "0");
    assert_eq!(KeyDerivation::key_from_string(&encoded), Ok(key));
}

#[test]
fn key_encodes_as_big_endian_decimal() {
    let mut key = [0u8; 32];
    key[31] = 1;
    assert_eq!(KeyDerivation::key_to_string(&key), "1");
    key[30] = 1;
    assert_eq!(KeyDerivation::key_to_string(&key), "257");
    assert_eq!(KeyDerivation::key_to_string(&[0xffu8; 32]), MAX_KEY_DECIMAL);
}

#[test]
fn short_numbers_are_padded_on_the_left() {
    let mut expected = [0u8; 32];
    expected[30] = 0x03;
    expected[31] = 0xe8;
    assert_eq!(KeyDerivation::key_from_string("1000"), Ok(expected));
}

#[test]
fn largest_key_decodes() {
    assert_eq!(KeyDerivation::key_from_string(MAX_KEY_DECIMAL), Ok([0xffu8; 32]));
}

#[test]
fn keys_round_trip_through_decimal() {
    let mut leading_zeros = [0u8; 32];
    for (i, b) in leading_zeros.iter_mut().enumerate().skip(5) {
        *b = (i * 37) as u8;
    }
    let mut full = [0u8; 32];
    for (i, b) in full.iter_mut().enumerate() {
        *b = 255 - i as u8;
    }
    for key in [leading_zeros, full, [0u8; 32], [0xffu8; 32]] {
        let encoded = KeyDerivation::key_to_string(&key);
        assert_eq!(KeyDerivation::key_from_string(&encoded), Ok(key));
    }
}

#[test]
fn non_numeric_strings_are_malformed() {
    for s in ["", "abc", "12a", "-1", "+", "++1", "_1", " 1", "1.5", "0x10"] {
        assert_eq!(KeyDerivation::key_from_string(s), Err(INVALID_KEY_FORMAT), "{}", s);
    }
}

#[test]
fn sign_and_separators_are_accepted() {
    let mut expected = [0u8; 32];
    expected[31] = 5;
    assert_eq!(KeyDerivation::key_from_string("+5"), Ok(expected));
    expected[30] = 0x03;
    expected[31] = 0xe8;
    assert_eq!(KeyDerivation::key_from_string("1_000"), Ok(expected));
}

#[test]
fn values_over_32_bytes_are_too_long() {
    assert_eq!(KeyDerivation::key_from_string(TOO_LARGE_DECIMAL), Err(INVALID_KEY_LENGTH));
    let huge = "9".repeat(100);
    assert_eq!(KeyDerivation::key_from_string(&huge), Err(INVALID_KEY_LENGTH));
}
