use key_derivation::{KeyDerivation, DERIVATION_FAILED};

#[test]
fn zero_salt_derivation_is_pinned() {
    let salt = KeyDerivation::from_number_to_salt(0);
    let key = KeyDerivation::derive_key("test", &salt).unwrap();
    let expected: [u8; 32] = [
        210, 53, 35, 205, 88, 28, 127, 80, 215, 13, 240, 7, 17, 62, 99, 244, 16, 251, 103, 224,
        146, 59, 5, 161, 162, 103, 6, 145, 72, 203, 115, 253,
    ];
    assert_eq!(key, expected);
    assert_eq!(KeyDerivation::derive_key("test", &salt).unwrap(), expected);
}

#[test]
fn derivation_is_deterministic() {
    let salt = [42u8; 16];
    let a = KeyDerivation::derive_key("correct horse", &salt).unwrap();
    let b = KeyDerivation::derive_key("correct horse", &salt).unwrap();
    assert_eq!(a, b);
}

#[test]
fn derivation_depends_on_every_bit() {
    let salt = [0u8; 16];
    let base = KeyDerivation::derive_key("test", &salt).unwrap();
    // "tesu" differs from "test" in the lowest bit of its last byte.
    assert_ne!(KeyDerivation::derive_key("tesu", &salt).unwrap(), base);
    let mut flipped = salt;
    flipped[15] ^= 1;
    assert_ne!(KeyDerivation::derive_key("test", &flipped).unwrap(), base);
}

#[test]
fn short_salts_are_refused() {
    assert_eq!(KeyDerivation::derive_key("test", &[0u8; 7]), Err(DERIVATION_FAILED));
    assert_eq!(KeyDerivation::derive_key("test", &[]), Err(DERIVATION_FAILED));
    assert!(KeyDerivation::derive_key("test", &[0u8; 8]).is_ok());
}

#[test]
fn empty_passphrase_is_accepted() {
    assert!(KeyDerivation::derive_key("", &[1u8; 16]).is_ok());
}

#[test]
fn engine_derives_with_its_own_salt() {
    let salt = [3u8; 16];
    let engine = KeyDerivation::with_salt(salt);
    assert_eq!(
        engine.create_key_from_passphrase("your secure passphrase"),
        KeyDerivation::derive_key("your secure passphrase", &salt)
    );
}

#[test]
fn engine_keys_round_trip_through_decimal() {
    let engine = KeyDerivation::new();
    let key = engine.create_key_from_passphrase("pass").unwrap();
    let encoded = KeyDerivation::key_to_string(&key);
    assert_eq!(KeyDerivation::key_from_string(&encoded), Ok(key));
}
