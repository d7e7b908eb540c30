//! Passphrase-based key derivation with a memory-hard hash, and lossless
//! numeric encodings for the salt (a `u128`) and the derived key (a decimal
//! string).

pub mod bytes;
pub mod decimal;
pub mod primitives;
pub mod engine;

pub use engine::{
    KeyDerivation, DERIVATION_FAILED, INVALID_KEY_FORMAT, INVALID_KEY_LENGTH, KEY_LEN, SALT_LEN,
};
