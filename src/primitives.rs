//! The calls into argon2, num-bigint and rand, each with the contract that the
//! crate's source shows.

use vstd::prelude::*;
use crate::bytes::{be_value, minimal_be};
use crate::decimal::{decimal, is_numeral, numeral_value};
use argon2::Argon2;
use num_bigint::BigUint;
use rand::rngs::OsRng;
use rand::RngCore;

verus! {

#[verifier::external_type_specification]
#[verifier::external_body]
pub struct ExArgon2Params(argon2::Params);

#[verifier::external_type_specification]
#[verifier::external_body]
pub struct ExArgon2Error(argon2::Error);

#[verifier::external_type_specification]
#[verifier::external_body]
pub struct ExParseBigIntError(num_bigint::ParseBigIntError);

/// Longest password and longest salt that argon2 accepts, in bytes.
pub const ARGON2_MAX_INPUT_LEN: usize = 0xFFFF_FFFF;

/// Shortest salt that argon2 accepts, in bytes.
pub const ARGON2_MIN_SALT_LEN: usize = 8;

/// Relies on `argon2::Params::new`: it accepts a parameter set exactly when
/// the memory cost is at least 8 KiB and at least 8 KiB per lane, there is at
/// least one pass, the lane count lies in `1..=0xFFFFFF`, and a requested
/// output length lies in `4..=0xFFFFFFFF`. Its check `m_cost < p_cost * 8`
/// must not overflow.
pub assume_specification[ argon2::Params::new ](
    m_cost: u32,
    t_cost: u32,
    p_cost: u32,
    output_len: Option<usize>,
) -> (r: Result<argon2::Params, argon2::Error>)
    requires
        p_cost * 8 <= u32::MAX,
    ensures
        r is Ok <==> {
            &&& m_cost >= 8
            &&& m_cost >= p_cost * 8
            &&& t_cost >= 1
            &&& 1 <= p_cost <= 0xFF_FFFF
            &&& output_len matches Some(len) ==> 4 <= len <= 0xFFFF_FFFF
        },
;

/// The 32-byte Argon2id (version 0x13) digest of `pwd` under `salt`, with the
/// crate's default costs (19 MiB of memory, 2 passes, 1 lane).
pub uninterp spec fn argon2_default_key(pwd: Seq<u8>, salt: Seq<u8>) -> Seq<u8>;

/// Relies on `argon2::Argon2::default()` and `Argon2::hash_password_into`:
/// into a 32-byte buffer it fails only on a password longer than
/// `0xFFFFFFFF` bytes or a salt outside `8..=0xFFFFFFFF` bytes, and otherwise
/// fills the buffer with the digest, which depends on its inputs alone.
#[verifier::external_body]
pub(crate) fn argon2_hash(pwd: &[u8], salt: &[u8]) -> (r: Result<[u8; 32], argon2::Error>)
    ensures
        r is Ok <==> {
            &&& pwd@.len() <= ARGON2_MAX_INPUT_LEN
            &&& ARGON2_MIN_SALT_LEN <= salt@.len() <= ARGON2_MAX_INPUT_LEN
        },
        r matches Ok(key) ==> key@ == argon2_default_key(pwd@, salt@),
{
    let mut key = [0u8; 32];
    match Argon2::default().hash_password_into(pwd, salt, &mut key) {
        Ok(()) => Ok(key),
        Err(e) => Err(e),
    }
}

/// Relies on `BigUint::from_bytes_be` (the value of the bytes, big-endian;
/// zero for none) and on `BigUint`'s `Display`, which writes the value in
/// decimal without leading zeros, `"0"` for zero.
#[verifier::external_body]
pub(crate) fn decimal_of_be_bytes(b: &[u8]) -> (r: String)
    ensures
        r@ == decimal(be_value(b@)),
{
    BigUint::from_bytes_be(b).to_string()
}

/// Relies on `BigUint`'s `FromStr` (radix 10: an optional `'+'`, then a digit,
/// then digits and `'_'`) and on `BigUint::to_bytes_be`, which gives the
/// shortest big-endian bytes of the value, `[0]` for zero.
#[verifier::external_body]
pub(crate) fn be_bytes_of_decimal(s: &str) -> (r: Result<Vec<u8>, num_bigint::ParseBigIntError>)
    ensures
        r is Ok <==> is_numeral(s@),
        r matches Ok(b) ==> b@ == minimal_be(numeral_value(s@)),
{
    match s.parse::<BigUint>() {
        Ok(n) => Ok(n.to_bytes_be()),
        Err(e) => Err(e),
    }
}

/// Relies on `OsRng::fill_bytes`: 16 bytes from the operating system's secure
/// random source. Nothing is known of them.
#[verifier::external_body]
pub(crate) fn random_salt() -> (r: [u8; 16]) {
    let mut salt = [0u8; 16];
    OsRng.fill_bytes(&mut salt);
    salt
}

} // verus!
