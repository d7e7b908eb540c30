//! The key derivation engine: a salt drawn once at construction, a validated
//! Argon2 parameter set, key derivation, and the numeric encodings of salts and
//! keys.

use vstd::prelude::*;
use vstd::string::StringSliceAdditionalSpecFns;
use crate::bytes::{
    be_bytes, be_value, lemma_be_bytes_of_value, lemma_be_value_bound, lemma_be_value_of_bytes, lemma_minimal_len, lemma_pad_minimal, minimal_be,
    pow256, zeros,
};
use crate::decimal::{decimal, is_numeral, lemma_decimal_is_numeral, numeral_value};
use crate::primitives::{
    argon2_default_key, argon2_hash, be_bytes_of_decimal, decimal_of_be_bytes, random_salt,
    ARGON2_MAX_INPUT_LEN, ARGON2_MIN_SALT_LEN,
};

verus! {

/// Memory cost of the engine's parameter set, in KiB.
pub const MEMORY_COST_KIB: u32 = 32 * 1024;

/// Number of passes of the engine's parameter set.
pub const TIME_COST: u32 = 2;

/// Degree of parallelism of the engine's parameter set.
pub const PARALLELISM: u32 = 1;

/// Length of a derived key, in bytes.
pub const KEY_LEN: usize = 32;

/// Length of a salt, in bytes.
pub const SALT_LEN: usize = 16;

/// Error returned when Argon2 refuses its inputs.
pub const DERIVATION_FAILED: &'static str = "Failed to derive key using Argon2";

/// Error returned when a key string is not a decimal numeral.
pub const INVALID_KEY_FORMAT: &'static str = "Invalid key string format";

/// Error returned when a key string's value does not fit in 32 bytes.
pub const INVALID_KEY_LENGTH: &'static str = "Invalid key length";

/// Whether Argon2 accepts a password and salt of these contents.
pub open spec fn derivation_accepts(pwd: Seq<u8>, salt: Seq<u8>) -> bool {
    &&& pwd.len() <= ARGON2_MAX_INPUT_LEN
    &&& ARGON2_MIN_SALT_LEN <= salt.len() <= ARGON2_MAX_INPUT_LEN
}

/// What deriving a key from `pwd` (as UTF-8 bytes) and `salt` gives.
pub open spec fn derivation_result(pwd: Seq<u8>, salt: Seq<u8>) -> Result<Seq<u8>, &'static str> {
    if derivation_accepts(pwd, salt) {
        Ok(argon2_default_key(pwd, salt))
    } else {
        Err(DERIVATION_FAILED)
    }
}

/// What decoding the key string `s` gives.
pub open spec fn key_decoding(s: Seq<char>) -> Result<Seq<u8>, &'static str> {
    if !is_numeral(s) {
        Err(INVALID_KEY_FORMAT)
    } else if numeral_value(s) >= pow256(KEY_LEN as nat) {
        Err(INVALID_KEY_LENGTH)
    } else {
        Ok(be_bytes(numeral_value(s), KEY_LEN as nat))
    }
}

/// The view of a `Result` holding a byte array.
pub open spec fn result_view<const N: usize>(r: Result<[u8; N], &'static str>) -> Result<
    Seq<u8>,
    &'static str,
> {
    match r {
        Ok(a) => Ok(a@),
        Err(e) => Err(e),
    }
}

/// A key derivation engine. Its salt is fixed at construction. Its parameter
/// set (32 MiB, 2 passes, 1 lane, 32-byte output) is validated and kept as the
/// engine's configuration; the derivation itself runs Argon2 with the
/// algorithm's own default costs, as the static `derive_key` does.
pub struct KeyDerivation {
    salt: [u8; 16],
    params: argon2::Params,
}

impl KeyDerivation {
    /// The engine's salt.
    pub closed spec fn spec_salt(&self) -> Seq<u8> {
        self.salt@
    }

    /// An engine with a fresh salt from the operating system's secure random
    /// source.
    pub fn new() -> (r: Self)
        ensures
            r.spec_salt().len() == SALT_LEN,
    {
        Self::with_salt(random_salt())
    }

    /// An engine with the given salt, for callers that supply their own
    /// source of randomness.
    pub fn with_salt(salt: [u8; 16]) -> (r: Self)
        ensures
            r.spec_salt() == salt@,
    {
        let params = match argon2::Params::new(
            MEMORY_COST_KIB,
            TIME_COST,
            PARALLELISM,
            Some(KEY_LEN),
        ) {
            Ok(p) => p,
            Err(_) => vstd::pervasive::unreached(),
        };
        KeyDerivation { salt, params }
    }

    /// Derives the 32-byte key of `passphrase` under `salt`. Fails only where
    /// Argon2 refuses the inputs: a salt shorter than 8 bytes, or an input
    /// longer than `0xFFFFFFFF` bytes.
    pub fn derive_key(passphrase: &str, salt: &[u8]) -> (r: Result<[u8; 32], &'static str>)
        ensures
            result_view(r) == derivation_result(passphrase.spec_bytes(), salt@),
    {
        match argon2_hash(passphrase.as_bytes(), salt) {
            Ok(key) => Ok(key),
            Err(_) => Err(DERIVATION_FAILED),
        }
    }

    /// The decimal form of `key` read as a big-endian integer.
    pub fn key_to_string(key: &[u8; 32]) -> (r: String)
        ensures
            r@ == decimal(be_value(key@)),
    {
        decimal_of_be_bytes(key.as_slice())
    }

    /// Reads a key back from its decimal form. Values with leading zero bytes
    /// have shorter forms and are padded on the left.
    pub fn key_from_string(encoded: &str) -> (r: Result<[u8; 32], &'static str>)
        ensures
            result_view(r) == key_decoding(encoded@),
    {
        let bytes = match be_bytes_of_decimal(encoded) {
            Ok(b) => b,
            Err(_) => {
                return Err(INVALID_KEY_FORMAT);
            },
        };
        let ghost n = numeral_value(encoded@);
        proof {
            lemma_minimal_len(n, KEY_LEN as nat);
        }
        if bytes.len() > KEY_LEN {
            return Err(INVALID_KEY_LENGTH);
        }
        let start: usize = KEY_LEN - bytes.len();
        let mut key = [0u8; 32];
        let mut j: usize = 0;
        while j < bytes.len()
            invariant
                bytes@ == minimal_be(n),
                bytes@.len() <= KEY_LEN,
                start == KEY_LEN - bytes@.len(),
                j <= bytes@.len(),
                key@.len() == KEY_LEN,
                forall|i: int| 0 <= i < start + j ==> #[trigger] key@[i] == (zeros(start as nat)
                    + bytes@)[i],
                forall|i: int| start + j <= i < KEY_LEN ==> #[trigger] key@[i] == 0,
            decreases bytes@.len() - j,
        {
            key.set(start + j, bytes[j]);
            j = j + 1;
        }
        proof {
            lemma_pad_minimal(n, KEY_LEN as nat);
            assert(key@ =~= zeros(start as nat) + bytes@);
        }
        Ok(key)
    }

    /// Derives the key of `passphrase` under the engine's own salt.
    pub fn create_key_from_passphrase(&self, passphrase: &str) -> (r: Result<[u8; 32], &'static str>)
        ensures
            result_view(r) == derivation_result(passphrase.spec_bytes(), self.spec_salt()),
    {
        Self::derive_key(passphrase, self.salt.as_slice())
    }

    /// The engine's salt read as a big-endian 128-bit integer.
    pub fn get_salt_as_number(&self) -> (r: u128)
        ensures
            r == be_value(self.spec_salt()),
    {
        let mut acc: u128 = 0;
        let mut i: usize = 0;
        while i < SALT_LEN
            invariant
                i <= SALT_LEN,
                self.salt@.len() == SALT_LEN,
                acc == be_value(self.salt@.take(i as int)),
            decreases SALT_LEN - i,
        {
            proof {
                lemma_be_value_bound(self.salt@.take(i as int));
                reveal_with_fuel(pow256, 17);
                assert(self.salt@.take(i + 1).drop_last() =~= self.salt@.take(i as int));
                assert(pow256(i as nat) <= pow256(15)) by {
                    lemma_pow256_monotonic(i as nat, 15);
                }
            }
            acc = acc * 256 + self.salt[i] as u128;
            i = i + 1;
        }
        assert(self.salt@.take(SALT_LEN as int) =~= self.salt@);
        acc
    }

    /// The 16-byte big-endian form of `number`.
    pub fn from_number_to_salt(number: u128) -> (r: [u8; 16])
        ensures
            r@ == be_bytes(number as nat, SALT_LEN as nat),
    {
        let mut salt = [0u8; 16];
        let mut m: u128 = number;
        let mut i: usize = SALT_LEN;
        while i > 0
            invariant
                i <= SALT_LEN,
                salt@.len() == SALT_LEN,
                be_bytes(number as nat, SALT_LEN as nat) == be_bytes(m as nat, i as nat)
                    + salt@.subrange(i as int, SALT_LEN as int),
            decreases i,
        {
            let ghost before = salt@;
            salt.set(i - 1, (m % 256) as u8);
            proof {
                assert(salt@.subrange(i - 1, SALT_LEN as int) =~= seq![(m % 256) as u8]
                    + before.subrange(i as int, SALT_LEN as int));
                assert(be_bytes(m as nat, i as nat) + before.subrange(i as int, SALT_LEN as int)
                    =~= be_bytes((m / 256) as nat, (i - 1) as nat) + salt@.subrange(
                    i - 1,
                    SALT_LEN as int,
                ));
            }
            m = m / 256;
            i = i - 1;
        }
        assert(salt@.subrange(0, SALT_LEN as int) =~= salt@);
        salt
    }
}

/// Writing a salt's number back as a salt gives the salt, for every 16-byte
/// salt.
pub proof fn lemma_salt_round_trip(salt: [u8; 16])
    ensures
        be_bytes(be_value(salt@), SALT_LEN as nat) == salt@,
{
    lemma_be_bytes_of_value(salt@);
}

/// Every 128-bit number is the number of the salt written from it, so the
/// salt encoding is a bijection.
pub proof fn lemma_number_round_trip(number: u128)
    ensures
        be_value(be_bytes(number as nat, SALT_LEN as nat)) == number,
{
    lemma_be_value_of_bytes(number as nat, SALT_LEN as nat);
    reveal_with_fuel(pow256, 17);
    vstd::arithmetic::div_mod::lemma_small_mod(number as nat, pow256(SALT_LEN as nat));
}

/// Decoding the decimal form of any 32-byte key gives the key back, leading
/// zero bytes included.
pub proof fn lemma_key_round_trip(key: [u8; 32])
    ensures
        key_decoding(decimal(be_value(key@))) == Ok::<Seq<u8>, &'static str>(key@),
{
    lemma_decimal_is_numeral(be_value(key@));
    lemma_be_value_bound(key@);
    lemma_be_bytes_of_value(key@);
}

/// A string that is not a decimal numeral is refused as malformed, and a
/// numeral whose shortest big-endian form is longer than 32 bytes is refused
/// for its length.
pub proof fn lemma_decoding_refusals(s: Seq<char>)
    ensures
        !is_numeral(s) ==> key_decoding(s) == Err::<Seq<u8>, &'static str>(INVALID_KEY_FORMAT),
        is_numeral(s) && minimal_be(numeral_value(s)).len() > KEY_LEN ==> key_decoding(s) == Err::<
            Seq<u8>,
            &'static str,
        >(INVALID_KEY_LENGTH),
        is_numeral(s) && minimal_be(numeral_value(s)).len() <= KEY_LEN ==> key_decoding(s) is Ok,
{
    lemma_minimal_len(numeral_value(s), KEY_LEN as nat);
}

/// Derivation depends on the passphrase and the salt alone: equal inputs give
/// equal results.
pub proof fn lemma_derivation_deterministic(p1: Seq<u8>, s1: Seq<u8>, p2: Seq<u8>, s2: Seq<u8>)
    requires
        p1 == p2,
        s1 == s2,
    ensures
        derivation_result(p1, s1) == derivation_result(p2, s2),
{
}

proof fn lemma_pow256_monotonic(a: nat, b: nat)
    requires
        a <= b,
    ensures
        pow256(a) <= pow256(b),
    decreases b,
{
    if a < b {
        lemma_pow256_monotonic(a, (b - 1) as nat);
    }
}

} // verus!
