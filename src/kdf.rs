//! Memory-hard password hashing (for authentication) and key derivation
//! (for encryption), both Argon2id.

use base64::Engine;
use argon2::password_hash::{PasswordHash, PasswordHasher, PasswordVerifier, SaltString};
use vstd::prelude::*;
use vstd::string::StringSliceAdditionalSpecFns;

use crate::random::random_bytes;

verus! {

/// Argon2id memory cost in KiB (64 MiB).
pub const ARGON_M_COST: u32 = 65536;

/// Argon2id passes.
pub const ARGON_T_COST: u32 = 3;

/// Argon2id lanes.
pub const ARGON_P_COST: u32 = 4;

/// Length of a derived key.
pub const DERIVED_KEY_LEN: usize = 32;

/// Length of a freshly drawn authentication salt.
pub const AUTH_SALT_LEN: usize = 16;

/// Length of a freshly drawn encryption salt.
pub const ENCRYPTION_SALT_LEN: usize = 32;

/// Shortest salt Argon2 accepts.
pub const MIN_SALT_LEN: usize = 8;

/// Longest password or salt Argon2 accepts (2^32 - 1 bytes).
pub const MAX_ARGON_INPUT_LEN: u64 = 4294967295;

/// Why hashing or derivation failed.
#[derive(Debug, Clone, Copy, PartialEq, Eq, Structural)]
pub enum KdfError {
    /// The salt is shorter than 8 bytes, or the salt or password is too long.
    InvalidInput,
    /// The password hasher reported an error.
    HashingFailed,
    /// A given salt is not unpadded standard base64.
    InvalidSalt,
}

/// Argon2 accepts these costs: 1 to 2^24 - 1 lanes, at least 8 KiB of
/// memory per lane, at least one pass.
pub open spec fn argon2_params_ok(m_cost: u32, t_cost: u32, p_cost: u32) -> bool {
    1 <= p_cost <= 16777215 && m_cost >= 8 * p_cost && t_cost >= 1
}

/// The 32-byte Argon2id (version 0x13) output for a password and salt under
/// the given memory (KiB), pass and lane counts.
pub uninterp spec fn argon2id_key(
    password: Seq<u8>,
    salt: Seq<u8>,
    m_cost: u32,
    t_cost: u32,
    p_cost: u32,
) -> Seq<u8>;

/// The PHC-format Argon2id (version 0x13) hash string for a password and
/// salt under the given costs.
pub uninterp spec fn argon2id_phc(
    password: Seq<u8>,
    salt: Seq<u8>,
    m_cost: u32,
    t_cost: u32,
    p_cost: u32,
) -> Seq<char>;

/// The data-encryption key of this vault: Argon2id at 64 MiB, 3 passes,
/// 4 lanes.
pub open spec fn vault_key(password: Seq<u8>, salt: Seq<u8>) -> Seq<u8> {
    argon2id_key(password, salt, ARGON_M_COST, ARGON_T_COST, ARGON_P_COST)
}

/// The stored password hash of this vault, with the same costs.
pub open spec fn vault_phc(password: Seq<u8>, salt: Seq<u8>) -> Seq<char> {
    argon2id_phc(password, salt, ARGON_M_COST, ARGON_T_COST, ARGON_P_COST)
}

/// Whether a PHC hash string parses and matches the password.
pub uninterp spec fn phc_matches(password: Seq<u8>, phc: Seq<char>) -> bool;

/// Unpadded standard base64 text of some bytes.
pub uninterp spec fn base64_unpadded(bytes: Seq<u8>) -> Seq<char>;

/// The bytes of an unpadded standard base64 text, if it is one.
pub uninterp spec fn base64_unpadded_decoded(text: Seq<char>) -> Option<Seq<u8>>;

/// Relies on argon2::Params::new and Argon2::hash_password_into with
/// Argon2id and version 0x13: with valid costs it fails only on a salt
/// shorter than 8 bytes or a salt or password longer than 2^32 - 1 bytes,
/// and its output depends on its arguments alone.
#[verifier::external_body]
fn argon2id_derive(password: &[u8], salt: &[u8], m_cost: u32, t_cost: u32, p_cost: u32) -> (r:
    Option<[u8; 32]>)
    requires
        argon2_params_ok(m_cost, t_cost, p_cost),
    ensures
        r is Some <==> (MIN_SALT_LEN <= salt@.len() <= MAX_ARGON_INPUT_LEN && password@.len()
            <= MAX_ARGON_INPUT_LEN),
        r matches Some(k) ==> k@ == argon2id_key(password@, salt@, m_cost, t_cost, p_cost),
{
    let params = argon2::Params::new(m_cost, t_cost, p_cost, Some(32)).ok()?;
    let hasher = argon2::Argon2::new(argon2::Algorithm::Argon2id, argon2::Version::V0x13, params);
    let mut key = [0u8; 32];
    hasher.hash_password_into(password, salt, &mut key).ok()?;
    Some(key)
}

/// Relies on argon2's PasswordHasher::hash_password (Argon2id, version
/// 0x13) over the salt encoded by SaltString::encode_b64: the PHC string
/// depends on its arguments alone, and with a 16-byte salt and valid costs
/// it fails only for a password longer than 2^32 - 1 bytes.
#[verifier::external_body]
fn argon2id_hash(password: &[u8], salt: &[u8], m_cost: u32, t_cost: u32, p_cost: u32) -> (r:
    Option<String>)
    requires
        salt@.len() == AUTH_SALT_LEN,
        argon2_params_ok(m_cost, t_cost, p_cost),
    ensures
        r matches Some(h) ==> h@ == argon2id_phc(password@, salt@, m_cost, t_cost, p_cost),
        password@.len() <= MAX_ARGON_INPUT_LEN ==> r is Some,
{
    let params = argon2::Params::new(m_cost, t_cost, p_cost, Some(32)).ok()?;
    let hasher = argon2::Argon2::new(argon2::Algorithm::Argon2id, argon2::Version::V0x13, params);
    let salt = SaltString::encode_b64(salt).ok()?;
    Some(hasher.hash_password(password, &salt).ok()?.to_string())
}

/// Relies on argon2::password_hash::PasswordHash::new and
/// PasswordVerifier::verify_password, which recomputes the hash with the
/// parameters recorded in the PHC string: true when the string parses and
/// the password matches, false otherwise.
#[verifier::external_body]
fn argon2_verify(password: &[u8], phc: &str) -> (r: bool)
    ensures
        r == phc_matches(password@, phc@),
{
    match PasswordHash::new(phc) {
        Ok(parsed) => argon2::Argon2::default().verify_password(password, &parsed).is_ok(),
        Err(_) => false,
    }
}

/// Relies on base64's STANDARD_NO_PAD engine: standard-alphabet base64
/// without `=` padding.
#[verifier::external_body]
pub(crate) fn base64_encode_unpadded(bytes: &[u8]) -> (r: String)
    ensures
        r@ == base64_unpadded(bytes@),
{
    base64::engine::general_purpose::STANDARD_NO_PAD.encode(bytes)
}

/// Relies on base64's STANDARD_NO_PAD engine: `decode` refuses padding and
/// non-canonical trailing bits, so what it accepts encodes back to the
/// same text.
#[verifier::external_body]
pub(crate) fn base64_decode_unpadded(text: &str) -> (r: Option<Vec<u8>>)
    ensures
        r matches Some(b) ==> base64_unpadded_decoded(text@) == Some(b@) && base64_unpadded(b@)
            == text@,
        r is None ==> base64_unpadded_decoded(text@) is None,
{
    base64::engine::general_purpose::STANDARD_NO_PAD.decode(text).ok()
}

/// A stored password verifier: the PHC hash string and its salt (unpadded
/// base64).
pub struct PasswordRecord {
    pub hash: String,
    pub salt: String,
}

/// Hash a password under a fresh random 16-byte salt.
pub fn hash_password(password: &str) -> (r: Result<PasswordRecord, KdfError>)
    ensures
        password.spec_bytes().len() <= MAX_ARGON_INPUT_LEN ==> r is Ok,
        r is Err ==> r == Err::<PasswordRecord, KdfError>(KdfError::HashingFailed),
        r matches Ok(rec) ==> exists|salt: Seq<u8>|
            {
                &&& salt.len() == AUTH_SALT_LEN
                &&& #[trigger] vault_phc(password.spec_bytes(), salt) == rec.hash@
                &&& rec.salt@ == base64_unpadded(salt)
            },
{
    let salt = random_bytes(AUTH_SALT_LEN);
    match argon2id_hash(password.as_bytes(), salt.as_slice(), ARGON_M_COST, ARGON_T_COST, ARGON_P_COST) {
        Some(hash) => {
            let salt_text = base64_encode_unpadded(salt.as_slice());
            assert(vault_phc(password.spec_bytes(), salt@) == hash@);
            Ok(PasswordRecord { hash, salt: salt_text })
        },
        None => Err(KdfError::HashingFailed),
    }
}

/// Check a password against a stored PHC hash. A malformed hash and a wrong
/// password both give `false`.
pub fn verify_password(password: &str, hash: &str) -> (r: bool)
    ensures
        r == phc_matches(password.spec_bytes(), hash@),
{
    argon2_verify(password.as_bytes(), hash)
}

/// What deriving a key from a password and salt yields.
pub open spec fn derivation_of(password: Seq<u8>, salt: Seq<u8>) -> Result<Seq<u8>, KdfError> {
    if MIN_SALT_LEN <= salt.len() <= MAX_ARGON_INPUT_LEN && password.len() <= MAX_ARGON_INPUT_LEN {
        Ok(vault_key(password, salt))
    } else {
        Err(KdfError::InvalidInput)
    }
}

/// Key derivation is deterministic: the same password and salt give the
/// same result, so two derivations of one key agree byte for byte.
pub proof fn lemma_derivation_deterministic(
    password1: Seq<u8>,
    salt1: Seq<u8>,
    password2: Seq<u8>,
    salt2: Seq<u8>,
)
    requires
        password1 == password2,
        salt1 == salt2,
    ensures
        derivation_of(password1, salt1) == derivation_of(password2, salt2),
{
}

/// The view of a derivation result.
pub open spec fn key_view(r: Result<[u8; 32], KdfError>) -> Result<Seq<u8>, KdfError> {
    match r {
        Ok(k) => Ok(k@),
        Err(e) => Err(e),
    }
}

/// Derive the 32-byte data-encryption key from the password and the
/// encryption salt. The result is a function of the two inputs alone.
pub fn derive_encryption_key(password: &str, encryption_salt: &[u8]) -> (r: Result<
    [u8; 32],
    KdfError,
>)
    ensures
        key_view(r) == derivation_of(password.spec_bytes(), encryption_salt@),
{
    match argon2id_derive(password.as_bytes(), encryption_salt, ARGON_M_COST, ARGON_T_COST, ARGON_P_COST) {
        Some(k) => Ok(k),
        None => Err(KdfError::InvalidInput),
    }
}

} // verus!
