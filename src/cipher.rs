//! Authenticated encryption of opaque byte blobs with AES-256-GCM.

use aes_gcm::aead::{Aead, KeyInit};
use vstd::prelude::*;

use crate::random::random_bytes;

verus! {

/// Key length of AES-256.
pub const KEY_LEN: usize = 32;

/// Length of a GCM nonce.
pub const NONCE_LEN: usize = 12;

/// Length of the authentication tag appended to every ciphertext.
pub const TAG_LEN: usize = 16;

/// Longest plaintext that AES-GCM accepts (2^36 bytes).
pub const MAX_PLAINTEXT_LEN: u64 = 68719476736;

/// Why an encryption or decryption failed.
#[derive(Debug, Clone, Copy, PartialEq, Eq, Structural)]
pub enum CipherError {
    /// The key is not 32 bytes long.
    InvalidKeyLength,
    /// The nonce is not 12 bytes long.
    InvalidNonceLength,
    /// The plaintext is longer than the cipher accepts.
    EncryptionFailed,
    /// The tag did not verify: wrong key, or corrupted ciphertext or nonce.
    DecryptionFailed,
    /// The decrypted bytes are not UTF-8 text.
    InvalidUtf8,
}

impl CipherError {
    /// The user-facing text of the error.
    pub fn message(&self) -> (r: &'static str)
        ensures
            *self == CipherError::InvalidKeyLength ==> r@ == "Invalid key length"@,
            *self == CipherError::InvalidNonceLength ==> r@ == "Invalid nonce length"@,
            *self == CipherError::EncryptionFailed ==> r@ == "Encryption failed"@,
            *self == CipherError::DecryptionFailed ==> r@ == "Decryption failed — wrong password or corrupted data"@,
            *self == CipherError::InvalidUtf8 ==> r@ == "Decrypted data is not valid UTF-8"@,
    {
        match self {
            CipherError::InvalidKeyLength => "Invalid key length",
            CipherError::InvalidNonceLength => "Invalid nonce length",
            CipherError::EncryptionFailed => "Encryption failed",
            CipherError::DecryptionFailed => "Decryption failed — wrong password or corrupted data",
            CipherError::InvalidUtf8 => "Decrypted data is not valid UTF-8",
        }
    }
}

/// AES-256-GCM encryption (no associated data): ciphertext followed by the tag.
pub uninterp spec fn aes256gcm_seal(key: Seq<u8>, nonce: Seq<u8>, plaintext: Seq<u8>) -> Seq<u8>;

/// AES-256-GCM decryption: the plaintext when the tag verifies, else nothing.
pub uninterp spec fn aes256gcm_open(key: Seq<u8>, nonce: Seq<u8>, ciphertext: Seq<u8>) -> Option<
    Seq<u8>,
>;

/// Relies on aes_gcm::Aes256Gcm's `Aead::encrypt`: it fails only when the
/// plaintext exceeds 2^36 bytes, appends a 16-byte tag, and what it returns
/// decrypts under the same key and nonce to the plaintext.
#[verifier::external_body]
fn aes_gcm_seal(key: &[u8], nonce: &[u8], plaintext: &[u8]) -> (r: Option<Vec<u8>>)
    requires
        key@.len() == KEY_LEN,
        nonce@.len() == NONCE_LEN,
    ensures
        r is Some <==> plaintext@.len() <= MAX_PLAINTEXT_LEN,
        r matches Some(c) ==> {
            &&& c@ == aes256gcm_seal(key@, nonce@, plaintext@)
            &&& c@.len() == plaintext@.len() + TAG_LEN
            &&& aes256gcm_open(key@, nonce@, c@) == Some(plaintext@)
        },
{
    let cipher = aes_gcm::Aes256Gcm::new_from_slice(key).ok()?;
    let nonce: [u8; 12] = nonce.try_into().ok()?;
    cipher.encrypt(&nonce.into(), plaintext).ok()
}

/// Relies on aes_gcm::Aes256Gcm's `Aead::decrypt`: the plaintext when the
/// tag verifies under the key and nonce, an error otherwise.
#[verifier::external_body]
fn aes_gcm_open(key: &[u8], nonce: &[u8], ciphertext: &[u8]) -> (r: Option<Vec<u8>>)
    requires
        key@.len() == KEY_LEN,
        nonce@.len() == NONCE_LEN,
    ensures
        r matches Some(p) ==> aes256gcm_open(key@, nonce@, ciphertext@) == Some(p@),
        r is None ==> aes256gcm_open(key@, nonce@, ciphertext@) is None,
{
    let cipher = aes_gcm::Aes256Gcm::new_from_slice(key).ok()?;
    let nonce: [u8; 12] = nonce.try_into().ok()?;
    cipher.decrypt(&nonce.into(), ciphertext).ok()
}

/// What decrypting `ciphertext` under `key` and `nonce` yields.
pub open spec fn decryption_of(key: Seq<u8>, ciphertext: Seq<u8>, nonce: Seq<u8>) -> Result<
    Seq<u8>,
    CipherError,
> {
    if key.len() != KEY_LEN {
        Err(CipherError::InvalidKeyLength)
    } else if nonce.len() != NONCE_LEN {
        Err(CipherError::InvalidNonceLength)
    } else {
        match aes256gcm_open(key, nonce, ciphertext) {
            Some(p) => Ok(p),
            None => Err(CipherError::DecryptionFailed),
        }
    }
}

/// The view of a decryption result.
pub open spec fn plain_view(r: Result<Vec<u8>, CipherError>) -> Result<Seq<u8>, CipherError> {
    match r {
        Ok(v) => Ok(v@),
        Err(e) => Err(e),
    }
}

/// Encrypt under a fresh random 12-byte nonce. Returns `(ciphertext, nonce)`;
/// the pair decrypts under the same key to the plaintext.
pub fn encrypt(key: &[u8], plaintext: &[u8]) -> (r: Result<(Vec<u8>, Vec<u8>), CipherError>)
    ensures
        key@.len() != KEY_LEN ==> r == Err::<(Vec<u8>, Vec<u8>), CipherError>(
            CipherError::InvalidKeyLength,
        ),
        key@.len() == KEY_LEN && plaintext@.len() > MAX_PLAINTEXT_LEN ==> r == Err::<
            (Vec<u8>, Vec<u8>),
            CipherError,
        >(CipherError::EncryptionFailed),
        key@.len() == KEY_LEN && plaintext@.len() <= MAX_PLAINTEXT_LEN ==> (r matches Ok(
            (c, n),
        ) && {
            &&& n@.len() == NONCE_LEN
            &&& c@ == aes256gcm_seal(key@, n@, plaintext@)
            &&& c@.len() == plaintext@.len() + TAG_LEN
            &&& decryption_of(key@, c@, n@) == Ok::<Seq<u8>, CipherError>(plaintext@)
        }),
{
    if key.len() != KEY_LEN {
        return Err(CipherError::InvalidKeyLength);
    }
    let nonce = random_bytes(NONCE_LEN);
    match aes_gcm_seal(key, nonce.as_slice(), plaintext) {
        Some(c) => Ok((c, nonce)),
        None => Err(CipherError::EncryptionFailed),
    }
}

/// Decrypt and authenticate `ciphertext`.
pub fn decrypt(key: &[u8], ciphertext: &[u8], nonce: &[u8]) -> (r: Result<Vec<u8>, CipherError>)
    ensures
        plain_view(r) == decryption_of(key@, ciphertext@, nonce@),
{
    if key.len() != KEY_LEN {
        return Err(CipherError::InvalidKeyLength);
    }
    if nonce.len() != NONCE_LEN {
        return Err(CipherError::InvalidNonceLength);
    }
    match aes_gcm_open(key, nonce, ciphertext) {
        Some(p) => Ok(p),
        None => Err(CipherError::DecryptionFailed),
    }
}

/// `encrypt` with a key held as an array.
pub fn encrypt_aes256_gcm(key: &[u8; 32], plaintext: &[u8]) -> (r: Result<
    (Vec<u8>, Vec<u8>),
    CipherError,
>)
    ensures
        plaintext@.len() > MAX_PLAINTEXT_LEN ==> r == Err::<(Vec<u8>, Vec<u8>), CipherError>(
            CipherError::EncryptionFailed,
        ),
        plaintext@.len() <= MAX_PLAINTEXT_LEN ==> (r matches Ok((c, n)) && {
            &&& n@.len() == NONCE_LEN
            &&& c@ == aes256gcm_seal(key@, n@, plaintext@)
            &&& c@.len() == plaintext@.len() + TAG_LEN
            &&& decryption_of(key@, c@, n@) == Ok::<Seq<u8>, CipherError>(plaintext@)
        }),
{
    encrypt(key.as_slice(), plaintext)
}

/// `decrypt` with a key held as an array.
pub fn decrypt_aes256_gcm(key: &[u8; 32], ciphertext: &[u8], nonce: &[u8]) -> (r: Result<
    Vec<u8>,
    CipherError,
>)
    ensures
        plain_view(r) == decryption_of(key@, ciphertext@, nonce@),
{
    decrypt(key.as_slice(), ciphertext, nonce)
}

} // verus!
