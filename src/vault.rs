//! Vault records at rest: the upgrade of legacy plaintext records, reads
//! that tolerate them, and the security manager of a single vault.

use vstd::prelude::*;
use vstd::slice::slice_to_vec;
use vstd::string::StringSliceAdditionalSpecFns;
use vstd::utf8::{decode_utf8, valid_utf8};

use crate::cipher::{
    aes256gcm_seal, decrypt, decrypt_aes256_gcm, decryption_of, encrypt, encrypt_aes256_gcm,
    plain_view, CipherError, KEY_LEN, MAX_PLAINTEXT_LEN, NONCE_LEN, TAG_LEN,
};
use crate::kdf::{
    base64_decode_unpadded, base64_encode_unpadded, base64_unpadded, base64_unpadded_decoded,
    derivation_of, derive_encryption_key, KdfError, AUTH_SALT_LEN, MAX_ARGON_INPUT_LEN,
};
use crate::random::random_bytes;
use crate::session::{backoff_verdict, RateLimiter};

verus! {

/// The stored blob of a record and its nonce; an empty nonce marks a
/// legacy record whose blob is still plaintext.
pub struct StoredBlob {
    pub id: i64,
    pub data_blob: Vec<u8>,
    pub nonce: Vec<u8>,
}

/// Relies on std's `String::from_utf8`: a string with exactly these bytes
/// when they are valid UTF-8, an error otherwise.
#[verifier::external_body]
fn string_from_utf8(bytes: Vec<u8>) -> (r: Option<String>)
    ensures
        r is Some <==> valid_utf8(bytes@),
        r matches Some(s) ==> s@ == decode_utf8(bytes@),
{
    String::from_utf8(bytes).ok()
}

/// What a stored blob reads as under `key`: a legacy blob as it is,
/// anything else decrypted.
pub open spec fn opened(key: Seq<u8>, blob: Seq<u8>, nonce: Seq<u8>) -> Result<Seq<u8>, CipherError> {
    if nonce.len() == 0 {
        Ok(blob)
    } else {
        decryption_of(key, blob, nonce)
    }
}

/// Read a stored blob: decrypt it, or hand back a legacy blob whose nonce
/// is empty as it is, so reads work while migration has not run yet.
pub fn open_blob(key: &[u8; 32], blob: &[u8], nonce: &[u8]) -> (r: Result<Vec<u8>, CipherError>)
    ensures
        plain_view(r) == opened(key@, blob@, nonce@),
{
    if nonce.len() == 0 {
        Ok(slice_to_vec(blob))
    } else {
        decrypt_aes256_gcm(key, blob, nonce)
    }
}

/// The row after migration: legacy rows encrypted, others as they were.
pub open spec fn migrated(key: Seq<u8>, before: &StoredBlob, after: &StoredBlob) -> bool {
    &&& after.id == before.id
    &&& if before.nonce@.len() == 0 {
        &&& after.nonce@.len() == NONCE_LEN
        &&& after.data_blob@ == aes256gcm_seal(key, after.nonce@, before.data_blob@)
        &&& decryption_of(key, after.data_blob@, after.nonce@) == Ok::<Seq<u8>, CipherError>(
            before.data_blob@,
        )
    } else {
        &&& after.data_blob@ == before.data_blob@
        &&& after.nonce@ == before.nonce@
    }
}

/// Encrypt every legacy row (empty nonce) under `key` with a fresh nonce;
/// other rows come back unchanged, in the same order. Fails only when a
/// legacy blob is too long for the cipher.
pub fn migrate_plaintext_entries(key: &[u8; 32], rows: &[StoredBlob]) -> (r: Result<
    Vec<StoredBlob>,
    CipherError,
>)
    ensures
        (forall|i: int|
            0 <= i < rows@.len() && (#[trigger] rows@[i]).nonce@.len() == 0
                ==> rows@[i].data_blob@.len() <= MAX_PLAINTEXT_LEN) ==> (r matches Ok(out) && {
            &&& out@.len() == rows@.len()
            &&& forall|i: int| 0 <= i < rows@.len() ==> migrated(key@, &rows@[i], #[trigger] &out@[i])
        }),
        !(forall|i: int|
            0 <= i < rows@.len() && (#[trigger] rows@[i]).nonce@.len() == 0
                ==> rows@[i].data_blob@.len() <= MAX_PLAINTEXT_LEN) ==> r == Err::<
            Vec<StoredBlob>,
            CipherError,
        >(CipherError::EncryptionFailed),
{
    let mut out: Vec<StoredBlob> = Vec::new();
    let mut i: usize = 0;
    while i < rows.len()
        invariant
            i <= rows@.len(),
            out@.len() == i,
            forall|k: int|
                0 <= k < i ==> (#[trigger] rows@[k]).nonce@.len() == 0
                    ==> rows@[k].data_blob@.len() <= MAX_PLAINTEXT_LEN,
            forall|k: int| 0 <= k < i ==> migrated(key@, &rows@[k], #[trigger] &out@[k]),
        decreases rows@.len() - i,
    {
        let row = &rows[i];
        if row.nonce.len() == 0 {
            match encrypt_aes256_gcm(key, row.data_blob.as_slice()) {
                Ok((ciphertext, nonce)) => {
                    out.push(StoredBlob { id: row.id, data_blob: ciphertext, nonce });
                },
                Err(e) => {
                    return Err(e);
                },
            }
        } else {
            out.push(
                StoredBlob {
                    id: row.id,
                    data_blob: slice_to_vec(row.data_blob.as_slice()),
                    nonce: slice_to_vec(row.nonce.as_slice()),
                },
            );
        }
        i = i + 1;
    }
    Ok(out)
}

/// Encryption, decryption and the unlock backoff of one vault.
pub struct SecurityManager {
    rate_limiter: RateLimiter,
}

impl SecurityManager {
    /// The backoff counter.
    pub closed spec fn limiter(&self) -> RateLimiter {
        self.rate_limiter
    }

    pub fn new() -> (r: Self)
        ensures
            r.limiter() == (RateLimiter { attempts: 0, last_failure: None }),
    {
        SecurityManager { rate_limiter: RateLimiter::new() }
    }

    /// Derive a 32-byte key from the master password and a salt given as
    /// unpadded base64 text; with no salt given, a fresh random 16-byte one
    /// is drawn. Returns `(key, salt text)`.
    pub fn derive_key(&self, password: &str, salt: Option<String>) -> (r: Result<
        (Vec<u8>, String),
        KdfError,
    >)
        ensures
            r matches Ok((k, s)) ==> k@.len() == 32,
            salt matches Some(given) ==> match base64_unpadded_decoded(given@) {
                None => r == Err::<(Vec<u8>, String), KdfError>(KdfError::InvalidSalt),
                Some(b) => match derivation_of(password.spec_bytes(), b) {
                    Ok(key) => r matches Ok((k, s)) && k@ == key && s@ == given@,
                    Err(e) => r == Err::<(Vec<u8>, String), KdfError>(e),
                },
            },
            salt is None && password.spec_bytes().len() <= MAX_ARGON_INPUT_LEN ==> r is Ok,
            salt is None ==> (r matches Ok((k, s)) ==> exists|b: Seq<u8>|
                {
                    &&& b.len() == AUTH_SALT_LEN
                    &&& s@ == #[trigger] base64_unpadded(b)
                    &&& derivation_of(password.spec_bytes(), b) == Ok::<Seq<u8>, KdfError>(k@)
                }),
    {
        match salt {
            Some(text) => {
                let bytes = match base64_decode_unpadded(text.as_str()) {
                    Some(b) => b,
                    None => {
                        return Err(KdfError::InvalidSalt);
                    },
                };
                match derive_encryption_key(password, bytes.as_slice()) {
                    Ok(k) => Ok((slice_to_vec(k.as_slice()), text)),
                    Err(e) => Err(e),
                }
            },
            None => {
                let bytes = random_bytes(AUTH_SALT_LEN);
                let text = base64_encode_unpadded(bytes.as_slice());
                match derive_encryption_key(password, bytes.as_slice()) {
                    Ok(k) => Ok((slice_to_vec(k.as_slice()), text)),
                    Err(e) => Err(e),
                }
            },
        }
    }

    /// AES-256-GCM under a fresh nonce; returns `(ciphertext, nonce)`.
    pub fn encrypt(&self, key_bytes: &[u8], plaintext: &[u8]) -> (r: Result<
        (Vec<u8>, Vec<u8>),
        CipherError,
    >)
        ensures
            key_bytes@.len() != KEY_LEN ==> r == Err::<(Vec<u8>, Vec<u8>), CipherError>(
                CipherError::InvalidKeyLength,
            ),
            key_bytes@.len() == KEY_LEN && plaintext@.len() > MAX_PLAINTEXT_LEN ==> r == Err::<
                (Vec<u8>, Vec<u8>),
                CipherError,
            >(CipherError::EncryptionFailed),
            key_bytes@.len() == KEY_LEN && plaintext@.len() <= MAX_PLAINTEXT_LEN ==> (r matches Ok(
                (c, n),
            ) && {
                &&& n@.len() == NONCE_LEN
                &&& c@.len() == plaintext@.len() + TAG_LEN
                &&& decryption_of(key_bytes@, c@, n@) == Ok::<Seq<u8>, CipherError>(plaintext@)
            }),
    {
        encrypt(key_bytes, plaintext)
    }

    /// Encrypt the JSON text of a vault entry.
    pub fn encrypt_vault_entry(&self, json_data: &str, key_bytes: &[u8]) -> (r: Result<
        (Vec<u8>, Vec<u8>),
        CipherError,
    >)
        ensures
            key_bytes@.len() != KEY_LEN ==> r == Err::<(Vec<u8>, Vec<u8>), CipherError>(
                CipherError::InvalidKeyLength,
            ),
            key_bytes@.len() == KEY_LEN && json_data.spec_bytes().len() > MAX_PLAINTEXT_LEN ==> r
                == Err::<(Vec<u8>, Vec<u8>), CipherError>(CipherError::EncryptionFailed),
            key_bytes@.len() == KEY_LEN && json_data.spec_bytes().len() <= MAX_PLAINTEXT_LEN ==> (
            r matches Ok((c, n)) && decryption_of(key_bytes@, c@, n@) == Ok::<
                Seq<u8>,
                CipherError,
            >(json_data.spec_bytes())),
    {
        self.encrypt(key_bytes, json_data.as_bytes())
    }

    /// Decrypt and authenticate.
    pub fn decrypt(&self, key_bytes: &[u8], ciphertext: &[u8], nonce_bytes: &[u8]) -> (r: Result<
        Vec<u8>,
        CipherError,
    >)
        ensures
            plain_view(r) == decryption_of(key_bytes@, ciphertext@, nonce_bytes@),
    {
        decrypt(key_bytes, ciphertext, nonce_bytes)
    }

    /// Decrypt a vault entry back to its JSON text.
    pub fn decrypt_vault_entry(&self, encrypted_data: &[u8], nonce: &[u8], key: &[u8]) -> (r: Result<
        String,
        CipherError,
    >)
        ensures
            decryption_of(key@, encrypted_data@, nonce@) matches Err(e) ==> r == Err::<
                String,
                CipherError,
            >(e),
            decryption_of(key@, encrypted_data@, nonce@) matches Ok(p) ==> {
                &&& !valid_utf8(p) ==> r == Err::<String, CipherError>(CipherError::InvalidUtf8)
                &&& valid_utf8(p) ==> (r matches Ok(s) && s@ == decode_utf8(p))
            },
    {
        match self.decrypt(key, encrypted_data, nonce) {
            Ok(p) => match string_from_utf8(p) {
                Some(s) => Ok(s),
                None => Err(CipherError::InvalidUtf8),
            },
            Err(e) => Err(e),
        }
    }

    /// `Ok` when an unlock attempt may be verified now, else the seconds
    /// left to wait.
    pub fn check_rate_limit(&self, now: u64) -> (r: Result<(), u64>)
        ensures
            r == backoff_verdict(self.limiter().attempts, self.limiter().last_failure, now),
    {
        self.rate_limiter.check(now)
    }

    /// Count a failed unlock attempt made at `now`.
    pub fn report_failed_attempt(&mut self, now: u64)
        ensures
            final(self).limiter().last_failure == Some(now),
            final(self).limiter().attempts == if old(self).limiter().attempts == u32::MAX {
                u32::MAX
            } else {
                (old(self).limiter().attempts + 1) as u32
            },
    {
        self.rate_limiter.record_failure(now);
    }

    /// Forget the failures after a successful unlock.
    pub fn report_success(&mut self)
        ensures
            final(self).limiter() == (RateLimiter { attempts: 0, last_failure: None }),
    {
        self.rate_limiter.reset();
    }
}

} // verus!
