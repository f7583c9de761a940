//! Device pairing: ephemeral P-256 key agreement authenticated by a
//! six-digit code that both operators see, then HKDF-SHA256 to a session key.

use hkdf::Hkdf;
use hmac::{Hmac, Mac};
use p256::elliptic_curve::sec1::ToEncodedPoint;
use sha2::Sha256;
use vstd::prelude::*;
use vstd::utf8::encode_utf8;

use crate::cipher::{
    aes256gcm_seal, decryption_of, plain_view, CipherError, MAX_PLAINTEXT_LEN, NONCE_LEN, TAG_LEN,
};
use crate::encoding::{format_six_digits, six_digits};
use crate::random::random_bytes;
use crate::secret::{wipe_bytes, wipe_key};

verus! {

/// An ephemeral P-256 secret. Held opaque: Verus refuses a declaration
/// of p256's key types, whose curve parameter is bound by a trait of
/// elliptic_curve.
#[verifier::external_body]
pub struct EcdhSecret {
    secret: p256::ecdh::EphemeralSecret,
}

/// Our ephemeral key pair: the secret and the compressed SEC1 encoding of
/// its public key. Made only by `new_key_pair` and never changed, so the
/// bytes always belong to the secret.
pub struct EcdhKeyPair {
    secret: EcdhSecret,
    public_bytes: Vec<u8>,
}

impl EcdhKeyPair {
    /// The compressed SEC1 encoding of the public key.
    pub closed spec fn public_view(&self) -> Seq<u8> {
        self.public_bytes@
    }
}

/// Pairing codes are below this bound (six decimal digits).
pub const CODE_MODULUS: u32 = 1000000;

/// Length of a compressed SEC1 P-256 point.
pub const COMPRESSED_POINT_LEN: usize = 33;

/// Length of the raw ECDH secret and of the session key.
pub const SECRET_LEN: usize = 32;

/// The context string of the session-key derivation, `vibevault-sync-v1`.
pub open spec fn hkdf_info() -> Seq<u8> {
    seq![118u8, 105, 98, 101, 118, 97, 117, 108, 116, 45, 115, 121, 110, 99, 45, 118, 49]
}

fn hkdf_info_bytes() -> (r: Vec<u8>)
    ensures
        r@ == hkdf_info(),
{
    let r = vec![118u8, 105, 98, 101, 118, 97, 117, 108, 116, 45, 115, 121, 110, 99, 45, 118, 49];
    assert(r@ == hkdf_info());
    r
}

/// HMAC-SHA256 of a message under a key of any length.
pub uninterp spec fn hmac_sha256_of(key: Seq<u8>, message: Seq<u8>) -> Seq<u8>;

/// HKDF-SHA256 without salt: 32 bytes expanded from `ikm` under `info`.
pub uninterp spec fn hkdf_sha256_of(ikm: Seq<u8>, info: Seq<u8>) -> Seq<u8>;

/// The raw ECDH secret (x-coordinate of the shared point) of two P-256
/// public keys given in SEC1 form.
pub uninterp spec fn ecdh_shared_of(a: Seq<u8>, b: Seq<u8>) -> Seq<u8>;

/// The bytes are the SEC1 encoding of a point on P-256.
pub uninterp spec fn sec1_point_valid(bytes: Seq<u8>) -> bool;

/// Relies on p256::ecdh::EphemeralSecret::random, drawing from rand's
/// thread_rng (an OS-seeded cryptographic generator), on
/// `PublicKey::from(&EphemeralSecret)`, and on
/// `ToEncodedPoint::to_encoded_point(true)`: 33 bytes encoding a point of
/// the curve other than the identity, which `from_sec1_bytes` accepts.
#[verifier::external_body]
fn new_key_pair() -> (r: EcdhKeyPair)
    ensures
        r.public_view().len() == COMPRESSED_POINT_LEN,
        sec1_point_valid(r.public_view()),
{
    let secret = p256::ecdh::EphemeralSecret::random(&mut rand::thread_rng());
    let public_bytes = p256::PublicKey::from(&secret).to_encoded_point(true).as_bytes().to_vec();
    EcdhKeyPair { secret: EcdhSecret { secret }, public_bytes }
}

/// Relies on p256's `PublicKey::from_sec1_bytes`, which accepts the bytes
/// when they encode a point of the curve, and on
/// `EphemeralSecret::diffie_hellman` and `SharedSecret::raw_secret_bytes`:
/// the 32-byte x-coordinate of the shared point, which the two public
/// points fix whichever side computes it.
#[verifier::external_body]
fn ecdh_agree(pair: &EcdhKeyPair, peer_bytes: &[u8]) -> (r: Option<Vec<u8>>)
    ensures
        r is Some <==> sec1_point_valid(peer_bytes@),
        r matches Some(s) ==> {
            &&& s@.len() == SECRET_LEN
            &&& s@ == ecdh_shared_of(pair.public_view(), peer_bytes@)
            &&& s@ == ecdh_shared_of(peer_bytes@, pair.public_view())
        },
{
    let peer = p256::PublicKey::from_sec1_bytes(peer_bytes).ok()?;
    Some(pair.secret.secret.diffie_hellman(&peer).raw_secret_bytes().to_vec())
}

/// Relies on hmac's `Hmac<Sha256>`: `new_from_slice` accepts keys of any
/// length, and `finalize` gives the 32-byte tag of the message.
#[verifier::external_body]
fn hmac_sha256(key: &[u8], message: &[u8]) -> (r: Vec<u8>)
    ensures
        r@ == hmac_sha256_of(key@, message@),
        r@.len() == 32,
{
    let mut mac = Hmac::<Sha256>::new_from_slice(key).expect("HMAC accepts keys of any length");
    mac.update(message);
    mac.finalize().into_bytes().to_vec()
}

/// Relies on hmac's `Mac::verify_slice`: true exactly when `tag` equals the
/// whole tag of the message under the key (compared in constant time).
#[verifier::external_body]
fn hmac_sha256_verify(key: &[u8], message: &[u8], tag: &[u8]) -> (r: bool)
    ensures
        r == (tag@ == hmac_sha256_of(key@, message@)),
{
    let mut mac = Hmac::<Sha256>::new_from_slice(key).expect("HMAC accepts keys of any length");
    mac.update(message);
    mac.verify_slice(tag).is_ok()
}

/// Relies on hkdf's `Hkdf::<Sha256>::new(None, ikm)` and `expand`, which
/// fails only for outputs longer than 255 * 32 bytes.
#[verifier::external_body]
fn hkdf_sha256_expand(ikm: &[u8], info: &[u8]) -> (r: [u8; 32])
    ensures
        r@ == hkdf_sha256_of(ikm@, info@),
{
    let mut okm = [0u8; 32];
    Hkdf::<Sha256>::new(None, ikm).expand(info, &mut okm).expect("32 bytes is a valid HKDF length");
    okm
}

/// Why a pairing failed.
#[derive(Debug, Clone, Copy, PartialEq, Eq, Structural)]
pub enum PairingError {
    /// The peer's tag was not made with our code.
    CodeMismatch,
    /// The peer's public key is not a valid point.
    InvalidPeerPublicKey,
}

impl PairingError {
    /// The user-facing text of the error.
    pub fn message(&self) -> (r: &'static str)
        ensures
            *self == PairingError::CodeMismatch ==> r@ == "Pairing code mismatch"@,
            *self == PairingError::InvalidPeerPublicKey ==> r@ == "Invalid peer public key"@,
    {
        match self {
            PairingError::CodeMismatch => "Pairing code mismatch",
            PairingError::InvalidPeerPublicKey => "Invalid peer public key",
        }
    }
}

/// The outcome of a pairing. The key and the shared secret are overwritten
/// when it is dropped.
#[derive(Debug)]
pub struct PairingResult {
    /// Key that encrypts the sync traffic.
    pub session_key: [u8; 32],
    /// Raw ECDH secret, stored for re-pairing without a code.
    pub shared_secret: Vec<u8>,
    /// The peer's public key as it sent it.
    pub peer_public_key: Vec<u8>,
}

impl Drop for PairingResult {
    fn drop(&mut self)
        opens_invariants none
        no_unwind
    {
        wipe_key(&mut self.session_key);
        wipe_bytes(&mut self.shared_secret);
    }
}

/// A pairing in progress: our ephemeral key pair and the code shown to the
/// operator. Consumed by `complete_pairing`.
pub struct PairingSession {
    /// Our ephemeral key pair.
    pub key_pair: EcdhKeyPair,
    pub pairing_code: String,
}

/// The six-digit code for four random bytes read little-endian.
pub open spec fn code_for(bytes: Seq<u8>) -> Seq<char> {
    six_digits(
        ((bytes[0] as int + bytes[1] as int * 256 + bytes[2] as int * 65536 + bytes[3] as int
            * 16777216) % (CODE_MODULUS as int)) as u32,
    )
}

/// A fresh random six-digit pairing code.
pub fn random_pairing_code() -> (r: String)
    ensures
        exists|b: Seq<u8>| b.len() == 4 && r@ == #[trigger] code_for(b),
{
    let b = random_bytes(4);
    let n: u64 = b[0] as u64 + b[1] as u64 * 256 + b[2] as u64 * 65536 + b[3] as u64 * 16777216;
    let code = (n % (CODE_MODULUS as u64)) as u32;
    let r = format_six_digits(code);
    assert(r@ == code_for(b@));
    r
}

impl PairingSession {
    /// The bytes that are HMAC-keyed: the UTF-8 text of the pairing code.
    pub open spec fn code_key(&self) -> Seq<u8> {
        encode_utf8(self.pairing_code@)
    }

    /// The pairing code shown to the operator.
    pub open spec fn code_view(&self) -> Seq<char> {
        self.pairing_code@
    }

    /// Our public key in compressed SEC1 form.
    pub open spec fn public_bytes_view(&self) -> Seq<u8> {
        self.key_pair.public_view()
    }

    /// Start a pairing: a fresh ephemeral key pair and a random code.
    pub fn new() -> (r: Self)
        ensures
            r.public_bytes_view().len() == COMPRESSED_POINT_LEN,
            sec1_point_valid(r.public_bytes_view()),
            exists|b: Seq<u8>| b.len() == 4 && r.code_view() == #[trigger] code_for(b),
    {
        let key_pair = new_key_pair();
        let pairing_code = random_pairing_code();
        PairingSession { key_pair, pairing_code }
    }

    /// Our public key as compressed SEC1 bytes (33 bytes).
    pub fn our_public_key_bytes(&self) -> (r: Vec<u8>)
        ensures
            r@ == self.public_bytes_view(),
    {
        self.key_pair.public_bytes.clone()
    }

    /// The tag we send with our public key: HMAC-SHA256 keyed by the code.
    pub fn compute_our_hmac(&self) -> (r: Vec<u8>)
        ensures
            r@ == hmac_sha256_of(self.code_key(), self.public_bytes_view()),
    {
        hmac_sha256(self.pairing_code.as_str().as_bytes(), self.key_pair.public_bytes.as_slice())
    }

    /// Check the peer's tag against our code, then agree on a secret with
    /// its public key and derive the session key from it.
    pub fn complete_pairing(self, peer_public_key_bytes: &[u8], peer_hmac: &[u8]) -> (r: Result<
        PairingResult,
        PairingError,
    >)
        ensures
            peer_hmac@ != hmac_sha256_of(self.code_key(), peer_public_key_bytes@) ==> r matches Err(
                PairingError::CodeMismatch,
            ),
            peer_hmac@ == hmac_sha256_of(self.code_key(), peer_public_key_bytes@)
                && !sec1_point_valid(peer_public_key_bytes@) ==> r matches Err(
                PairingError::InvalidPeerPublicKey,
            ),
            peer_hmac@ == hmac_sha256_of(self.code_key(), peer_public_key_bytes@)
                && sec1_point_valid(peer_public_key_bytes@) ==> (r matches Ok(p) && {
                &&& p.shared_secret@.len() == SECRET_LEN
                &&& p.shared_secret@ == ecdh_shared_of(self.public_bytes_view(), peer_public_key_bytes@)
                &&& p.shared_secret@ == ecdh_shared_of(peer_public_key_bytes@, self.public_bytes_view())
                &&& p.session_key@ == hkdf_sha256_of(p.shared_secret@, hkdf_info())
                &&& p.peer_public_key@ == peer_public_key_bytes@
            }),
    {
        if !hmac_sha256_verify(self.pairing_code.as_str().as_bytes(), peer_public_key_bytes, peer_hmac) {
            return Err(PairingError::CodeMismatch);
        }
        let shared_secret = match ecdh_agree(&self.key_pair, peer_public_key_bytes) {
            Some(s) => s,
            None => {
                return Err(PairingError::InvalidPeerPublicKey);
            },
        };
        let info = hkdf_info_bytes();
        let session_key = hkdf_sha256_expand(shared_secret.as_slice(), info.as_slice());
        let peer_public_key = vstd::slice::slice_to_vec(peer_public_key_bytes);
        Ok(PairingResult { session_key, shared_secret, peer_public_key })
    }
}

/// Pairing agreement: when two sessions complete against each other's
/// public keys, each result's shared secret being the ECDH secret of the two
/// keys in both orders, both sides hold the same shared secret and derive
/// the same session key.
pub proof fn lemma_pairing_agreement(
    a_public: Seq<u8>,
    b_public: Seq<u8>,
    a_shared: Seq<u8>,
    b_shared: Seq<u8>,
)
    requires
        a_shared == ecdh_shared_of(a_public, b_public),
        a_shared == ecdh_shared_of(b_public, a_public),
        b_shared == ecdh_shared_of(b_public, a_public),
        b_shared == ecdh_shared_of(a_public, b_public),
    ensures
        a_shared == b_shared,
        hkdf_sha256_of(a_shared, hkdf_info()) == hkdf_sha256_of(b_shared, hkdf_info()),
{
}

/// Re-derive the session key of a known device from its stored shared
/// secret, without a code.
pub fn derive_session_key_from_secret(shared_secret: &[u8]) -> (r: Result<[u8; 32], PairingError>)
    ensures
        r matches Ok(k) && k@ == hkdf_sha256_of(shared_secret@, hkdf_info()),
{
    let info = hkdf_info_bytes();
    Ok(hkdf_sha256_expand(shared_secret, info.as_slice()))
}

/// Encrypt a sync payload under the session key.
pub fn encrypt_transport(key: &[u8; 32], plaintext: &[u8]) -> (r: Result<
    (Vec<u8>, Vec<u8>),
    CipherError,
>)
    ensures
        plaintext@.len() > MAX_PLAINTEXT_LEN ==> r == Err::<(Vec<u8>, Vec<u8>), CipherError>(
            CipherError::EncryptionFailed,
        ),
        plaintext@.len() <= MAX_PLAINTEXT_LEN ==> (r matches Ok((c, n)) && {
            &&& n@.len() == NONCE_LEN
            &&& c@ == aes256gcm_seal(key@, n@, plaintext@)
            &&& c@.len() == plaintext@.len() + TAG_LEN
            &&& decryption_of(key@, c@, n@) == Ok::<Seq<u8>, CipherError>(plaintext@)
        }),
{
    crate::cipher::encrypt_aes256_gcm(key, plaintext)
}

/// Decrypt a sync payload under the session key.
pub fn decrypt_transport(key: &[u8; 32], ciphertext: &[u8], nonce: &[u8]) -> (r: Result<
    Vec<u8>,
    CipherError,
>)
    ensures
        plain_view(r) == decryption_of(key@, ciphertext@, nonce@),
{
    crate::cipher::decrypt_aes256_gcm(key, ciphertext, nonce)
}

} // verus!
