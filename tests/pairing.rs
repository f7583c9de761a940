use hmac::{Hmac, Mac};
use p256::ecdh::EphemeralSecret;
use p256::elliptic_curve::sec1::ToEncodedPoint;
use p256::PublicKey;
use sha2::Sha256;
use vibevault::pairing::{
    decrypt_transport, derive_session_key_from_secret, encrypt_transport, random_pairing_code,
    PairingError, PairingSession,
};

type HmacSha256 = Hmac<Sha256>;

#[test]
fn test_pairing_roundtrip() {
    let desktop = PairingSession::new();
    let phone_code = desktop.pairing_code.clone();

    let phone_secret = EphemeralSecret::random(&mut rand::thread_rng());
    let phone_pk = PublicKey::from(&phone_secret);
    let phone_pk_bytes = phone_pk.to_encoded_point(true).as_bytes().to_vec();

    let mut mac = HmacSha256::new_from_slice(phone_code.as_bytes()).unwrap();
    mac.update(&phone_pk_bytes);
    let phone_hmac = mac.finalize().into_bytes().to_vec();

    let result = desktop.complete_pairing(&phone_pk_bytes, &phone_hmac);
    assert!(result.is_ok());

    let pairing = result.unwrap();
    assert_eq!(pairing.session_key.len(), 32);
    assert!(!pairing.session_key.iter().all(|&b| b == 0));
}

#[test]
fn test_pairing_wrong_code_fails() {
    let desktop = PairingSession::new();

    let wrong_code = "000000";
    let phone_secret = EphemeralSecret::random(&mut rand::thread_rng());
    let phone_pk = PublicKey::from(&phone_secret);
    let phone_pk_bytes = phone_pk.to_encoded_point(true).as_bytes().to_vec();

    let mut mac = HmacSha256::new_from_slice(wrong_code.as_bytes()).unwrap();
    mac.update(&phone_pk_bytes);
    let phone_hmac = mac.finalize().into_bytes().to_vec();

    let result = desktop.complete_pairing(&phone_pk_bytes, &phone_hmac);
    assert!(result.is_err());
    assert_eq!(result.unwrap_err().message(), "Pairing code mismatch");
}

#[test]
fn test_derive_session_key_deterministic() {
    let secret = vec![1u8; 32];
    let key1 = derive_session_key_from_secret(&secret).unwrap();
    let key2 = derive_session_key_from_secret(&secret).unwrap();
    assert_eq!(key1, key2);
}

#[test]
fn both_sides_agree_on_the_session_key() {
    let a = PairingSession::new();
    let mut b = PairingSession::new();
    b.pairing_code = a.pairing_code.clone();
    let a_pk = a.our_public_key_bytes();
    let b_pk = b.our_public_key_bytes();
    assert_eq!(a_pk.len(), 33);
    let a_tag = a.compute_our_hmac();
    let b_tag = b.compute_our_hmac();
    let ra = a.complete_pairing(&b_pk, &b_tag).unwrap();
    let rb = b.complete_pairing(&a_pk, &a_tag).unwrap();
    assert_eq!(ra.session_key, rb.session_key);
    assert_eq!(ra.shared_secret, rb.shared_secret);
    assert_ne!(ra.session_key, [0u8; 32]);
    assert_eq!(ra.peer_public_key, b_pk);
    assert_eq!(derive_session_key_from_secret(&ra.shared_secret).unwrap(), ra.session_key);
}

#[test]
fn invalid_peer_key_is_refused() {
    let desktop = PairingSession::new();
    let bogus = vec![0x02u8; 5];
    let mut mac = HmacSha256::new_from_slice(desktop.pairing_code.as_bytes()).unwrap();
    mac.update(&bogus);
    let tag = mac.finalize().into_bytes().to_vec();
    let err = desktop.complete_pairing(&bogus, &tag).unwrap_err();
    assert_eq!(err, PairingError::InvalidPeerPublicKey);
}

#[test]
fn pairing_code_has_six_digits() {
    for _ in 0..20 {
        let code = random_pairing_code();
        assert_eq!(code.len(), 6);
        assert!(code.chars().all(|c| c.is_ascii_digit()));
    }
}

#[test]
fn session_key_is_hkdf_sha256() {
    let secret = vec![1u8; 32];
    let key = derive_session_key_from_secret(&secret).unwrap();
    let hk = hkdf::Hkdf::<Sha256>::new(None, &secret);
    let mut expected = [0u8; 32];
    hk.expand(b"vibevault-sync-v1", &mut expected).unwrap();
    assert_eq!(key, expected);
    assert_ne!(key.to_vec(), secret);
}

#[test]
fn transport_round_trip() {
    let key = [9u8; 32];
    let (ct, nonce) = encrypt_transport(&key, b"payload").unwrap();
    assert_eq!(decrypt_transport(&key, &ct, &nonce).unwrap(), b"payload".to_vec());
}

#[test]
fn our_public_key_is_a_valid_point() {
    let s = PairingSession::new();
    let bytes = s.our_public_key_bytes();
    assert!(PublicKey::from_sec1_bytes(&bytes).is_ok());
}
