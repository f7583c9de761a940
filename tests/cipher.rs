use vibevault::cipher::{decrypt, decrypt_aes256_gcm, encrypt, encrypt_aes256_gcm, CipherError};
use vibevault::vault::{migrate_plaintext_entries, open_blob, SecurityManager, StoredBlob};

#[test]
fn decrypt_inverts_encrypt() {
    let key = [7u8; 32];
    let msg = b"correct horse battery staple".to_vec();
    let (ct, nonce) = encrypt_aes256_gcm(&key, &msg).unwrap();
    assert_eq!(nonce.len(), 12);
    assert_eq!(ct.len(), msg.len() + 16);
    assert_ne!(ct[..msg.len()].to_vec(), msg);
    assert_eq!(decrypt_aes256_gcm(&key, &ct, &nonce).unwrap(), msg);
}

#[test]
fn wrong_key_fails() {
    let (ct, nonce) = encrypt_aes256_gcm(&[1u8; 32], b"secret").unwrap();
    assert_eq!(decrypt_aes256_gcm(&[2u8; 32], &ct, &nonce), Err(CipherError::DecryptionFailed));
}

#[test]
fn corrupted_ciphertext_or_nonce_fails() {
    let key = [3u8; 32];
    let (mut ct, mut nonce) = encrypt_aes256_gcm(&key, b"secret").unwrap();
    ct[0] ^= 1;
    assert_eq!(decrypt_aes256_gcm(&key, &ct, &nonce), Err(CipherError::DecryptionFailed));
    ct[0] ^= 1;
    nonce[0] ^= 1;
    assert_eq!(decrypt_aes256_gcm(&key, &ct, &nonce), Err(CipherError::DecryptionFailed));
}

#[test]
fn bad_lengths_are_refused() {
    assert_eq!(decrypt_aes256_gcm(&[0u8; 32], b"x", &[0u8; 11]), Err(CipherError::InvalidNonceLength));
    assert_eq!(encrypt(&[0u8; 31], b"x"), Err(CipherError::InvalidKeyLength));
    assert_eq!(decrypt(&[0u8; 33], b"x", &[0u8; 12]), Err(CipherError::InvalidKeyLength));
    assert_eq!(
        CipherError::DecryptionFailed.message(),
        "Decryption failed — wrong password or corrupted data"
    );
}

#[test]
fn nonces_are_fresh() {
    let key = [4u8; 32];
    let (_, n1) = encrypt(&key, b"same").unwrap();
    let (_, n2) = encrypt(&key, b"same").unwrap();
    assert_ne!(n1, n2);
}

#[test]
fn legacy_rows_are_migrated() {
    let key = [5u8; 32];
    let (ct, nonce) = encrypt_aes256_gcm(&key, b"already").unwrap();
    let rows = vec![
        StoredBlob { id: 1, data_blob: b"plain".to_vec(), nonce: vec![] },
        StoredBlob { id: 2, data_blob: ct.clone(), nonce: nonce.clone() },
    ];
    let out = migrate_plaintext_entries(&key, &rows).unwrap();
    assert_eq!(out.len(), 2);
    assert_eq!(out[0].id, 1);
    assert_eq!(out[0].nonce.len(), 12);
    assert_ne!(out[0].data_blob, b"plain".to_vec());
    assert_eq!(open_blob(&key, &out[0].data_blob, &out[0].nonce).unwrap(), b"plain".to_vec());
    assert_eq!(out[1].data_blob, ct);
    assert_eq!(out[1].nonce, nonce);
}

#[test]
fn legacy_blob_reads_as_is() {
    assert_eq!(open_blob(&[0u8; 32], b"legacy", &[]).unwrap(), b"legacy".to_vec());
}

#[test]
fn vault_entry_text_round_trip() {
    let manager = SecurityManager::new();
    let key = [6u8; 32];
    let (ct, nonce) = manager.encrypt_vault_entry("{\"site\":\"ä\"}", &key).unwrap();
    assert_eq!(manager.decrypt_vault_entry(&ct, &nonce, &key).unwrap(), "{\"site\":\"ä\"}");
    let (bad, n2) = manager.encrypt(&key, &[0xff, 0xfe]).unwrap();
    assert_eq!(manager.decrypt_vault_entry(&bad, &n2, &key), Err(CipherError::InvalidUtf8));
}

#[test]
fn security_manager_backoff() {
    let mut manager = SecurityManager::new();
    assert_eq!(manager.check_rate_limit(100), Ok(()));
    manager.report_failed_attempt(100);
    manager.report_failed_attempt(100);
    manager.report_failed_attempt(100);
    assert_eq!(manager.check_rate_limit(100), Err(1));
    assert_eq!(manager.check_rate_limit(101), Ok(()));
    manager.report_success();
    assert_eq!(manager.check_rate_limit(100), Ok(()));
}

#[test]
fn derive_key_reuses_a_given_salt() {
    let manager = SecurityManager::new();
    let (k1, salt) = manager.derive_key("master", None).unwrap();
    assert_eq!(k1.len(), 32);
    assert_eq!(salt.len(), 22);
    let (k2, salt2) = manager.derive_key("master", Some(salt.clone())).unwrap();
    assert_eq!(k1, k2);
    assert_eq!(salt, salt2);
}

#[test]
fn derive_key_refuses_a_malformed_salt() {
    let manager = SecurityManager::new();
    assert_eq!(
        manager.derive_key("master", Some("not base64!".to_string())),
        Err(vibevault::kdf::KdfError::InvalidSalt)
    );
}
