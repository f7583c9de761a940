use vibevault::kdf::{derive_encryption_key, hash_password, verify_password, KdfError};
use vibevault::session::{register, AuthError, RateLimiter, SessionGuard, UserCredential};

fn credential(password: &str) -> UserCredential {
    register(false, "alice".to_string(), password).unwrap()
}

#[test]
fn derived_key_is_deterministic() {
    let salt = [42u8; 32];
    let k1 = derive_encryption_key("hunter2", &salt).unwrap();
    let k2 = derive_encryption_key("hunter2", &salt).unwrap();
    assert_eq!(k1, k2);
    assert_eq!(k1.len(), 32);
}

#[test]
fn derived_key_depends_on_salt() {
    let k1 = derive_encryption_key("hunter2", &[1u8; 16]).unwrap();
    let k2 = derive_encryption_key("hunter2", &[2u8; 16]).unwrap();
    assert_ne!(k1, k2);
}

#[test]
fn short_salt_is_refused() {
    assert_eq!(derive_encryption_key("pw", &[0u8; 7]), Err(KdfError::InvalidInput));
}

#[test]
fn password_hash_verifies() {
    let rec = hash_password("open sesame").unwrap();
    assert!(rec.hash.starts_with("$argon2id$"));
    assert!(verify_password("open sesame", &rec.hash));
    assert!(!verify_password("open sesame!", &rec.hash));
    assert!(!verify_password("open sesame", "not a hash"));
    assert_eq!(rec.salt.len(), 22);
    assert!(!rec.salt.contains('='));
    assert!(rec.hash.contains(&rec.salt));
}

#[test]
fn registration_happens_once() {
    assert!(matches!(register(true, "bob".to_string(), "pw"), Err(AuthError::AlreadyRegistered)));
    let c = credential("pw");
    assert_eq!(c.username, "alice");
    assert_eq!(c.encryption_salt.len(), 64);
    assert!(c.encryption_salt.chars().all(|ch| ch.is_ascii_hexdigit()));
}

#[test]
fn unlock_validate_lock() {
    let cred = credential("pw");
    let mut guard = SessionGuard::new(900, 1000);
    let unlocked = guard.authenticate(Some(&cred), "pw", 1000).unwrap();
    assert_eq!(unlocked.new_encryption_salt, None);
    let key = unlocked.key;
    let token = guard.start_session(key, 1000);
    assert_eq!(token.len(), 64);
    assert!(guard.is_unlocked());
    assert_eq!(guard.validate(&token, 1010).unwrap(), key);
    assert_eq!(guard.validate("wrong", 1011), Err(AuthError::SessionExpired));
    assert!(guard.is_unlocked());
    guard.lock();
    assert!(!guard.is_unlocked());
    assert_eq!(guard.validate(&token, 1012), Err(AuthError::SessionExpired));
}

#[test]
fn wrong_password_is_generic_and_counted() {
    let cred = credential("pw");
    let mut guard = SessionGuard::new(900, 0);
    assert_eq!(guard.authenticate(Some(&cred), "nope", 0), Err(AuthError::InvalidCredentials));
    assert_eq!(guard.authenticate(None, "pw", 0), Err(AuthError::InvalidCredentials));
    assert_eq!(
        AuthError::InvalidCredentials.message(),
        "Invalid username or password"
    );
}

#[test]
fn backoff_after_three_failures() {
    let mut guard = SessionGuard::new(900, 0);
    for _ in 0..3 {
        assert_eq!(guard.authenticate(None, "pw", 50), Err(AuthError::InvalidCredentials));
    }
    let err = guard.authenticate(None, "pw", 50).unwrap_err();
    assert_eq!(err, AuthError::RateLimited { wait_secs: 2 });
    assert!(err.message().contains("Wait 2 seconds"));
    assert_eq!(guard.authenticate(None, "pw", 51), Err(AuthError::InvalidCredentials));
    assert_eq!(guard.authenticate(None, "pw", 51), Err(AuthError::RateLimited { wait_secs: 3 }));
}

#[test]
fn backoff_grows_and_caps() {
    let mut limiter = RateLimiter::new();
    for _ in 0..3 {
        limiter.record_failure(0);
    }
    assert_eq!(limiter.check(0), Err(1));
    assert_eq!(limiter.check(1), Ok(()));
    limiter.record_failure(0);
    assert_eq!(limiter.check(1), Err(1));
    assert_eq!(limiter.check(2), Ok(()));
    for _ in 0..10 {
        limiter.record_failure(0);
    }
    assert_eq!(limiter.check(0), Err(16));
    assert_eq!(limiter.check(15), Err(1));
    assert_eq!(limiter.check(16), Ok(()));
    limiter.reset();
    assert_eq!(limiter.check(0), Ok(()));
}

#[test]
fn auto_lock_clears_session_even_with_right_token() {
    let mut guard = SessionGuard::new(60, 0);
    let token = guard.start_session([3u8; 32], 0);
    assert!(guard.validate(&token, 60).is_ok());
    assert_eq!(guard.validate(&token, 121), Err(AuthError::SessionExpired));
    assert!(!guard.is_unlocked());
}

#[test]
fn touch_activity_keeps_session_alive() {
    let mut guard = SessionGuard::new(60, 0);
    let token = guard.start_session([3u8; 32], 0);
    guard.touch_activity(50);
    assert!(guard.validate(&token, 100).is_ok());
}

#[test]
fn zero_timeout_never_locks() {
    let mut guard = SessionGuard::new(0, 0);
    let token = guard.start_session([3u8; 32], 0);
    assert!(guard.validate(&token, 1_000_000).is_ok());
}

#[test]
fn profile_and_timeout_settings_need_a_token() {
    let mut guard = SessionGuard::new(900, 0);
    assert_eq!(guard.set_active_profile("t", 4, 0), Err(AuthError::SessionExpired));
    let token = guard.start_session([1u8; 32], 0);
    assert_eq!(guard.get_active_profile(&token, 1), Ok(1));
    assert_eq!(guard.set_active_profile(&token, 4, 2), Ok(()));
    assert_eq!(guard.get_active_profile(&token, 3), Ok(4));
    assert_eq!(guard.set_auto_lock_seconds(&token, 30, 4), Ok(()));
    assert_eq!(guard.get_auto_lock_seconds(), 30);
    guard.lock();
    assert_eq!(guard.get_auto_lock_seconds(), 30);
    let token = guard.start_session([1u8; 32], 10);
    assert_eq!(guard.get_active_profile(&token, 11), Ok(1));
}

#[test]
fn malformed_encryption_salt_is_reported() {
    let mut cred = credential("pw");
    cred.encryption_salt = "zz".to_string();
    let mut guard = SessionGuard::new(900, 0);
    assert_eq!(guard.authenticate(Some(&cred), "pw", 0), Err(AuthError::InvalidEncryptionSalt));
}

#[test]
fn empty_encryption_salt_gets_a_fresh_one() {
    let mut cred = credential("pw");
    cred.encryption_salt = String::new();
    let mut guard = SessionGuard::new(900, 0);
    let unlocked = guard.authenticate(Some(&cred), "pw", 0).unwrap();
    let salt = unlocked.new_encryption_salt.expect("a fresh salt to store");
    assert_eq!(salt.len(), 64);
    assert!(salt.chars().all(|ch| ch.is_ascii_hexdigit() && !ch.is_ascii_uppercase()));
    assert_ne!(unlocked.key, [0u8; 32]);
}

#[test]
fn error_texts() {
    assert_eq!(AuthError::AlreadyRegistered.message(), "User already registered");
    assert_eq!(AuthError::RateLimited { wait_secs: 16 }.message(), "Too many failed attempts. Wait 16 seconds.");
    assert_eq!(AuthError::SessionExpired.message(), "Session expired. Please log in again.");
}
