//! The session guard: registration, unlock with brute-force backoff,
//! bearer-token validation with auto-lock, and lock.
//!
//! Time is passed in by the caller as whole seconds on a monotone clock.

use vstd::prelude::*;
use vstd::string::StringSliceAdditionalSpecFns;
use vstd::utf8::{encode_utf8, encode_utf8_decode_utf8};

use crate::encoding::{
    append_text, decimal_of, decimal_text, hex_decode, hex_decoded, hex_encode, hex_text,
};
use crate::kdf::{
    vault_phc, base64_unpadded, derive_encryption_key, derivation_of, hash_password,
    phc_matches, verify_password, AUTH_SALT_LEN, ENCRYPTION_SALT_LEN, MAX_ARGON_INPUT_LEN,
};
use crate::random::random_bytes;
use crate::secret::{wipe_key, wipe_string};

verus! {

/// Consecutive failures that are let through without delay.
pub const FREE_ATTEMPTS: u32 = 3;

/// Longest backoff, in seconds.
pub const MAX_BACKOFF_SECS: u64 = 16;

/// Default idle time before the session locks itself (15 minutes).
pub const DEFAULT_AUTO_LOCK_SECS: u64 = 900;

/// The profile selected after a lock.
pub const DEFAULT_PROFILE_ID: i64 = 1;

/// Random bytes behind a session token.
pub const TOKEN_BYTES: usize = 32;

/// Seconds to wait after `failures` consecutive failures before the next
/// attempt is verified: none below three, then `min(2^(failures-3), 16)`.
pub open spec fn backoff_secs(failures: u32) -> u64 {
    if failures < FREE_ATTEMPTS {
        0
    } else if failures - FREE_ATTEMPTS >= 4 {
        MAX_BACKOFF_SECS
    } else {
        vstd::arithmetic::power2::pow2((failures - FREE_ATTEMPTS) as nat) as u64
    }
}

/// Seconds from `from` to `to`, or zero if the clock went backwards.
pub open spec fn elapsed(from: u64, to: u64) -> u64 {
    if to >= from {
        (to - from) as u64
    } else {
        0
    }
}

/// The verdict of the backoff check: `Err(n)` means `n` seconds of the
/// wait are left.
pub open spec fn backoff_verdict(failures: u32, last_failure: Option<u64>, now: u64) -> Result<
    (),
    u64,
> {
    if failures < FREE_ATTEMPTS {
        Ok(())
    } else {
        match last_failure {
            Some(last) => if elapsed(last, now) < backoff_secs(failures) {
                Err((backoff_secs(failures) - elapsed(last, now)) as u64)
            } else {
                Ok(())
            },
            None => Ok(()),
        }
    }
}

/// Count of consecutive failed unlock attempts and the time of the last one.
#[derive(Debug, Clone, Copy, PartialEq, Eq, Structural)]
pub struct RateLimiter {
    pub attempts: u32,
    pub last_failure: Option<u64>,
}

impl RateLimiter {
    pub fn new() -> (r: Self)
        ensures
            r.attempts == 0,
            r.last_failure is None,
    {
        RateLimiter { attempts: 0, last_failure: None }
    }

    /// `Ok` when an attempt may be verified now, else `Err` with the
    /// seconds left to wait.
    pub fn check(&self, now: u64) -> (r: Result<(), u64>)
        ensures
            r == backoff_verdict(self.attempts, self.last_failure, now),
    {
        if self.attempts < FREE_ATTEMPTS {
            return Ok(());
        }
        match self.last_failure {
            Some(last) => {
                let gone: u64 = if now >= last {
                    now - last
                } else {
                    0
                };
                let exp: u32 = if self.attempts - FREE_ATTEMPTS >= 4 {
                    4
                } else {
                    self.attempts - FREE_ATTEMPTS
                };
                let mut wait: u64 = 1;
                let mut k: u32 = 0;
                proof {
                    vstd::arithmetic::power2::lemma2_to64();
                }
                while k < exp
                    invariant
                        k <= exp <= 4,
                        wait == vstd::arithmetic::power2::pow2(k as nat),
                    decreases exp - k,
                {
                    proof {
                        vstd::arithmetic::power2::lemma_pow2_unfold((k + 1) as nat);
                        vstd::arithmetic::power2::lemma_pow2_strictly_increases(k as nat, 4);
                        vstd::arithmetic::power2::lemma2_to64();
                    }
                    wait = wait * 2;
                    k = k + 1;
                }
                proof {
                    vstd::arithmetic::power2::lemma2_to64();
                }
                if gone < wait {
                    Err(wait - gone)
                } else {
                    Ok(())
                }
            },
            None => Ok(()),
        }
    }

    /// Count one more failure, at `now`.
    pub fn record_failure(&mut self, now: u64)
        ensures
            final(self).attempts == if old(self).attempts == u32::MAX {
                u32::MAX
            } else {
                (old(self).attempts + 1) as u32
            },
            final(self).last_failure == Some(now),
    {
        if self.attempts < u32::MAX {
            self.attempts = self.attempts + 1;
        }
        self.last_failure = Some(now);
    }

    /// Forget all failures.
    pub fn reset(&mut self)
        ensures
            final(self).attempts == 0,
            final(self).last_failure is None,
    {
        self.attempts = 0;
        self.last_failure = None;
    }
}

proof fn lemma_wait_bounded(failures: u32, last_failure: Option<u64>, now: u64)
    ensures
        backoff_verdict(failures, last_failure, now) matches Err(w) ==> 1 <= w <= MAX_BACKOFF_SECS,
{
    vstd::arithmetic::power2::lemma2_to64();
    if failures >= FREE_ATTEMPTS && failures - FREE_ATTEMPTS < 4 {
        vstd::arithmetic::power2::lemma_pow2_strictly_increases((failures - FREE_ATTEMPTS) as nat, 4);
    }
}

/// Auto-lock: once the session has been idle longer than a non-zero
/// timeout, validation fails and leaves no session behind, even for the
/// right token.
pub proof fn lemma_auto_lock(auto_lock_secs: u64, last_activity: u64, now: u64)
    requires
        auto_lock_secs > 0,
        now >= last_activity,
        now - last_activity > auto_lock_secs,
    ensures
        idle_expired(auto_lock_secs, last_activity, now),
{
}

/// Brute-force backoff: after three consecutive failures, an attempt less
/// than one second after the third failure is refused with a wait, and once
/// that second has passed the attempt goes on to verification.
pub proof fn lemma_backoff_after_three_failures(last_failure: u64, now: u64)
    ensures
        now >= last_failure && now - last_failure < 1 ==> backoff_verdict(
            3,
            Some(last_failure),
            now,
        ) == Err::<(), u64>(1),
        now >= last_failure + 1 ==> backoff_verdict(3, Some(last_failure), now) is Ok,
{
    vstd::arithmetic::power2::lemma2_to64();
}


/// Why a session operation failed. Authentication failures are reported
/// without saying which check failed.
#[derive(Debug, Clone, Copy, PartialEq, Eq, Structural)]
pub enum AuthError {
    /// A user is registered already.
    AlreadyRegistered,
    /// Hashing the new password failed.
    RegistrationFailed,
    /// Too many consecutive failures: try again after this many seconds.
    RateLimited { wait_secs: u64 },
    /// Unknown user or wrong password.
    InvalidCredentials,
    /// The stored encryption salt is not valid hexadecimal.
    InvalidEncryptionSalt,
    /// The encryption key could not be derived.
    KeyDerivationFailed,
    /// No session, a wrong token, or the session locked itself when idle.
    SessionExpired,
}

impl AuthError {
    /// The user-facing text of the error.
    pub fn message(&self) -> (r: String)
        ensures
            *self == AuthError::AlreadyRegistered ==> r@ == "User already registered"@,
            *self == AuthError::RegistrationFailed ==> r@ == "Registration failed"@,
            self matches AuthError::RateLimited { wait_secs } ==> r@
                == "Too many failed attempts. Wait "@ + decimal_of(wait_secs as nat)
                + " seconds."@,
            *self == AuthError::InvalidCredentials ==> r@ == "Invalid username or password"@,
            *self == AuthError::InvalidEncryptionSalt ==> r@ == "Invalid encryption salt"@,
            *self == AuthError::KeyDerivationFailed ==> r@ == "Key derivation failed"@,
            *self == AuthError::SessionExpired ==> r@ == "Session expired. Please log in again."@,
    {
        match self {
            AuthError::AlreadyRegistered => "User already registered".to_owned(),
            AuthError::RegistrationFailed => "Registration failed".to_owned(),
            AuthError::RateLimited { wait_secs } => {
                let s = append_text("Too many failed attempts. Wait ".to_owned(), decimal_text(*wait_secs).as_str());
                append_text(s, " seconds.")
            },
            AuthError::InvalidCredentials => "Invalid username or password".to_owned(),
            AuthError::InvalidEncryptionSalt => "Invalid encryption salt".to_owned(),
            AuthError::KeyDerivationFailed => "Key derivation failed".to_owned(),
            AuthError::SessionExpired => "Session expired. Please log in again.".to_owned(),
        }
    }
}

/// The one stored user credential: the password verifier and the
/// independent salt of the data-encryption key (hexadecimal).
pub struct UserCredential {
    pub username: String,
    pub password_hash: String,
    pub salt: String,
    pub encryption_salt: String,
}

/// An unlocked session: the bearer token and the data-encryption key. Both
/// are overwritten when the session is dropped.
pub struct SessionState {
    pub token: String,
    pub encryption_key: [u8; 32],
}

impl Drop for SessionState {
    fn drop(&mut self)
        opens_invariants none
        no_unwind
    {
        wipe_key(&mut self.encryption_key);
        wipe_string(&mut self.token);
    }
}

/// Create the credential of the first and only user: a password hash under
/// a fresh salt, and a fresh, independent 32-byte encryption salt.
pub fn register(already_registered: bool, username: String, password: &str) -> (r: Result<
    UserCredential,
    AuthError,
>)
    ensures
        already_registered ==> r == Err::<UserCredential, AuthError>(AuthError::AlreadyRegistered),
        !already_registered ==> (r is Ok || r == Err::<UserCredential, AuthError>(
            AuthError::RegistrationFailed,
        )),
        !already_registered && password.spec_bytes().len() <= MAX_ARGON_INPUT_LEN ==> r is Ok,
        r matches Ok(c) ==> {
            &&& c.username@ == username@
            &&& exists|salt: Seq<u8>|
                {
                    &&& salt.len() == AUTH_SALT_LEN
                    &&& #[trigger] vault_phc(password.spec_bytes(), salt) == c.password_hash@
                    &&& c.salt@ == base64_unpadded(salt)
                }
            &&& c.encryption_salt@.len() == 2 * ENCRYPTION_SALT_LEN
            &&& exists|b: Seq<u8>|
                b.len() == ENCRYPTION_SALT_LEN && c.encryption_salt@ == #[trigger] hex_text(b)
        },
{
    if already_registered {
        return Err(AuthError::AlreadyRegistered);
    }
    match hash_password(password) {
        Ok(rec) => {
            let enc_salt = random_bytes(ENCRYPTION_SALT_LEN);
            let encryption_salt = hex_encode(enc_salt.as_slice());
            Ok(UserCredential { username, password_hash: rec.hash, salt: rec.salt, encryption_salt })
        },
        Err(_) => Err(AuthError::RegistrationFailed),
    }
}

/// Compare two byte strings in time that depends on their lengths only.
pub fn constant_time_eq(a: &[u8], b: &[u8]) -> (r: bool)
    ensures
        r == (a@ == b@),
{
    if a.len() != b.len() {
        return false;
    }
    let mut diff: u8 = 0;
    let mut i: usize = 0;
    while i < a.len()
        invariant
            a@.len() == b@.len(),
            i <= a@.len(),
            (diff == 0) <==> (forall|k: int| 0 <= k < i ==> a@[k] == b@[k]),
        decreases a@.len() - i,
    {
        let x = a[i];
        let y = b[i];
        proof {
            assert((diff | (x ^ y)) == 0 <==> (diff == 0 && x == y)) by (bit_vector);
        }
        diff = diff | (x ^ y);
        i = i + 1;
    }
    proof {
        if diff == 0 {
            assert(a@ == b@);
        }
    }
    diff == 0
}

/// The session has been idle longer than the auto-lock timeout (0: never).
pub open spec fn idle_expired(auto_lock_secs: u64, last_activity: u64, now: u64) -> bool {
    auto_lock_secs > 0 && elapsed(last_activity, now) > auto_lock_secs
}

/// The password is accepted for the credential found for the username.
pub open spec fn password_accepted(credential: Option<&UserCredential>, password: Seq<u8>) -> bool {
    match credential {
        Some(c) => phc_matches(password, c.password_hash@),
        None => false,
    }
}

/// The outcome of a successful authentication: the key derived from the
/// password and the credential's encryption salt.
pub open spec fn unlock_key(c: &UserCredential, password: Seq<u8>) -> Result<Seq<u8>, AuthError> {
    match hex_decoded(encode_utf8(c.encryption_salt@)) {
        None => Err(AuthError::InvalidEncryptionSalt),
        Some(salt) => match derivation_of(password, salt) {
            Ok(k) => Ok(k),
            Err(_) => Err(AuthError::KeyDerivationFailed),
        },
    }
}

/// The key of a successful authentication, and the fresh encryption salt
/// (hexadecimal) that the caller must store when the stored one was empty.
#[derive(Debug, PartialEq, Eq)]
pub struct UnlockKey {
    pub key: [u8; 32],
    pub new_encryption_salt: Option<String>,
}

/// The key view of an authentication result.
pub open spec fn auth_key_view(r: Result<UnlockKey, AuthError>) -> Result<Seq<u8>, AuthError> {
    match r {
        Ok(u) => Ok(u.key@),
        Err(e) => Err(e),
    }
}

/// The outcome when a fresh encryption salt `salt` was drawn because the
/// stored one was empty: the key derived under it, with the salt in
/// hexadecimal for the caller to store.
pub open spec fn fresh_salt_unlock(r: Result<UnlockKey, AuthError>, password: Seq<u8>, salt: Seq<u8>) -> bool {
    match derivation_of(password, salt) {
        Ok(k) => match r {
            Ok(u) => u.key@ == k && (u.new_encryption_salt matches Some(s) && s@ == hex_text(salt)),
            Err(_) => false,
        },
        Err(_) => r == Err::<UnlockKey, AuthError>(AuthError::KeyDerivationFailed),
    }
}

/// The session state machine: Locked (no session) or Unlocked, with the
/// activity clock, the auto-lock timeout, the active profile and the
/// brute-force counter.
pub struct SessionGuard {
    session: Option<SessionState>,
    last_activity: u64,
    auto_lock_seconds: u64,
    active_profile_id: i64,
    limiter: RateLimiter,
}

impl SessionGuard {
    /// The token of the open session, if unlocked.
    pub closed spec fn token_view(&self) -> Option<Seq<char>> {
        match &self.session {
            Some(s) => Some(s.token@),
            None => None,
        }
    }

    /// The key of the open session, if unlocked.
    pub closed spec fn key_view(&self) -> Option<Seq<u8>> {
        match &self.session {
            Some(s) => Some(s.encryption_key@),
            None => None,
        }
    }

    pub closed spec fn spec_last_activity(&self) -> u64 {
        self.last_activity
    }

    pub closed spec fn spec_auto_lock(&self) -> u64 {
        self.auto_lock_seconds
    }

    pub closed spec fn spec_active_profile(&self) -> i64 {
        self.active_profile_id
    }

    pub closed spec fn spec_limiter(&self) -> RateLimiter {
        self.limiter
    }

    /// Locked, default profile, no failures; idle timeout `auto_lock_seconds`
    /// (0 turns auto-lock off).
    pub fn new(auto_lock_seconds: u64, now: u64) -> (r: Self)
        ensures
            r.token_view() is None,
            r.key_view() is None,
            r.spec_last_activity() == now,
            r.spec_auto_lock() == auto_lock_seconds,
            r.spec_active_profile() == DEFAULT_PROFILE_ID,
            r.spec_limiter() == (RateLimiter { attempts: 0, last_failure: None }),
    {
        SessionGuard {
            session: None,
            last_activity: now,
            auto_lock_seconds,
            active_profile_id: DEFAULT_PROFILE_ID,
            limiter: RateLimiter::new(),
        }
    }

    /// Whether a session is open.
    pub fn is_unlocked(&self) -> (r: bool)
        ensures
            r == self.token_view() is Some,
    {
        self.session.is_some()
    }

    /// First half of unlock: the backoff check, password verification and
    /// key derivation. A credential stored without an encryption salt gets a
    /// fresh random one, returned for the caller to store. `credential` is the stored credential of the given
    /// username, if there is one. A failed verification counts against the
    /// backoff; a successful one clears it. Opens no session.
    pub fn authenticate(
        &mut self,
        credential: Option<&UserCredential>,
        password: &str,
        now: u64,
    ) -> (r: Result<UnlockKey, AuthError>)
        ensures
            final(self).token_view() == old(self).token_view(),
            final(self).key_view() == old(self).key_view(),
            final(self).spec_last_activity() == old(self).spec_last_activity(),
            final(self).spec_auto_lock() == old(self).spec_auto_lock(),
            final(self).spec_active_profile() == old(self).spec_active_profile(),
            backoff_verdict(
                old(self).spec_limiter().attempts,
                old(self).spec_limiter().last_failure,
                now,
            ) matches Err(w) ==> {
                &&& r == Err::<UnlockKey, AuthError>(
                    AuthError::RateLimited { wait_secs: (w + 1) as u64 },
                )
                &&& final(self).spec_limiter() == old(self).spec_limiter()
            },
            backoff_verdict(
                old(self).spec_limiter().attempts,
                old(self).spec_limiter().last_failure,
                now,
            ) is Ok && !password_accepted(credential, password.spec_bytes()) ==> {
                &&& r == Err::<UnlockKey, AuthError>(AuthError::InvalidCredentials)
                &&& final(self).spec_limiter().last_failure == Some(now)
                &&& final(self).spec_limiter().attempts == if old(self).spec_limiter().attempts
                    == u32::MAX {
                    u32::MAX
                } else {
                    (old(self).spec_limiter().attempts + 1) as u32
                }
            },
            backoff_verdict(
                old(self).spec_limiter().attempts,
                old(self).spec_limiter().last_failure,
                now,
            ) is Ok && password_accepted(credential, password.spec_bytes()) ==> {
                &&& final(self).spec_limiter() == (RateLimiter { attempts: 0, last_failure: None })
                &&& credential->0.encryption_salt@.len() == 0 ==> exists|salt: Seq<u8>|
                    salt.len() == ENCRYPTION_SALT_LEN && #[trigger] fresh_salt_unlock(
                        r,
                        password.spec_bytes(),
                        salt,
                    )
                &&& credential->0.encryption_salt@.len() > 0 ==> {
                    &&& auth_key_view(r) == unlock_key(credential->0, password.spec_bytes())
                    &&& r matches Ok(u) ==> u.new_encryption_salt is None
                }
            },
    {
        match self.limiter.check(now) {
            Err(wait) => {
                proof {
                    lemma_wait_bounded(self.limiter.attempts, self.limiter.last_failure, now);
                }
                return Err(AuthError::RateLimited { wait_secs: wait + 1 });
            },
            Ok(()) => {},
        }
        let accepted = match credential {
            Some(c) => verify_password(password, c.password_hash.as_str()),
            None => false,
        };
        if !accepted {
            self.limiter.record_failure(now);
            return Err(AuthError::InvalidCredentials);
        }
        self.limiter.reset();
        let c = credential.unwrap();
        let (salt, new_encryption_salt) = if c.encryption_salt.as_str().is_empty() {
            let fresh = random_bytes(ENCRYPTION_SALT_LEN);
            let text = hex_encode(fresh.as_slice());
            (fresh, Some(text))
        } else {
            match hex_decode(c.encryption_salt.as_str()) {
                Some(s) => (s, None),
                None => {
                    return Err(AuthError::InvalidEncryptionSalt);
                },
            }
        };
        let r = match derive_encryption_key(password, salt.as_slice()) {
            Ok(key) => Ok(UnlockKey { key, new_encryption_salt }),
            Err(_) => Err(AuthError::KeyDerivationFailed),
        };
        proof {
            if c.encryption_salt@.len() == 0 {
                assert(fresh_salt_unlock(r, password.spec_bytes(), salt@));
            }
        }
        r
    }

    /// Second half of unlock: open a session under a fresh random token
    /// (64 lower-case hex digits) holding `key`, and restart the activity
    /// clock. Any earlier session is dropped, and its key wiped.
    pub fn start_session(&mut self, key: [u8; 32], now: u64) -> (r: String)
        ensures
            r@.len() == 2 * TOKEN_BYTES,
            exists|b: Seq<u8>| b.len() == TOKEN_BYTES && r@ == #[trigger] hex_text(b),
            final(self).token_view() == Some(r@),
            final(self).key_view() == Some(key@),
            final(self).spec_last_activity() == now,
            final(self).spec_auto_lock() == old(self).spec_auto_lock(),
            final(self).spec_active_profile() == old(self).spec_active_profile(),
            final(self).spec_limiter() == old(self).spec_limiter(),
    {
        let bytes = random_bytes(TOKEN_BYTES);
        let token = hex_encode(bytes.as_slice());
        let stored = token.clone();
        self.session = Some(SessionState { token: stored, encryption_key: key });
        self.last_activity = now;
        token
    }

    /// Lock unconditionally: drop the session (wiping its key) and select
    /// the default profile again.
    pub fn lock(&mut self)
        ensures
            final(self).token_view() is None,
            final(self).key_view() is None,
            final(self).spec_active_profile() == DEFAULT_PROFILE_ID,
            final(self).spec_last_activity() == old(self).spec_last_activity(),
            final(self).spec_auto_lock() == old(self).spec_auto_lock(),
            final(self).spec_limiter() == old(self).spec_limiter(),
    {
        self.session = None;
        self.active_profile_id = DEFAULT_PROFILE_ID;
    }

    /// Check a bearer token and hand out the session key. A session idle for
    /// longer than the auto-lock timeout is dropped first, whatever the
    /// token. The token is compared in constant time. Success counts as
    /// activity.
    pub fn validate(&mut self, token: &str, now: u64) -> (r: Result<[u8; 32], AuthError>)
        ensures
            final(self).spec_auto_lock() == old(self).spec_auto_lock(),
            final(self).spec_active_profile() == old(self).spec_active_profile(),
            final(self).spec_limiter() == old(self).spec_limiter(),
            idle_expired(old(self).spec_auto_lock(), old(self).spec_last_activity(), now) ==> {
                &&& r == Err::<[u8; 32], AuthError>(AuthError::SessionExpired)
                &&& final(self).token_view() is None
                &&& final(self).key_view() is None
                &&& final(self).spec_last_activity() == old(self).spec_last_activity()
            },
            !idle_expired(old(self).spec_auto_lock(), old(self).spec_last_activity(), now)
                && old(self).token_view() != Some(token@) ==> {
                &&& r == Err::<[u8; 32], AuthError>(AuthError::SessionExpired)
                &&& final(self).token_view() == old(self).token_view()
                &&& final(self).key_view() == old(self).key_view()
                &&& final(self).spec_last_activity() == old(self).spec_last_activity()
            },
            !idle_expired(old(self).spec_auto_lock(), old(self).spec_last_activity(), now)
                && old(self).token_view() == Some(token@) ==> {
                &&& r matches Ok(k) && old(self).key_view() == Some(k@)
                &&& final(self).token_view() == old(self).token_view()
                &&& final(self).key_view() == old(self).key_view()
                &&& final(self).spec_last_activity() == now
            },
    {
        let idle: u64 = if now >= self.last_activity {
            now - self.last_activity
        } else {
            0
        };
        if self.auto_lock_seconds > 0 && idle > self.auto_lock_seconds {
            self.session = None;
            return Err(AuthError::SessionExpired);
        }
        let key = match &self.session {
            Some(s) => {
                let same = constant_time_eq(token.as_bytes(), s.token.as_str().as_bytes());
                proof {
                    encode_utf8_decode_utf8(token@);
                    encode_utf8_decode_utf8(s.token@);
                }
                if !same {
                    return Err(AuthError::SessionExpired);
                }
                s.encryption_key
            },
            None => {
                return Err(AuthError::SessionExpired);
            },
        };
        self.last_activity = now;
        Ok(key)
    }

    /// The idle timeout in seconds (0: auto-lock off).
    pub fn get_auto_lock_seconds(&self) -> (r: u64)
        ensures
            r == self.spec_auto_lock(),
    {
        self.auto_lock_seconds
    }

    /// Change the idle timeout; needs a valid token.
    pub fn set_auto_lock_seconds(&mut self, token: &str, seconds: u64, now: u64) -> (r: Result<
        (),
        AuthError,
    >)
        ensures
            final(self).spec_active_profile() == old(self).spec_active_profile(),
            final(self).spec_limiter() == old(self).spec_limiter(),
            idle_expired(old(self).spec_auto_lock(), old(self).spec_last_activity(), now) ==> {
                &&& r == Err::<(), AuthError>(AuthError::SessionExpired)
                &&& final(self).token_view() is None
                &&& final(self).spec_auto_lock() == old(self).spec_auto_lock()
            },
            !idle_expired(old(self).spec_auto_lock(), old(self).spec_last_activity(), now)
                && old(self).token_view() != Some(token@) ==> {
                &&& r == Err::<(), AuthError>(AuthError::SessionExpired)
                &&& final(self).token_view() == old(self).token_view()
                &&& final(self).spec_auto_lock() == old(self).spec_auto_lock()
            },
            !idle_expired(old(self).spec_auto_lock(), old(self).spec_last_activity(), now)
                && old(self).token_view() == Some(token@) ==> {
                &&& r is Ok
                &&& final(self).token_view() == old(self).token_view()
                &&& final(self).spec_auto_lock() == seconds
                &&& final(self).spec_last_activity() == now
            },
    {
        match self.validate(token, now) {
            Ok(_) => {
                self.auto_lock_seconds = seconds;
                Ok(())
            },
            Err(e) => Err(e),
        }
    }

    /// The selected profile; needs a valid token.
    pub fn get_active_profile(&mut self, token: &str, now: u64) -> (r: Result<i64, AuthError>)
        ensures
            final(self).spec_active_profile() == old(self).spec_active_profile(),
            final(self).spec_auto_lock() == old(self).spec_auto_lock(),
            !idle_expired(old(self).spec_auto_lock(), old(self).spec_last_activity(), now)
                && old(self).token_view() == Some(token@) ==> r == Ok::<i64, AuthError>(
                old(self).spec_active_profile(),
            ),
            (idle_expired(old(self).spec_auto_lock(), old(self).spec_last_activity(), now)
                || old(self).token_view() != Some(token@)) ==> r == Err::<i64, AuthError>(
                AuthError::SessionExpired,
            ),
    {
        match self.validate(token, now) {
            Ok(_) => Ok(self.active_profile_id),
            Err(e) => Err(e),
        }
    }

    /// Select a profile; needs a valid token.
    pub fn set_active_profile(&mut self, token: &str, id: i64, now: u64) -> (r: Result<
        (),
        AuthError,
    >)
        ensures
            final(self).spec_auto_lock() == old(self).spec_auto_lock(),
            !idle_expired(old(self).spec_auto_lock(), old(self).spec_last_activity(), now)
                && old(self).token_view() == Some(token@) ==> r is Ok
                && final(self).spec_active_profile() == id,
            (idle_expired(old(self).spec_auto_lock(), old(self).spec_last_activity(), now)
                || old(self).token_view() != Some(token@)) ==> r == Err::<(), AuthError>(
                AuthError::SessionExpired,
            ) && final(self).spec_active_profile() == old(self).spec_active_profile(),
    {
        match self.validate(token, now) {
            Ok(_) => {
                self.active_profile_id = id;
                Ok(())
            },
            Err(e) => Err(e),
        }
    }

    /// Restart the activity clock without checking a token.
    pub fn touch_activity(&mut self, now: u64)
        ensures
            final(self).spec_last_activity() == now,
            final(self).token_view() == old(self).token_view(),
            final(self).key_view() == old(self).key_view(),
            final(self).spec_auto_lock() == old(self).spec_auto_lock(),
            final(self).spec_active_profile() == old(self).spec_active_profile(),
            final(self).spec_limiter() == old(self).spec_limiter(),
    {
        self.last_activity = now;
    }
}

} // verus!
