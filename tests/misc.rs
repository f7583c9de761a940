use vibevault::ble_sync::{BleSyncManager, SyncState};
use vibevault::store::{check_profile_deletable, ProfileError};
use vibevault::totp::{generate_code, get_totp_token, TotpError};

#[test]
fn sync_state_machine() {
    let mut m = BleSyncManager::new();
    assert_eq!(m.get_state(), SyncState::Idle);
    assert!(m.confirm_code("123456").is_err());
    m.simulate_peer_found();
    assert_eq!(m.get_state(), SyncState::Idle);
    m.start_push_mode().unwrap();
    assert_eq!(m.get_state(), SyncState::AdvertisingPush);
    m.start_pull_mode().unwrap();
    assert_eq!(m.get_state(), SyncState::AdvertisingPull);
    m.simulate_peer_found();
    let code = match m.get_state() {
        SyncState::ConfirmCode { code } => code,
        other => panic!("unexpected state {:?}", other),
    };
    assert_eq!(code.len(), 6);
    let wrong = if code == "000000" { "000001" } else { "000000" };
    assert_eq!(m.confirm_code(wrong), Err("Invalid Code".to_string()));
    assert_eq!(m.confirm_code(&code), Ok("Paired! Starting Sync...".to_string()));
    assert_eq!(m.get_state(), SyncState::Syncing);
    m.stop();
    assert_eq!(m.get_state(), SyncState::Idle);
}

#[test]
fn profile_deletion_rules() {
    assert_eq!(check_profile_deletable(2, 3), Err(ProfileError::HasActiveEntries));
    assert_eq!(check_profile_deletable(0, 1), Err(ProfileError::LastProfile));
    assert_eq!(check_profile_deletable(0, 2), Ok(()));
}

// RFC 6238 test secret "12345678901234567890" in Base32.
const RFC_SECRET: &str = "GEZDGNBVGY3TQOJQGEZDGNBVGY3TQOJQ";

#[test]
fn totp_matches_rfc6238_vectors() {
    assert_eq!(generate_code(RFC_SECRET, 59).unwrap(), ("287082".to_string(), 1));
    assert_eq!(generate_code(RFC_SECRET, 1111111109).unwrap(), ("081804".to_string(), 1));
    assert_eq!(generate_code(RFC_SECRET, 1234567890).unwrap(), ("005924".to_string(), 30));
    assert_eq!(get_totp_token(RFC_SECRET, 59).unwrap(), "287082");
}

#[test]
fn totp_secret_is_normalised() {
    let messy = "gezd gnbv gy3t qojq gezd gnbv gy3t qojq====";
    assert_eq!(get_totp_token(messy, 1111111109).unwrap(), "081804");
    assert_eq!(get_totp_token("not base32!", 0), Err(TotpError::InvalidSecret));
    assert_eq!(generate_code("GEZD GNBV", 0), Err(TotpError::InvalidSecret));
}
