//! Rows of the record store, as the core reads and writes them, and the
//! rules on profiles.

use vstd::prelude::*;

verus! {

/// A stored vault entry.
#[derive(Debug)]
pub struct DbVaultEntry {
    pub id: i64,
    pub uuid: String,
    pub data_blob: Vec<u8>,
    pub nonce: Vec<u8>,
    pub created_at: Option<i64>,
}

/// A stored user.
#[derive(Debug)]
pub struct User {
    pub id: i64,
    pub username: String,
    pub password_hash: String,
    pub salt: String,
}

/// A device paired earlier.
#[derive(Debug)]
pub struct PairedDevice {
    pub id: i64,
    pub device_name: String,
    pub device_id: String,
    pub paired_at: String,
    pub last_sync_at: Option<String>,
}

/// One line of the sync log.
#[derive(Debug)]
pub struct SyncHistoryEntry {
    pub id: i64,
    pub device_id: String,
    pub direction: String,
    pub entries_sent: i64,
    pub entries_received: i64,
    pub status: String,
    pub started_at: String,
    pub completed_at: Option<String>,
    pub error_message: Option<String>,
}

/// Progress of a transfer, for display.
#[derive(Debug)]
pub struct SyncProgress {
    pub state: String,
    pub chunks_transferred: u32,
    pub total_chunks: u32,
    pub message: String,
}

/// What the radio layer hands to the sync orchestrator.
#[derive(Debug)]
pub enum PeripheralEvent {
    PairingDataReceived { data: Vec<u8> },
    SyncControlReceived { control: u8 },
    DataChunkReceived { data: Vec<u8> },
}

/// Why a profile cannot be deleted.
#[derive(Debug, Clone, Copy, PartialEq, Eq, Structural)]
pub enum ProfileError {
    /// It still holds active (not deleted) entries.
    HasActiveEntries,
    /// It is the only profile; at least one must remain.
    LastProfile,
}

impl ProfileError {
    /// The user-facing text of the error.
    pub fn message(&self) -> (r: &'static str)
        ensures
            *self == ProfileError::HasActiveEntries ==> r@ == "Cannot delete profile with entries. Move or delete entries first."@,
            *self == ProfileError::LastProfile ==> r@ == "Cannot delete the last profile."@,
    {
        match self {
            ProfileError::HasActiveEntries => "Cannot delete profile with entries. Move or delete entries first.",
            ProfileError::LastProfile => "Cannot delete the last profile.",
        }
    }
}

/// A profile may be deleted when it has no active entries and is not the
/// last profile; active entries are reported first.
pub fn check_profile_deletable(active_entries: i64, profile_count: i64) -> (r: Result<
    (),
    ProfileError,
>)
    ensures
        active_entries > 0 ==> r == Err::<(), ProfileError>(ProfileError::HasActiveEntries),
        active_entries <= 0 && profile_count <= 1 ==> r == Err::<(), ProfileError>(
            ProfileError::LastProfile,
        ),
        active_entries <= 0 && profile_count > 1 ==> r is Ok,
{
    if active_entries > 0 {
        return Err(ProfileError::HasActiveEntries);
    }
    if profile_count <= 1 {
        return Err(ProfileError::LastProfile);
    }
    Ok(())
}

} // verus!
