//! The user-facing state of a proximity sync: advertising in push or pull
//! mode, code confirmation, syncing.

use vstd::prelude::*;
use vstd::utf8::encode_utf8_decode_utf8;

use crate::pairing::{code_for, random_pairing_code};
use crate::session::constant_time_eq;

verus! {

/// Where a sync stands.
#[derive(Debug, PartialEq, Eq)]
pub enum SyncState {
    Idle,
    /// Advertising as the source of the data.
    AdvertisingPush,
    /// Advertising as the sink of the data.
    AdvertisingPull,
    /// A peer was found; the connection is being set up.
    HandshakeWait,
    /// Waiting for the operator to confirm the code shown.
    ConfirmCode { code: String },
    Syncing,
    Error(String),
}

/// The state with its text fields seen as character sequences.
pub enum SyncStateView {
    Idle,
    AdvertisingPush,
    AdvertisingPull,
    HandshakeWait,
    ConfirmCode { code: Seq<char> },
    Syncing,
    Error(Seq<char>),
}

impl SyncState {
    pub open spec fn view(&self) -> SyncStateView {
        match self {
            SyncState::Idle => SyncStateView::Idle,
            SyncState::AdvertisingPush => SyncStateView::AdvertisingPush,
            SyncState::AdvertisingPull => SyncStateView::AdvertisingPull,
            SyncState::HandshakeWait => SyncStateView::HandshakeWait,
            SyncState::ConfirmCode { code } => SyncStateView::ConfirmCode { code: code@ },
            SyncState::Syncing => SyncStateView::Syncing,
            SyncState::Error(m) => SyncStateView::Error(m@),
        }
    }

    /// A copy with the same view.
    pub fn duplicate(&self) -> (r: SyncState)
        ensures
            r.view() == self.view(),
    {
        match self {
            SyncState::Idle => SyncState::Idle,
            SyncState::AdvertisingPush => SyncState::AdvertisingPush,
            SyncState::AdvertisingPull => SyncState::AdvertisingPull,
            SyncState::HandshakeWait => SyncState::HandshakeWait,
            SyncState::ConfirmCode { code } => SyncState::ConfirmCode { code: code.clone() },
            SyncState::Syncing => SyncState::Syncing,
            SyncState::Error(m) => SyncState::Error(m.clone()),
        }
    }
}

/// The sync state machine.
pub struct BleSyncManager {
    state: SyncState,
}

impl BleSyncManager {
    pub closed spec fn state_view(&self) -> SyncStateView {
        self.state.view()
    }

    pub fn new() -> (r: Self)
        ensures
            r.state_view() == SyncStateView::Idle,
    {
        BleSyncManager { state: SyncState::Idle }
    }

    /// A copy of the current state.
    pub fn get_state(&self) -> (r: SyncState)
        ensures
            r.view() == self.state_view(),
    {
        self.state.duplicate()
    }

    /// Start advertising as the data source.
    pub fn start_push_mode(&mut self) -> (r: Result<(), String>)
        ensures
            r is Ok,
            final(self).state_view() == SyncStateView::AdvertisingPush,
    {
        self.state = SyncState::AdvertisingPush;
        Ok(())
    }

    /// Start advertising as the data sink.
    pub fn start_pull_mode(&mut self) -> (r: Result<(), String>)
        ensures
            r is Ok,
            final(self).state_view() == SyncStateView::AdvertisingPull,
    {
        self.state = SyncState::AdvertisingPull;
        Ok(())
    }

    /// A peer answered while advertising: show a fresh random code. In any
    /// other state nothing changes.
    pub fn simulate_peer_found(&mut self)
        ensures
            (old(self).state_view() is AdvertisingPush || old(self).state_view() is AdvertisingPull)
                ==> (final(self).state_view() matches SyncStateView::ConfirmCode { code } && exists|
                b: Seq<u8>,
            | b.len() == 4 && code == #[trigger] code_for(b)),
            !(old(self).state_view() is AdvertisingPush || old(self).state_view() is AdvertisingPull)
                ==> final(self).state_view() == old(self).state_view(),
    {
        let advertising = match &self.state {
            SyncState::AdvertisingPush => true,
            SyncState::AdvertisingPull => true,
            _ => false,
        };
        if advertising {
            let code = random_pairing_code();
            self.state = SyncState::ConfirmCode { code };
        }
    }

    /// The operator typed `user_code`: when it is the code shown, start
    /// syncing; otherwise stay.
    pub fn confirm_code(&mut self, user_code: &str) -> (r: Result<String, String>)
        ensures
            old(self).state_view() matches SyncStateView::ConfirmCode { code } ==> {
                &&& code == user_code@ ==> ((r matches Ok(m) && m@ == "Paired! Starting Sync..."@)
                    && final(self).state_view() == SyncStateView::Syncing)
                &&& code != user_code@ ==> ((r matches Err(m) && m@ == "Invalid Code"@)
                    && final(self).state_view() == old(self).state_view())
            },
            !(old(self).state_view() is ConfirmCode) ==> ((r matches Err(m) && m@
                == "Not in handshake mode"@) && final(self).state_view() == old(self).state_view()),
    {
        let matched = match &self.state {
            SyncState::ConfirmCode { code } => {
                let same = constant_time_eq(user_code.as_bytes(), code.as_str().as_bytes());
                proof {
                    encode_utf8_decode_utf8(user_code@);
                    encode_utf8_decode_utf8(code@);
                }
                Some(same)
            },
            _ => None,
        };
        match matched {
            Some(true) => {
                self.state = SyncState::Syncing;
                Ok("Paired! Starting Sync...".to_owned())
            },
            Some(false) => Err("Invalid Code".to_owned()),
            None => Err("Not in handshake mode".to_owned()),
        }
    }

    /// Back to idle.
    pub fn stop(&mut self)
        ensures
            final(self).state_view() == SyncStateView::Idle,
    {
        self.state = SyncState::Idle;
    }
}

} // verus!
