//! Security and synchronisation core of a two-device encrypted credential
//! vault: key derivation, authenticated encryption, session guarding,
//! device pairing, transport framing and replica merging.

pub mod ble_sync;
pub mod cipher;
pub mod encoding;
pub mod kdf;
pub mod merge;
pub mod pairing;
pub mod protocol;
mod random;
pub mod secret;
pub mod session;
pub mod store;
pub mod totp;
pub mod vault;
