//! Identity and access control for a multi-user tabletop-RPG
//! character-sheet service.
//!
//! The crate covers the security core of such a service: enrollment and
//! verification of a time-based one-time-password (TOTP) second factor,
//! session-token issuance and resolution via a cookie value, and the
//! authorization rules that gate every mutating operation (character
//! ownership, crew membership, crew-leader privilege, and bounded-use
//! invite redemption).
//!
//! All state lives in an explicit [`store::Store`] value that callers own
//! and thread through each operation; the HTTP and persistence layers are
//! expected to sit outside this crate and exchange plain values with it.

pub mod auth;
pub mod character;
pub mod crew;
pub mod description;
pub mod errors;
pub mod session;
pub mod store;
pub mod text;
pub mod tokens;
pub mod totp;
pub mod types;
