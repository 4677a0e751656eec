//! The error taxonomy shared by every identity and access operation.

use vstd::prelude::*;

verus! {

/// Why an identity or access operation was refused.
///
/// Authorization failures are deliberately conflated with "the resource
/// does not exist": a caller who may not touch a record receives
/// [`AuthError::NotFound`], never a distinct "forbidden" signal, so that
/// the error shape does not confirm the record's existence.
#[derive(Debug, Clone, Copy, PartialEq, Eq, Structural)]
pub enum AuthError {
    /// No session, or a session that could not be resolved to a user.
    NotAuthenticated,
    /// A one-time code that does not match the secret's current window.
    InvalidCredentials,
    /// Enrollment raced with another registration of the same username.
    UsernameTaken,
    /// An empty username, or one containing the reserved `:` separator.
    InvalidUsername,
    /// The resource is absent, or the caller is not allowed to see it.
    NotFound,
    /// The invite has already been redeemed `max_uses` times.
    InviteExhausted,
    /// The caller already belongs to the crew the invite points at.
    AlreadyMember,
    /// A storage failure or corrupted linked data; details stay server-side.
    ServerError,
}

impl AuthError {
    /// The generic, non-leaking message surfaced to the caller.
    pub fn message(&self) -> (r: &'static str)
        ensures
            *self is NotAuthenticated ==> r@ == "Not authenticated"@,
            *self is InvalidCredentials ==> r@ == "Invalid code"@,
            *self is UsernameTaken ==> r@ == "Username already in use"@,
            *self is InvalidUsername ==> r@ == "Invalid username"@,
            *self is NotFound ==> r@ == "Not found"@,
            *self is InviteExhausted ==> r@ == "Invite code has reached its maximum uses"@,
            *self is AlreadyMember ==> r@ == "You are already a member of this crew"@,
            *self is ServerError ==> r@ == "Internal error"@,
    {
        match self {
            AuthError::NotAuthenticated => "Not authenticated",
            AuthError::InvalidCredentials => "Invalid code",
            AuthError::UsernameTaken => "Username already in use",
            AuthError::InvalidUsername => "Invalid username",
            AuthError::NotFound => "Not found",
            AuthError::InviteExhausted => "Invite code has reached its maximum uses",
            AuthError::AlreadyMember => "You are already a member of this crew",
            AuthError::ServerError => "Internal error",
        }
    }
}

} // verus!
