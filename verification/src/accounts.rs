//! Account data exchanged with the sign-in and profile endpoints.
use vstd::prelude::*;
use crate::interop::Timestamp;

verus! {

/// Public account data; password hashes and sessions never leave the server.
pub struct User {
    pub id: u128,
    pub username: String,
    pub avatar_emoji: String,
    pub created_at: Timestamp,
}

/// Credentials for registration and sign-in.
pub struct AuthRequest {
    pub username: String,
    pub password: String,
}

/// The editable profile fields.
pub struct UpdateProfileRequest {
    pub avatar_emoji: String,
}

/// A session handed out after registration or sign-in.
pub struct AuthSession {
    pub token: u128,
    pub user: User,
    pub expires_at: Timestamp,
}

} // verus!
