//! Site users.
use vstd::prelude::*;

verus! {

/// A user account.
#[derive(Debug, Clone)]
pub struct User {
    pub id: String,
    pub username: String,
    /// Argon2id PHC hash of the password; never sent to clients.
    pub cred: String,
    pub email: String,
    pub introduction: String,
    pub topics: String,
    /// Account status: 0 awaiting activation, 1 active, 2 banned.
    pub status: u8,
    /// Administrator flag: 1 for administrators.
    pub is_admin: u8,
}

} // verus!
