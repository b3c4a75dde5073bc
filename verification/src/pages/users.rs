//! Public user profiles.
use vstd::prelude::*;
use vstd::string::*;
use crate::text::cat4;

verus! {

/// The profile page's query.
pub struct UserQuery {
    pub page: Option<u64>,
}

/// The address the pager of a profile's item list builds on:
/// `/{locale}/users/{username}`.
pub fn profile_url(locale: &str, username: &str) -> (r: String)
    ensures
        r@ == "/"@ + locale@ + "/users/"@ + username@,
{
    cat4("/", locale, "/users/", username)
}

} // verus!
