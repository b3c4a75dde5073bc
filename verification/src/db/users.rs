//! Account queries: token shapes and account lookups.
use vstd::prelude::*;
use crate::text::{chars_of, has_char, has_char_exec};

verus! {

/// An ASCII hex digit, either case.
pub open spec fn is_ascii_hexdigit(c: char) -> bool {
    ('0' <= c && c <= '9') || ('a' <= c && c <= 'f') || ('A' <= c && c <= 'F')
}

/// The shape of an activation or reset token: 64 ASCII hex digits.
pub open spec fn token_shaped(t: Seq<char>) -> bool {
    t.len() == 64 && forall|i: int| 0 <= i < t.len() ==> is_ascii_hexdigit(#[trigger] t[i])
}

/// Whether a token has the shape of the ones issued (checked before any lookup).
pub fn is_token_shaped(token: &str) -> (r: bool)
    ensures
        r == token_shaped(token@),
{
    let cs = chars_of(token);
    if cs.len() != 64 {
        return false;
    }
    let mut i: usize = 0;
    while i < cs.len()
        invariant
            cs@ == token@,
            i <= cs@.len(),
            forall|k: int| 0 <= k < i ==> is_ascii_hexdigit(#[trigger] cs@[k]),
        decreases cs.len() - i,
    {
        let c = cs[i];
        if !((c >= '0' && c <= '9') || (c >= 'a' && c <= 'f') || (c >= 'A' && c <= 'F')) {
            return false;
        }
        i += 1;
    }
    true
}

/// Whether an account name is an email address (looked up by email rather
/// than by username): it contains `@`.
pub fn is_email_account(account: &str) -> (r: bool)
    ensures
        r == has_char(account@, '@'),
{
    has_char_exec(&chars_of(account), '@')
}

/// The user a password reset token belongs to at time `now`: the stored
/// username, when the token's expiry is set and after `now`.
pub open spec fn reset_user(expires_at: Option<i64>, username: Option<Seq<char>>, now: i64) -> Option<Seq<char>> {
    match expires_at {
        Some(exp) if exp > now => username,
        _ => None,
    }
}

/// Reads the owner of a reset token from its record's fields (expiry in
/// unix seconds, compared here).
pub fn reset_username(expires_at: Option<i64>, username: Option<String>, now: i64) -> (r: Option<String>)
    ensures
        crate::common::session::opt_view(r) == reset_user(expires_at, crate::common::session::opt_view(username), now),
{
    match expires_at {
        Some(exp) if exp > now => username,
        _ => None,
    }
}

/// Whether an account may be sent a new activation mail: only while it
/// awaits activation.
pub fn may_resend_activation(status: u8) -> (r: bool)
    ensures
        r == (status == crate::common::constant::USER_STATUS_PENDING),
{
    status == crate::common::constant::USER_STATUS_PENDING
}

} // verus!
