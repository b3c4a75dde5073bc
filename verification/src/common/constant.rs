//! Account states, flags, lifetimes and error codes.
use vstd::prelude::*;
use crate::text::str_eq;

verus! {

/// Account status: awaiting activation.
pub const USER_STATUS_PENDING: u8 = 0;

/// Account status: active.
pub const USER_STATUS_ACTIVE: u8 = 1;

/// Account status: banned.
pub const USER_STATUS_BANNED: u8 = 2;

/// Administrator flag value (`user.is_admin`).
pub const USER_IS_ADMIN: u8 = 1;

/// Captcha lifetime in seconds.
pub const CAPTCHA_EXPIRY: u64 = 300;

/// Password reset link lifetime in seconds.
pub const PASSWORD_RESET_EXPIRY: u64 = 3600;

/// The translation key for an error code carried in `?error=`.
pub open spec fn error_key_of(err: Seq<char>) -> Option<Seq<char>> {
    if err == "captcha"@ {
        Some("captcha_invalid"@)
    } else if err == "incorrect"@ {
        Some("sign_in_incorrect"@)
    } else if err == "not_activation"@ {
        Some("sign_in_not_activation"@)
    } else if err == "banned"@ {
        Some("sign_in_banned"@)
    } else if err == "security"@ {
        Some("sign_in_security_problem"@)
    } else if err == "password_weak"@ {
        Some("register_password_weak"@)
    } else if err == "password_mismatch"@ {
        Some("register_password_mismatch"@)
    } else if err == "exist"@ {
        Some("register_exist"@)
    } else {
        None
    }
}

/// Error code to translation key (the project's business error codes).
pub fn error_i18n_key(err: &str) -> (r: Option<&'static str>)
    ensures
        crate::common::media::opt_view(r) == error_key_of(err@),
{
    if str_eq(err, "captcha") {
        Some("captcha_invalid")
    } else if str_eq(err, "incorrect") {
        Some("sign_in_incorrect")
    } else if str_eq(err, "not_activation") {
        Some("sign_in_not_activation")
    } else if str_eq(err, "banned") {
        Some("sign_in_banned")
    } else if str_eq(err, "security") {
        Some("sign_in_security_problem")
    } else if str_eq(err, "password_weak") {
        Some("register_password_weak")
    } else if str_eq(err, "password_mismatch") {
        Some("register_password_mismatch")
    } else if str_eq(err, "exist") {
        Some("register_exist")
    } else {
        None
    }
}

} // verus!
