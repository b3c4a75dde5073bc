//! Credentials: password strength and Argon2id hashes.
use vstd::prelude::*;
use vstd::string::*;
use argon2::password_hash::{PasswordHasher, PasswordVerifier};
use crate::text::{chars_of, starts_with};

verus! {

/// Whether `c` has the Unicode `Uppercase` property (`char::is_uppercase`).
pub uninterp spec fn char_is_uppercase(c: char) -> bool;

/// Whether `c` has the Unicode `Lowercase` property (`char::is_lowercase`).
pub uninterp spec fn char_is_lowercase(c: char) -> bool;

/// Whether a character is uppercase.
///
/// Calls `char::is_uppercase` (the Unicode `Uppercase` property); among
/// ASCII characters exactly `A`–`Z` have it.
#[verifier::external_body]
fn is_uppercase(c: char) -> (r: bool)
    ensures
        r == char_is_uppercase(c),
        c <= '\x7f' ==> (r <==> ('A' <= c && c <= 'Z')),
{
    c.is_uppercase()
}

/// Whether a character is lowercase.
///
/// Calls `char::is_lowercase` (the Unicode `Lowercase` property); among
/// ASCII characters exactly `a`–`z` have it.
#[verifier::external_body]
fn is_lowercase(c: char) -> (r: bool)
    ensures
        r == char_is_lowercase(c),
        c <= '\x7f' ==> (r <==> ('a' <= c && c <= 'z')),
{
    c.is_lowercase()
}

/// A strong password holds an uppercase letter, a lowercase letter and an
/// ASCII digit (the rule for registration, change and reset alike).
pub open spec fn is_strong(p: Seq<char>) -> bool {
    &&& exists|i: int| 0 <= i < p.len() && char_is_uppercase(#[trigger] p[i])
    &&& exists|i: int| 0 <= i < p.len() && char_is_lowercase(#[trigger] p[i])
    &&& exists|i: int| 0 <= i < p.len() && '0' <= #[trigger] p[i] && p[i] <= '9'
}

/// The ASCII reading of the case properties: an ASCII character is
/// uppercase exactly when it is `A`–`Z`, lowercase exactly when `a`–`z`.
pub open spec fn ascii_case_reading(c: char) -> bool {
    c <= '\x7f' ==> {
        &&& char_is_uppercase(c) <==> ('A' <= c && c <= 'Z')
        &&& char_is_lowercase(c) <==> ('a' <= c && c <= 'z')
    }
}

/// Password strength: an uppercase letter, a lowercase letter and a digit.
/// Each character of the password is read by the case properties, which on
/// ASCII characters are the letter ranges.
pub fn password_strong(password: &str) -> (r: bool)
    ensures
        r == is_strong(password@),
        forall|i: int| 0 <= i < password@.len() ==> ascii_case_reading(#[trigger] password@[i]),
{
    let cs = chars_of(password);
    let mut upper = false;
    let mut lower = false;
    let mut digit = false;
    let mut i: usize = 0;
    while i < cs.len()
        invariant
            cs@ == password@,
            i <= cs@.len(),
            upper == exists|j: int| 0 <= j < i && char_is_uppercase(#[trigger] cs@[j]),
            lower == exists|j: int| 0 <= j < i && char_is_lowercase(#[trigger] cs@[j]),
            digit == exists|j: int| 0 <= j < i && '0' <= #[trigger] cs@[j] && cs@[j] <= '9',
            forall|j: int| 0 <= j < i ==> ascii_case_reading(#[trigger] cs@[j]),
        decreases cs.len() - i,
    {
        let c = cs[i];
        if is_uppercase(c) {
            upper = true;
        }
        if is_lowercase(c) {
            lower = true;
        }
        if c >= '0' && c <= '9' {
            digit = true;
        }
        i += 1;
    }
    upper && lower && digit
}

/// Whether Argon2 (`Argon2::default().verify_password`) accepts `password`
/// against the PHC hash string `stored`.
pub uninterp spec fn argon2_accepts(password: Seq<u8>, stored: Seq<char>) -> bool;

/// What `hash_credential` may return for a password: an Argon2id PHC
/// string that Argon2 accepts for that password.
pub open spec fn is_hash_of(password: Seq<u8>, stored: Seq<char>) -> bool {
    &&& starts_with(stored, seq!['$', 'a', 'r', 'g', 'o', 'n', '2', 'i', 'd', '$'])
    &&& argon2_accepts(password, stored)
}

/// Hashes a credential with Argon2id.
///
/// Calls `Argon2::default().hash_password` (Argon2id, version 19, a random
/// salt) and renders the PHC string, which starts with `$argon2id$`. That
/// string verifies the same password again. Argon2 refuses passwords longer
/// than `MAX_PWD_LEN` (2^32 - 1) bytes, which the bound leaves out; the only
/// other failure is the system random generator failing to give a salt, no
/// matter the input, and then this panics.
#[verifier::external_body]
pub fn hash_credential(password: &str) -> (r: String)
    requires
        password.spec_bytes().len() <= 0xFFFF_FFFF,
    ensures
        is_hash_of(password.spec_bytes(), r@),
{
    argon2::Argon2::default()
        .hash_password(password.as_bytes())
        .expect("Argon2 hashing failed")
        .to_string()
}

/// Checks a password against a stored PHC hash.
///
/// Calls `Argon2::default().verify_password`; a malformed hash or a
/// mismatch both count as rejection.
#[verifier::external_body]
pub fn verify_credential(password: &str, stored_cred: &str) -> (r: bool)
    ensures
        r == argon2_accepts(password.spec_bytes(), stored_cred@),
{
    argon2::Argon2::default().verify_password(password.as_bytes(), stored_cred).is_ok()
}

/// A stored credential accepts the password it was made from: whatever
/// `hash_credential` returns for a password, `verify_credential` with that
/// password and hash returns `true`.
pub proof fn lemma_hash_then_verify(password: Seq<u8>, stored: Seq<char>)
    requires
        is_hash_of(password, stored),
    ensures
        argon2_accepts(password, stored),
{
}

/// Whether the signed-in user's record makes them an administrator: a record
/// was found and its flag is set (no record, no rights).
pub fn is_admin_record(found: Option<&crate::models::user::User>) -> (r: bool)
    ensures
        r == (found matches Some(u) && u.is_admin == crate::common::constant::USER_IS_ADMIN),
{
    match found {
        Some(u) => u.is_admin == crate::common::constant::USER_IS_ADMIN,
        None => false,
    }
}

} // verus!
