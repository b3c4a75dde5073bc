//! Session records and CSRF protection: the decisions made on what the
//! session store holds.
//!
//! A session record is keyed by the hex of the session token's hash and
//! holds the signed-in username (empty before sign-in), its expiry in unix
//! seconds, and the session's CSRF token.
use vstd::prelude::*;
use vstd::string::*;
use crate::common::rand::{hex, hex_of, is_lower_hex, random_hex};

verus! {

/// The record key for a session token hash: its lowercase hex.
pub fn encode_id(hash: &[u8]) -> (r: String)
    ensures
        r@ == hex_of(hash@),
{
    hex(hash)
}

/// A fresh CSRF token: 32 secure random bytes as 64 lowercase hex characters.
pub fn generate_csrf_token() -> (r: String)
    ensures
        exists|b: Seq<u8>| b.len() == 32 && r@ == hex_of(b),
        r@.len() == 64,
        forall|i: int| 0 <= i < r@.len() ==> is_lower_hex(#[trigger] r@[i]),
{
    random_hex()
}

/// Constant-time string comparison (see `rand::ct_eq`).
pub fn ct_eq(a: &str, b: &str) -> (r: bool)
    ensures
        r == (a@ == b@),
{
    crate::common::rand::ct_eq(a, b)
}

/// The user a session record signs in at time `now`: none when the expiry
/// is missing or not after `now`, none when the username is missing or
/// empty (a record made for a captcha or CSRF token before sign-in).
pub open spec fn session_user(expires_at: Option<i64>, username: Option<Seq<char>>, now: i64) -> Option<Seq<char>> {
    match expires_at {
        Some(exp) if exp > now => match username {
            Some(u) if u.len() > 0 => Some(u),
            _ => None,
        },
        _ => None,
    }
}

/// The view of an optional string.
pub open spec fn opt_view(o: Option<String>) -> Option<Seq<char>> {
    match o {
        Some(s) => Some(s@),
        None => None,
    }
}

/// Resolves the signed-in user from a session record's fields (expiry is
/// compared here, in unix seconds, not by the database).
pub fn resolve_user(expires_at: Option<i64>, username: Option<String>, now: i64) -> (r: Option<String>)
    ensures
        opt_view(r) == session_user(expires_at, opt_view(username), now),
{
    match expires_at {
        Some(exp) if exp > now => match username {
            Some(u) => if u.as_str().unicode_len() > 0 {
                Some(u)
            } else {
                None
            },
            None => None,
        },
        _ => None,
    }
}

/// Checks a submitted CSRF token against the one stored for the session:
/// an empty submission or a session without a token never passes;
/// otherwise the two must be equal (compared in constant time).
pub fn csrf_matches(stored: Option<&str>, submitted: &str) -> (r: bool)
    ensures
        r == (submitted@.len() > 0 && match stored {
            Some(s) => s@ == submitted@,
            None => false,
        }),
{
    if submitted.unicode_len() == 0 {
        return false;
    }
    match stored {
        Some(s) => ct_eq(s, submitted),
        None => false,
    }
}

/// What to do so that a session has a CSRF token.
pub enum CsrfPlan {
    /// The session already holds this token; use it.
    Reuse(String),
    /// No session record yet: create one (no user, expired) holding this token.
    Create(String),
    /// The record exists without a token: store this one in it.
    Update(String),
}

impl CsrfPlan {
    /// The token that the session ends up with.
    pub fn token(&self) -> (r: &str)
        ensures
            r@ == match self {
                CsrfPlan::Reuse(t) => t@,
                CsrfPlan::Create(t) => t@,
                CsrfPlan::Update(t) => t@,
            },
    {
        match self {
            CsrfPlan::Reuse(t) => t.as_str(),
            CsrfPlan::Create(t) => t.as_str(),
            CsrfPlan::Update(t) => t.as_str(),
        }
    }
}

/// The token a plan leaves the session with.
pub open spec fn plan_token(r: CsrfPlan) -> Seq<char> {
    match r {
        CsrfPlan::Reuse(t) => t@,
        CsrfPlan::Create(t) => t@,
        CsrfPlan::Update(t) => t@,
    }
}

/// A fresh token: 64 lowercase hex characters.
pub open spec fn is_fresh_token(t: Seq<char>) -> bool {
    t.len() == 64 && forall|i: int| 0 <= i < t.len() ==> is_lower_hex(#[trigger] t[i])
}

/// What planning a session's CSRF token may give, for the stored token and
/// whether the session record exists: the stored token reused; else a fresh
/// token, created with the record when there is none, stored into it when
/// there is.
pub open spec fn csrf_plan_ok(stored: Option<Seq<char>>, record_exists: bool, r: CsrfPlan) -> bool {
    match stored {
        Some(t) => r matches CsrfPlan::Reuse(u) && u@ == t,
        None => match r {
            CsrfPlan::Create(u) => !record_exists && is_fresh_token(u@),
            CsrfPlan::Update(u) => record_exists && is_fresh_token(u@),
            CsrfPlan::Reuse(_) => false,
        },
    }
}

/// Ensures a session has a CSRF token: a stored token is reused; otherwise a
/// fresh one is generated, to be written into a new record when the session
/// has none, or into the existing record.
pub fn plan_csrf_token(stored: Option<String>, record_exists: bool) -> (r: CsrfPlan)
    ensures
        csrf_plan_ok(opt_view(stored), record_exists, r),
{
    match stored {
        Some(t) => CsrfPlan::Reuse(t),
        None => {
            let token = generate_csrf_token();
            if record_exists {
                CsrfPlan::Update(token)
            } else {
                CsrfPlan::Create(token)
            }
        },
    }
}

/// The session cookie's name (as topcoat names it by default).
pub const SESSION_COOKIE_NAME: &'static str = "session";

/// The session cookie carrier: the `Secure` attribute and the `__Host-`
/// name prefix follow the request's protocol (`x-forwarded-proto: https`),
/// so plain-http development works and production over https is hardened.
pub struct SessionCookieStore;

/// ASCII case-insensitive equality, as `str::eq_ignore_ascii_case` decides it.
pub open spec fn eq_ignore_ascii_case(a: Seq<char>, b: Seq<char>) -> bool {
    a.len() == b.len() && forall|i: int| 0 <= i < a.len() ==> ascii_lower(#[trigger] a[i]) == ascii_lower(b[i])
}

/// A character with ASCII `A`-`Z` mapped to lowercase.
pub open spec fn ascii_lower(c: char) -> char {
    if 'A' <= c && c <= 'Z' {
        ((c as u32) + 32) as char
    } else {
        c
    }
}

fn ascii_lower_exec(c: char) -> (r: char)
    ensures
        r == ascii_lower(c),
{
    if c >= 'A' && c <= 'Z' {
        ((c as u8) + 32) as char
    } else {
        c
    }
}

/// ASCII case-insensitive equality of two strings.
pub fn eq_ignore_ascii_case_exec(a: &str, b: &str) -> (r: bool)
    ensures
        r == eq_ignore_ascii_case(a@, b@),
{
    let x = crate::text::chars_of(a);
    let y = crate::text::chars_of(b);
    if x.len() != y.len() {
        return false;
    }
    let mut i: usize = 0;
    while i < x.len()
        invariant
            x@ == a@,
            y@ == b@,
            x@.len() == y@.len(),
            i <= x@.len(),
            forall|k: int| 0 <= k < i ==> ascii_lower(#[trigger] x@[k]) == ascii_lower(y@[k]),
        decreases x.len() - i,
    {
        if ascii_lower_exec(x[i]) != ascii_lower_exec(y[i]) {
            return false;
        }
        i += 1;
    }
    true
}

impl SessionCookieStore {
    /// Whether the request came over https (`x-forwarded-proto`, any case).
    pub fn is_https(forwarded_proto: Option<&str>) -> (r: bool)
        ensures
            r == match forwarded_proto {
                Some(p) => eq_ignore_ascii_case(p@, "https"@),
                None => false,
            },
    {
        match forwarded_proto {
            Some(p) => eq_ignore_ascii_case_exec(p, "https"),
            None => false,
        }
    }

    /// The cookie name to write: `__Host-session` over https, else `session`.
    pub fn cookie_name(secure: bool) -> (r: &'static str)
        ensures
            r@ == if secure {
                "__Host-session"@
            } else {
                "session"@
            },
    {
        if secure {
            "__Host-session"
        } else {
            "session"
        }
    }

    /// The token text to read: the plain `session` cookie first, else the
    /// `__Host-session` one.
    pub fn pick_cookie<'a>(plain: Option<&'a str>, host: Option<&'a str>) -> (r: Option<&'a str>)
        ensures
            r == match plain {
                Some(p) => Some(p),
                None => host,
            },
    {
        match plain {
            Some(p) => Some(p),
            None => host,
        }
    }
}

/// Ensuring a token twice gives the same token: once the first plan's
/// token is stored (its record then exists), a second plan reuses it, and
/// only a session without a stored token ever gets a fresh one.
pub proof fn lemma_csrf_token_stable(
    stored: Option<Seq<char>>,
    record_exists: bool,
    first: CsrfPlan,
    second: CsrfPlan,
)
    requires
        csrf_plan_ok(stored, record_exists, first),
        csrf_plan_ok(Some(plan_token(first)), true, second),
    ensures
        second is Reuse,
        plan_token(second) == plan_token(first),
        stored matches Some(t) ==> first is Reuse && plan_token(first) == t,
        stored is None ==> is_fresh_token(plan_token(first)),
{
}

/// A session resolves to a user only while it is unexpired and only to the
/// record's own nonempty username: a record made before sign-in (empty
/// username) or an expired one is nobody's, and an unexpired record with a
/// nonempty username is that user's.
pub proof fn lemma_session_user_is_named(expires_at: Option<i64>, username: Option<Seq<char>>, now: i64)
    ensures
        session_user(expires_at, username, now) matches Some(u) ==> u.len() > 0 && username == Some(u)
            && (expires_at matches Some(e) && e > now),
        (username matches Some(u) && u.len() == 0) ==> session_user(expires_at, username, now) is None,
        username is None ==> session_user(expires_at, username, now) is None,
        !(expires_at matches Some(e) && e > now) ==> session_user(expires_at, username, now) is None,
        ((expires_at matches Some(e) && e > now) && (username matches Some(u) && u.len() > 0))
            ==> session_user(expires_at, username, now) == username,
{
}

} // verus!
