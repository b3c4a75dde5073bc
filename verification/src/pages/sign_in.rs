//! Signing in and out.
use vstd::prelude::*;
use vstd::string::*;
use vstd::utf8::encode_utf8;
use crate::common::auth::{argon2_accepts, verify_credential};
use crate::common::constant::{USER_STATUS_BANNED, USER_STATUS_PENDING};
use crate::common::form::{find_param, is_safe_next, query_param, safe_next};
use crate::models::user::User;
use crate::pages::{redirects_to, rejects_with, Reply};
use crate::text::{cat2, cat4, cat6, split};

verus! {

/// The sign-in form.
pub struct SignInForm {
    pub account: String,
    pub password: String,
    pub captcha_answer: String,
    /// Where to go once signed in (checked with `safe_next`).
    pub next: String,
    pub csrf_token: String,
}

/// The sign-out form.
pub struct SignOutForm {
    pub csrf_token: String,
}

/// The sign-in page's query.
pub struct SignInQuery {
    pub next: Option<String>,
}

/// What the sign-in handler learnt from its last step.
pub enum SignInEvent {
    /// The form has just arrived.
    Start,
    /// Whether the CSRF token matched.
    CsrfChecked(bool),
    /// Whether the captcha answer was accepted.
    CaptchaChecked(bool),
    /// The account looked up by username or email (`None` also when the
    /// lookup failed).
    AccountFound(Option<User>),
    /// Whether the session was started, with the error text if not.
    SessionStarted(Result<(), String>),
}

/// The next step of the sign-in handler.
pub enum SignInStep {
    CheckCsrf,
    CheckCaptcha,
    /// Look the account up by `form.account`.
    FindAccount,
    /// Start a signed-in session for this username.
    StartSession(String),
    /// Answer the request.
    Reply(Reply),
}

/// `/{locale}/sign-in?error={code}`.
pub open spec fn sign_in_error(locale: Seq<char>, code: Seq<char>) -> Seq<char> {
    "/"@ + locale + "/sign-in?error="@ + code
}

/// Where a successful sign-in leads: the form's `next` when it is a safe
/// site path, else the locale's home page.
pub open spec fn sign_in_target(locale: Seq<char>, next: Seq<char>) -> Seq<char> {
    if is_safe_next(encode_utf8(next)) { next } else { "/"@ + locale }
}

/// `step` answers with a redirect to `url`.
pub open spec fn step_redirects(step: SignInStep, url: Seq<char>) -> bool {
    step matches SignInStep::Reply(rep) && redirects_to(rep, url)
}

/// The sign-in decisions: CSRF, captcha, account lookup, account state,
/// password, then the session and the redirect.
pub open spec fn sign_in_next(locale: Seq<char>, form: SignInForm, event: SignInEvent, step: SignInStep) -> bool {
    match event {
        SignInEvent::Start => step == SignInStep::CheckCsrf,
        SignInEvent::CsrfChecked(ok) => if ok {
            step == SignInStep::CheckCaptcha
        } else {
            step matches SignInStep::Reply(Reply::Forbidden)
        },
        SignInEvent::CaptchaChecked(ok) => if ok {
            step == SignInStep::FindAccount
        } else {
            step_redirects(step, sign_in_error(locale, "captcha"@))
        },
        SignInEvent::AccountFound(None) => step_redirects(step, sign_in_error(locale, "incorrect"@)),
        SignInEvent::AccountFound(Some(user)) => if user.status == USER_STATUS_PENDING {
            step_redirects(
                step,
                sign_in_error(locale, "not_activation"@) + "&account="@ + form.account@,
            )
        } else if user.status == USER_STATUS_BANNED {
            step_redirects(step, sign_in_error(locale, "banned"@))
        } else if !argon2_accepts(encode_utf8(form.password@), user.cred@) {
            step_redirects(step, sign_in_error(locale, "incorrect"@))
        } else {
            step matches SignInStep::StartSession(u) && u@ == user.username@
        },
        SignInEvent::SessionStarted(Err(e)) => step matches SignInStep::Reply(rep) && rejects_with(rep, e@),
        SignInEvent::SessionStarted(Ok(())) => step_redirects(step, sign_in_target(locale, form.next@)),
    }
}

/// The next step of the sign-in handler after `event`.
pub fn sign_in_step(locale: &str, form: &SignInForm, event: SignInEvent) -> (r: SignInStep)
    ensures
        sign_in_next(locale@, *form, event, r),
{
    match event {
        SignInEvent::Start => SignInStep::CheckCsrf,
        SignInEvent::CsrfChecked(ok) => if ok {
            SignInStep::CheckCaptcha
        } else {
            SignInStep::Reply(Reply::Forbidden)
        },
        SignInEvent::CaptchaChecked(ok) => if ok {
            SignInStep::FindAccount
        } else {
            SignInStep::Reply(Reply::Redirect(cat4("/", locale, "/sign-in?error=", "captcha")))
        },
        SignInEvent::AccountFound(None) => SignInStep::Reply(Reply::Redirect(cat4("/", locale, "/sign-in?error=", "incorrect"))),
        SignInEvent::AccountFound(Some(user)) => if user.status == USER_STATUS_PENDING {
            SignInStep::Reply(Reply::Redirect(cat6("/", locale, "/sign-in?error=", "not_activation", "&account=", form.account.as_str())))
        } else if user.status == USER_STATUS_BANNED {
            SignInStep::Reply(Reply::Redirect(cat4("/", locale, "/sign-in?error=", "banned")))
        } else if !verify_credential(form.password.as_str(), user.cred.as_str()) {
            SignInStep::Reply(Reply::Redirect(cat4("/", locale, "/sign-in?error=", "incorrect")))
        } else {
            SignInStep::StartSession(user.username)
        },
        SignInEvent::SessionStarted(Err(e)) => SignInStep::Reply(Reply::BadRequest(e)),
        SignInEvent::SessionStarted(Ok(())) => match safe_next(form.next.as_str()) {
            Some(target) => SignInStep::Reply(Reply::Redirect(target)),
            None => SignInStep::Reply(Reply::Redirect(cat2("/", locale))),
        },
    }
}

/// A session is only started for the account that was looked up, when it
/// is neither awaiting activation nor banned and the password was accepted
/// for its stored credential.
pub proof fn lemma_session_only_for_verified_account(
    locale: Seq<char>,
    form: SignInForm,
    event: SignInEvent,
    step: SignInStep,
)
    requires
        sign_in_next(locale, form, event, step),
        step is StartSession,
    ensures
        event matches SignInEvent::AccountFound(Some(user))
            && user.status != USER_STATUS_PENDING
            && user.status != USER_STATUS_BANNED
            && argon2_accepts(encode_utf8(form.password@), user.cred@)
            && (step matches SignInStep::StartSession(name) && name@ == user.username@),
{
}

/// The sign-out handler's answer: 403 on a CSRF mismatch (nothing is
/// changed), else the session is ended and the visitor goes to the locale's
/// home page (`None` here: end the session, then redirect home).
pub fn sign_out_reply(locale: &str, csrf_ok: bool) -> (r: Option<Reply>)
    ensures
        !csrf_ok ==> (r matches Some(Reply::Forbidden)),
        csrf_ok ==> r is None,
{
    if csrf_ok { None } else { Some(Reply::Forbidden) }
}

/// Where sign-out leads: the locale's home page.
pub fn home_url(locale: &str) -> (r: String)
    ensures
        r@ == "/"@ + locale@,
{
    cat2("/", locale)
}

/// The sign-in page's `next` field: the query's `next` when it is a safe
/// site path.
pub fn page_next(query: &SignInQuery) -> (r: Option<String>)
    ensures
        r is Some <==> (query.next matches Some(n) && is_safe_next(encode_utf8(n@))),
        r matches Some(s) ==> query.next matches Some(n) && s@ == n@,
{
    match &query.next {
        Some(n) => safe_next(n.as_str()),
        None => None,
    }
}

/// The account to offer a new activation mail for: the query's `account`,
/// only when the query's `error` is `not_activation`.
pub fn resend_account(query: &str) -> (r: Option<String>)
    ensures
        crate::common::session::opt_view(r) == (if find_param(split(query@, '&'), "error"@) == Some("not_activation"@) {
            find_param(split(query@, '&'), "account"@)
        } else {
            None
        }),
{
    let err = query_param(query, "error");
    let is_pending = match &err {
        Some(e) => crate::text::str_eq(e.as_str(), "not_activation"),
        None => false,
    };
    proof {
        reveal_strlit("not_activation");
    }
    if is_pending {
        query_param(query, "account")
    } else {
        None
    }
}

} // verus!
