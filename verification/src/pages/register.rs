//! Registration, activation and resending the activation mail.
use vstd::prelude::*;
use vstd::string::*;
use vstd::utf8::encode_utf8;
use crate::common::auth::{hash_credential, is_hash_of, is_strong, password_strong};
use crate::common::rand::{is_lower_hex, random_hex};
use crate::common::form::{find_param, query_param};
use crate::pages::{redirects_to, rejects_with, Reply};
use crate::text::{cat4, cat5, cat6, split};

verus! {

/// The registration form.
pub struct RegisterForm {
    pub username: String,
    pub email: String,
    pub password: String,
    pub confirm_password: String,
    /// Markdown self-introduction.
    pub introduction: String,
    /// Comma-separated topics.
    pub topics: String,
    pub captcha_answer: String,
    pub csrf_token: String,
}

/// What is stored for a new account besides the form's fields: the
/// credential and the activation token.
pub struct NewAccount {
    /// Argon2id hash of the password.
    pub cred: String,
    /// 64 lowercase hex characters, mailed in the activation link.
    pub activation_token: String,
}

/// What the registration handler learnt from its last step.
pub enum RegisterEvent {
    /// The form has just arrived.
    Start,
    /// Whether the CSRF token matched.
    CsrfChecked(bool),
    /// Whether the captcha answer was accepted.
    CaptchaChecked(bool),
    /// Whether the username is taken already.
    UsernameTaken(bool),
    /// The stored username, or the error text of a failed insert.
    Registered(Result<String, String>),
    /// The stored username and whether the activation mail went out.
    ActivationMailed(String, bool),
}

/// The next step of the registration handler.
pub enum RegisterStep {
    CheckCsrf,
    CheckCaptcha,
    /// Look `form.username` up.
    CheckUsername,
    /// Store the account, awaiting activation.
    Register(NewAccount),
    /// Mail the activation link.
    SendActivation,
    /// Answer the request.
    Reply(Reply),
}

/// `/{locale}/register{suffix}`.
pub open spec fn register_page(locale: Seq<char>, suffix: Seq<char>) -> Seq<char> {
    "/"@ + locale + "/register"@ + suffix
}

/// `step` answers with a redirect to `url`.
pub open spec fn step_redirects(step: RegisterStep, url: Seq<char>) -> bool {
    step matches RegisterStep::Reply(rep) && redirects_to(rep, url)
}

/// The registration decisions: CSRF, captcha, password confirmed and
/// strong, username free, account stored, activation mailed.
pub open spec fn register_next(locale: Seq<char>, form: RegisterForm, event: RegisterEvent, step: RegisterStep) -> bool {
    match event {
        RegisterEvent::Start => step == RegisterStep::CheckCsrf,
        RegisterEvent::CsrfChecked(ok) => if ok {
            step == RegisterStep::CheckCaptcha
        } else {
            step matches RegisterStep::Reply(Reply::Forbidden)
        },
        RegisterEvent::CaptchaChecked(ok) => if !ok {
            step_redirects(step, register_page(locale, "?error=captcha"@))
        } else if form.password@ != form.confirm_password@ {
            step_redirects(step, register_page(locale, "?error=password_mismatch"@))
        } else if !is_strong(form.password@) {
            step_redirects(step, register_page(locale, "?error=password_weak"@))
        } else {
            step == RegisterStep::CheckUsername
        },
        RegisterEvent::UsernameTaken(taken) => if taken {
            step_redirects(step, register_page(locale, "?error=exist"@))
        } else {
            step matches RegisterStep::Register(acc)
                && is_hash_of(encode_utf8(form.password@), acc.cred@)
                && acc.activation_token@.len() == 64
                && forall|i: int| 0 <= i < 64 ==> is_lower_hex(#[trigger] acc.activation_token@[i])
        },
        RegisterEvent::Registered(Err(e)) => step matches RegisterStep::Reply(rep) && rejects_with(rep, e@),
        RegisterEvent::Registered(Ok(_)) => step == RegisterStep::SendActivation,
        RegisterEvent::ActivationMailed(name, sent) => step_redirects(
            step,
            register_page(locale, "?success=1&username="@) + name@ + if sent { ""@ } else { "&mail=1"@ },
        ),
    }
}

/// The next step of the registration handler after `event`.
pub fn register_step(locale: &str, form: &RegisterForm, event: RegisterEvent) -> (r: RegisterStep)
    requires
        encode_utf8(form.password@).len() <= 0xFFFF_FFFF,
    ensures
        register_next(locale@, *form, event, r),
{
    match event {
        RegisterEvent::Start => RegisterStep::CheckCsrf,
        RegisterEvent::CsrfChecked(ok) => if ok {
            RegisterStep::CheckCaptcha
        } else {
            RegisterStep::Reply(Reply::Forbidden)
        },
        RegisterEvent::CaptchaChecked(ok) => if !ok {
            RegisterStep::Reply(Reply::Redirect(cat4("/", locale, "/register", "?error=captcha")))
        } else if form.password != form.confirm_password {
            RegisterStep::Reply(Reply::Redirect(cat4("/", locale, "/register", "?error=password_mismatch")))
        } else if !password_strong(form.password.as_str()) {
            RegisterStep::Reply(Reply::Redirect(cat4("/", locale, "/register", "?error=password_weak")))
        } else {
            RegisterStep::CheckUsername
        },
        RegisterEvent::UsernameTaken(taken) => if taken {
            RegisterStep::Reply(Reply::Redirect(cat4("/", locale, "/register", "?error=exist")))
        } else {
            let cred = hash_credential(form.password.as_str());
            let token = random_hex();
            RegisterStep::Register(NewAccount { cred, activation_token: token })
        },
        RegisterEvent::Registered(Err(e)) => RegisterStep::Reply(Reply::BadRequest(e)),
        RegisterEvent::Registered(Ok(_)) => RegisterStep::SendActivation,
        RegisterEvent::ActivationMailed(name, sent) => {
            let flag = if sent { "" } else { "&mail=1" };
            RegisterStep::Reply(Reply::Redirect(cat6("/", locale, "/register", "?success=1&username=", name.as_str(), flag)))
        },
    }
}

/// The activation page's token: none when the query has none or an empty one.
pub fn activation_token(token: Option<&str>) -> (r: Option<&str>)
    ensures
        match token {
            Some(t) => if t@.len() > 0 { r == Some(t) } else { r is None },
            None => r is None,
        },
{
    match token {
        Some(t) => if t.unicode_len() > 0 { Some(t) } else { None },
        None => None,
    }
}

/// The form asking for a new activation mail.
pub struct ResendForm {
    /// Username or email.
    pub account: String,
    pub captcha_answer: String,
    pub csrf_token: String,
}

/// What the resend handler learnt from its last step.
pub enum ResendEvent {
    /// The form has just arrived.
    Start,
    /// Whether the CSRF token matched.
    CsrfChecked(bool),
    /// Whether the captcha answer was accepted.
    CaptchaChecked(bool),
    /// Whether a new activation token was issued (the account exists and
    /// awaits activation).
    TokenRotated(bool),
    /// Whether the mail went out.
    MailSent(bool),
}

/// The next step of the resend handler.
pub enum ResendStep {
    CheckCsrf,
    CheckCaptcha,
    /// Issue a new activation token for `form.account`.
    RotateToken,
    /// Mail the new link.
    SendMail,
    /// Answer the request.
    Reply(Reply),
}

/// `/{locale}/users/resend?account={account}{suffix}`.
pub open spec fn resend_page(locale: Seq<char>, account: Seq<char>, suffix: Seq<char>) -> Seq<char> {
    "/"@ + locale + "/users/resend?account="@ + account + suffix
}

/// The resend decisions.
pub open spec fn resend_next(locale: Seq<char>, form: ResendForm, event: ResendEvent, step: ResendStep) -> bool {
    match event {
        ResendEvent::Start => step == ResendStep::CheckCsrf,
        ResendEvent::CsrfChecked(ok) => if ok {
            step == ResendStep::CheckCaptcha
        } else {
            step matches ResendStep::Reply(Reply::Forbidden)
        },
        ResendEvent::CaptchaChecked(ok) => if ok {
            step == ResendStep::RotateToken
        } else {
            step matches ResendStep::Reply(rep) && redirects_to(rep, resend_page(locale, form.account@, "&error=1"@))
        },
        ResendEvent::TokenRotated(ok) => if ok {
            step == ResendStep::SendMail
        } else {
            step matches ResendStep::Reply(rep) && redirects_to(rep, resend_page(locale, form.account@, "&error=1"@))
        },
        ResendEvent::MailSent(sent) => step matches ResendStep::Reply(rep) && redirects_to(
            rep,
            resend_page(locale, form.account@, if sent { "&sent=1"@ } else { "&error=1"@ }),
        ),
    }
}

/// The next step of the resend handler after `event`.
pub fn resend_step(locale: &str, form: &ResendForm, event: ResendEvent) -> (r: ResendStep)
    ensures
        resend_next(locale@, *form, event, r),
{
    let account = form.account.as_str();
    match event {
        ResendEvent::Start => ResendStep::CheckCsrf,
        ResendEvent::CsrfChecked(ok) => if ok {
            ResendStep::CheckCaptcha
        } else {
            ResendStep::Reply(Reply::Forbidden)
        },
        ResendEvent::CaptchaChecked(ok) => if ok {
            ResendStep::RotateToken
        } else {
            ResendStep::Reply(Reply::Redirect(cat5("/", locale, "/users/resend?account=", account, "&error=1")))
        },
        ResendEvent::TokenRotated(ok) => if ok {
            ResendStep::SendMail
        } else {
            ResendStep::Reply(Reply::Redirect(cat5("/", locale, "/users/resend?account=", account, "&error=1")))
        },
        ResendEvent::MailSent(sent) => {
            let flag = if sent { "&sent=1" } else { "&error=1" };
            ResendStep::Reply(Reply::Redirect(cat5("/", locale, "/users/resend?account=", account, flag)))
        },
    }
}

/// The registration page's success banner: the query's `username`, shown
/// only when the query also has `success`.
pub fn success_username(query: &str) -> (r: Option<String>)
    ensures
        crate::common::session::opt_view(r) == (if find_param(split(query@, '&'), "success"@) is Some {
            find_param(split(query@, '&'), "username"@)
        } else {
            None
        }),
{
    if query_param(query, "success").is_some() {
        query_param(query, "username")
    } else {
        None
    }
}

} // verus!
