//! Password reset by mail: asking for a link, and setting a new password.
use vstd::prelude::*;
use vstd::string::*;
use vstd::utf8::encode_utf8;
use crate::common::auth::{hash_credential, is_hash_of, is_strong, password_strong};
use crate::pages::{redirects_to, Reply};
use crate::text::{cat3, cat4, cat5};

verus! {

/// The form asking for a reset link.
pub struct ForgotForm {
    /// Username or email.
    pub account: String,
    pub captcha_answer: String,
    pub csrf_token: String,
}

/// The form setting a new password with a reset token.
pub struct ResetForm {
    pub token: String,
    pub new_password: String,
    pub confirm_password: String,
    pub csrf_token: String,
}

/// What the reset-link handler learnt from its last step.
pub enum ForgotEvent {
    /// The form has just arrived.
    Start,
    /// Whether the CSRF token matched.
    CsrfChecked(bool),
    /// Whether the captcha answer was accepted.
    CaptchaChecked(bool),
    /// Whether a reset token was issued for the account (no when there is
    /// no such active account).
    ResetIssued(bool),
    /// Whether the mail with the link was sent.
    MailSent(bool),
}

/// The next step of the reset-link handler.
pub enum ForgotStep {
    CheckCsrf,
    CheckCaptcha,
    /// Issue a reset token for `form.account`.
    IssueReset,
    /// Mail the link with the issued token.
    SendMail,
    /// Answer the request.
    Reply(Reply),
}

/// `/{locale}/users/forgot-password{suffix}`.
pub open spec fn forgot_page(locale: Seq<char>, suffix: Seq<char>) -> Seq<char> {
    "/"@ + locale + "/users/forgot-password"@ + suffix
}

/// The reset-link decisions. An unknown account is answered exactly as a
/// sent mail is, so the answer does not tell which accounts exist.
pub open spec fn forgot_next(locale: Seq<char>, event: ForgotEvent, step: ForgotStep) -> bool {
    match event {
        ForgotEvent::Start => step == ForgotStep::CheckCsrf,
        ForgotEvent::CsrfChecked(ok) => if ok {
            step == ForgotStep::CheckCaptcha
        } else {
            step matches ForgotStep::Reply(Reply::Forbidden)
        },
        ForgotEvent::CaptchaChecked(ok) => if ok {
            step == ForgotStep::IssueReset
        } else {
            step matches ForgotStep::Reply(rep) && redirects_to(rep, forgot_page(locale, "?error=1"@))
        },
        ForgotEvent::ResetIssued(issued) => if issued {
            step == ForgotStep::SendMail
        } else {
            step matches ForgotStep::Reply(rep) && redirects_to(rep, forgot_page(locale, "?sent=1"@))
        },
        ForgotEvent::MailSent(sent) => step matches ForgotStep::Reply(rep) && redirects_to(
            rep,
            forgot_page(locale, if sent { "?sent=1"@ } else { "?error=1"@ }),
        ),
    }
}

/// The next step of the reset-link handler after `event`.
pub fn forgot_step(locale: &str, event: ForgotEvent) -> (r: ForgotStep)
    ensures
        forgot_next(locale@, event, r),
{
    match event {
        ForgotEvent::Start => ForgotStep::CheckCsrf,
        ForgotEvent::CsrfChecked(ok) => if ok {
            ForgotStep::CheckCaptcha
        } else {
            ForgotStep::Reply(Reply::Forbidden)
        },
        ForgotEvent::CaptchaChecked(ok) => if ok {
            ForgotStep::IssueReset
        } else {
            ForgotStep::Reply(Reply::Redirect(cat4("/", locale, "/users/forgot-password", "?error=1")))
        },
        ForgotEvent::ResetIssued(issued) => if issued {
            ForgotStep::SendMail
        } else {
            ForgotStep::Reply(Reply::Redirect(cat4("/", locale, "/users/forgot-password", "?sent=1")))
        },
        ForgotEvent::MailSent(sent) => if sent {
            ForgotStep::Reply(Reply::Redirect(cat4("/", locale, "/users/forgot-password", "?sent=1")))
        } else {
            ForgotStep::Reply(Reply::Redirect(cat4("/", locale, "/users/forgot-password", "?error=1")))
        },
    }
}

/// Asking for a link for an account that does not exist gets the same
/// answer as asking for one whose mail went out.
pub proof fn lemma_unknown_account_not_revealed(locale: Seq<char>, a: ForgotStep, b: ForgotStep)
    requires
        forgot_next(locale, ForgotEvent::ResetIssued(false), a),
        forgot_next(locale, ForgotEvent::MailSent(true), b),
    ensures
        a matches ForgotStep::Reply(Reply::Redirect(x)) && b matches ForgotStep::Reply(Reply::Redirect(y)) && x@ == y@,
{
}

/// What the reset handler learnt from its last step.
pub enum ResetEvent {
    /// The form has just arrived.
    Start,
    /// Whether the CSRF token matched.
    CsrfChecked(bool),
    /// Whether the token was valid and the credential stored.
    ResetCompleted(bool),
    /// Every session of the user has been ended.
    SessionsEnded,
}

/// The next step of the reset handler.
pub enum ResetStep {
    CheckCsrf,
    /// Store this credential for the token's user, consuming the token.
    CompleteReset(String),
    /// End every session of the token's user.
    EndSessions,
    /// Answer the request.
    Reply(Reply),
}

/// `/{locale}/users/reset-password?token={token}{suffix}`.
pub open spec fn reset_page(locale: Seq<char>, token: Seq<char>, suffix: Seq<char>) -> Seq<char> {
    "/"@ + locale + "/users/reset-password?token="@ + token + suffix
}

/// The reset decisions: CSRF, new password confirmed and strong, token
/// consumed, sessions ended, then on to sign in.
pub open spec fn reset_next(locale: Seq<char>, form: ResetForm, event: ResetEvent, step: ResetStep) -> bool {
    match event {
        ResetEvent::Start => step == ResetStep::CheckCsrf,
        ResetEvent::CsrfChecked(ok) => if !ok {
            step matches ResetStep::Reply(Reply::Forbidden)
        } else if form.new_password@ != form.confirm_password@ {
            step matches ResetStep::Reply(rep) && redirects_to(
                rep,
                reset_page(locale, form.token@, "&error=password_mismatch"@),
            )
        } else if !is_strong(form.new_password@) {
            step matches ResetStep::Reply(rep) && redirects_to(
                rep,
                reset_page(locale, form.token@, "&error=password_weak"@),
            )
        } else {
            step matches ResetStep::CompleteReset(c) && is_hash_of(encode_utf8(form.new_password@), c@)
        },
        ResetEvent::ResetCompleted(done) => if done {
            step == ResetStep::EndSessions
        } else {
            step matches ResetStep::Reply(rep) && redirects_to(rep, reset_page(locale, form.token@, "&invalid=1"@))
        },
        ResetEvent::SessionsEnded => step matches ResetStep::Reply(rep) && redirects_to(
            rep,
            "/"@ + locale + "/sign-in?notice=reset"@,
        ),
    }
}

/// The next step of the reset handler after `event`.
pub fn reset_step(locale: &str, form: &ResetForm, event: ResetEvent) -> (r: ResetStep)
    requires
        encode_utf8(form.new_password@).len() <= 0xFFFF_FFFF,
    ensures
        reset_next(locale@, *form, event, r),
{
    match event {
        ResetEvent::Start => ResetStep::CheckCsrf,
        ResetEvent::CsrfChecked(ok) => if !ok {
            ResetStep::Reply(Reply::Forbidden)
        } else if form.new_password != form.confirm_password {
            ResetStep::Reply(Reply::Redirect(
                cat5("/", locale, "/users/reset-password?token=", form.token.as_str(), "&error=password_mismatch"),
            ))
        } else if !password_strong(form.new_password.as_str()) {
            ResetStep::Reply(Reply::Redirect(
                cat5("/", locale, "/users/reset-password?token=", form.token.as_str(), "&error=password_weak"),
            ))
        } else {
            ResetStep::CompleteReset(hash_credential(form.new_password.as_str()))
        },
        ResetEvent::ResetCompleted(done) => if done {
            ResetStep::EndSessions
        } else {
            ResetStep::Reply(Reply::Redirect(
                cat5("/", locale, "/users/reset-password?token=", form.token.as_str(), "&invalid=1"),
            ))
        },
        ResetEvent::SessionsEnded => ResetStep::Reply(Reply::Redirect(cat3("/", locale, "/sign-in?notice=reset"))),
    }
}

} // verus!
