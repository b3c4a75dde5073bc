//! Changing one's own password.
use vstd::prelude::*;
use vstd::string::*;
use vstd::utf8::encode_utf8;
use crate::common::auth::{argon2_accepts, hash_credential, is_hash_of, is_strong, password_strong, verify_credential};
use crate::models::user::User;
use crate::pages::{redirects_to, Reply};
use crate::text::{cat4, cat6};

verus! {

/// The change-password form.
pub struct ChangePasswordForm {
    pub old_password: String,
    pub new_password: String,
    pub confirm_password: String,
    pub csrf_token: String,
}

/// What the change-password handler learnt from its last step.
pub enum PasswordEvent {
    /// The form has just arrived.
    Start,
    /// Whether the CSRF token matched.
    CsrfChecked(bool),
    /// The signed-in user's name, if any.
    CurrentUser(Option<String>),
    /// The signed-in user's record (`None` also when the lookup failed).
    UserFound(Option<User>),
    /// Whether the new credential was stored.
    CredUpdated(bool),
    /// The user's other sessions have been ended (or there was no session
    /// token to keep).
    OtherSessionsEnded,
}

/// The next step of the change-password handler.
pub enum PasswordStep {
    CheckCsrf,
    /// Find the signed-in user's name.
    FindCurrentUser,
    /// Load the record of this user.
    FindUser(String),
    /// Store this credential for the signed-in user.
    UpdateCred(String),
    /// End every session of the user but the current one.
    EndOtherSessions,
    /// Answer the request.
    Reply(Reply),
}

/// `/{locale}/account/password{suffix}`.
pub open spec fn password_page(locale: Seq<char>, suffix: Seq<char>) -> Seq<char> {
    "/"@ + locale + "/account/password"@ + suffix
}

/// `step` answers with a redirect to `url`.
pub open spec fn step_redirects(step: PasswordStep, url: Seq<char>) -> bool {
    step matches PasswordStep::Reply(rep) && redirects_to(rep, url)
}

/// The checks on the new password alone: it must match its confirmation and
/// be strong. The redirect for the first that fails, if any.
pub open spec fn new_password_problem(locale: Seq<char>, form: ChangePasswordForm) -> Option<Seq<char>> {
    if form.new_password@ != form.confirm_password@ {
        Some(password_page(locale, "?error=password_mismatch"@))
    } else if !is_strong(form.new_password@) {
        Some(password_page(locale, "?error=password_weak"@))
    } else {
        None
    }
}

/// The change-password decisions: CSRF, signed in, new password confirmed
/// and strong, old password right, credential stored, other sessions ended.
pub open spec fn password_next(locale: Seq<char>, form: ChangePasswordForm, event: PasswordEvent, step: PasswordStep) -> bool {
    match event {
        PasswordEvent::Start => step == PasswordStep::CheckCsrf,
        PasswordEvent::CsrfChecked(ok) => if ok {
            step == PasswordStep::FindCurrentUser
        } else {
            step matches PasswordStep::Reply(Reply::Forbidden)
        },
        PasswordEvent::CurrentUser(None) => step_redirects(
            step,
            "/"@ + locale + "/sign-in?next="@ + "/"@ + locale + "/account/password"@,
        ),
        PasswordEvent::CurrentUser(Some(name)) => match new_password_problem(locale, form) {
            Some(url) => step_redirects(step, url),
            None => step matches PasswordStep::FindUser(n) && n@ == name@,
        },
        PasswordEvent::UserFound(None) => step_redirects(step, password_page(locale, "?error=old_incorrect"@)),
        PasswordEvent::UserFound(Some(user)) => match new_password_problem(locale, form) {
            Some(url) => step_redirects(step, url),
            None => if argon2_accepts(encode_utf8(form.old_password@), user.cred@) {
                step matches PasswordStep::UpdateCred(c) && is_hash_of(encode_utf8(form.new_password@), c@)
            } else {
                step_redirects(step, password_page(locale, "?error=old_incorrect"@))
            },
        },
        PasswordEvent::CredUpdated(ok) => if ok {
            step == PasswordStep::EndOtherSessions
        } else {
            step_redirects(step, password_page(locale, "?error=old_incorrect"@))
        },
        PasswordEvent::OtherSessionsEnded => step_redirects(step, password_page(locale, "?ok=1"@)),
    }
}

/// The redirect for a failed check on the new password, if any.
fn check_new_password(locale: &str, form: &ChangePasswordForm) -> (r: Option<Reply>)
    ensures
        match new_password_problem(locale@, *form) {
            Some(url) => r matches Some(rep) && redirects_to(rep, url),
            None => r is None,
        },
{
    if form.new_password != form.confirm_password {
        Some(Reply::Redirect(cat4("/", locale, "/account/password", "?error=password_mismatch")))
    } else if !password_strong(form.new_password.as_str()) {
        Some(Reply::Redirect(cat4("/", locale, "/account/password", "?error=password_weak")))
    } else {
        None
    }
}

/// The next step of the change-password handler after `event`.
pub fn password_step(locale: &str, form: &ChangePasswordForm, event: PasswordEvent) -> (r: PasswordStep)
    requires
        encode_utf8(form.new_password@).len() <= 0xFFFF_FFFF,
    ensures
        password_next(locale@, *form, event, r),
{
    match event {
        PasswordEvent::Start => PasswordStep::CheckCsrf,
        PasswordEvent::CsrfChecked(ok) => if ok {
            PasswordStep::FindCurrentUser
        } else {
            PasswordStep::Reply(Reply::Forbidden)
        },
        PasswordEvent::CurrentUser(None) => PasswordStep::Reply(
            Reply::Redirect(cat6("/", locale, "/sign-in?next=", "/", locale, "/account/password")),
        ),
        PasswordEvent::CurrentUser(Some(name)) => match check_new_password(locale, form) {
            Some(rep) => PasswordStep::Reply(rep),
            None => PasswordStep::FindUser(name),
        },
        PasswordEvent::UserFound(None) => PasswordStep::Reply(
            Reply::Redirect(cat4("/", locale, "/account/password", "?error=old_incorrect")),
        ),
        PasswordEvent::UserFound(Some(user)) => match check_new_password(locale, form) {
            Some(rep) => PasswordStep::Reply(rep),
            None => if verify_credential(form.old_password.as_str(), user.cred.as_str()) {
                PasswordStep::UpdateCred(hash_credential(form.new_password.as_str()))
            } else {
                PasswordStep::Reply(Reply::Redirect(cat4("/", locale, "/account/password", "?error=old_incorrect")))
            },
        },
        PasswordEvent::CredUpdated(ok) => if ok {
            PasswordStep::EndOtherSessions
        } else {
            PasswordStep::Reply(Reply::Redirect(cat4("/", locale, "/account/password", "?error=old_incorrect")))
        },
        PasswordEvent::OtherSessionsEnded => PasswordStep::Reply(
            Reply::Redirect(cat4("/", locale, "/account/password", "?ok=1")),
        ),
    }
}

/// A stored credential is only ever replaced by a hash of a confirmed,
/// strong new password, and only after the old password was accepted for
/// the user's current credential.
pub proof fn lemma_cred_only_replaced_when_verified(
    locale: Seq<char>,
    form: ChangePasswordForm,
    event: PasswordEvent,
    step: PasswordStep,
)
    requires
        password_next(locale, form, event, step),
        step is UpdateCred,
    ensures
        event matches PasswordEvent::UserFound(Some(user))
            && argon2_accepts(encode_utf8(form.old_password@), user.cred@),
        form.new_password@ == form.confirm_password@,
        is_strong(form.new_password@),
        step matches PasswordStep::UpdateCred(c) && is_hash_of(encode_utf8(form.new_password@), c@),
{
}

/// The change-password page needs a signed-in user: a visitor who is not
/// signed in is redirected (302) to sign in, with this page as `next`.
pub fn password_page_gate(locale: &str, signed_in: bool) -> (r: Option<Reply>)
    ensures
        signed_in ==> r is None,
        !signed_in ==> (r matches Some(rep) && redirects_to(
            rep,
            "/"@ + locale@ + "/sign-in?next="@ + "/"@ + locale@ + "/account/password"@,
        )),
{
    if signed_in {
        None
    } else {
        Some(Reply::Redirect(sign_in_link(locale)))
    }
}

/// The link that sends a visitor who is not signed in to the sign-in page,
/// and back here afterwards.
pub fn sign_in_link(locale: &str) -> (r: String)
    ensures
        r@ == "/"@ + locale@ + "/sign-in?next="@ + "/"@ + locale@ + "/account/password"@,
{
    cat6("/", locale, "/sign-in?next=", "/", locale, "/account/password")
}

} // verus!
