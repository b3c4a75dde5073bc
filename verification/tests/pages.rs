use raolv::common::auth::{hash_credential, is_admin_record, verify_credential};
use raolv::models::user::User;
use raolv::pages::account::{password_page_gate, password_step, sign_in_link, ChangePasswordForm, PasswordEvent, PasswordStep};
use raolv::pages::admin_users::{
    ban_toggle, notice_key, requested_flag, requested_status, role_step, status_key, status_step, BanForm, RoleEvent,
    RoleForm, RoleStep, StatusEvent, StatusStep,
};
use raolv::pages::arcs::{
    can_delete, delete_step, kind_key, listing_base_url, listing_title_key, search_term, type_key_of,
    DeleteEvent, DeleteStep,
};
use raolv::pages::forgot_password::{forgot_step, reset_step, ForgotEvent, ForgotStep, ResetEvent, ResetForm, ResetStep};
use raolv::components::arc_preview::preview_fields;
use raolv::pages::register::{
    activation_token, success_username, register_step, resend_step, RegisterEvent, RegisterForm, RegisterStep, ResendEvent, ResendForm,
    ResendStep,
};
use raolv::pages::sign_in::{
    home_url, page_next, resend_account, sign_in_step, sign_out_reply, SignInEvent, SignInForm, SignInQuery, SignInStep,
};
use raolv::pages::upload::{non_empty, plan_media, upload_step, MediaPlan, UploadEvent, UploadForm, UploadRefusal, UploadStep};
use raolv::pages::users::profile_url;
use raolv::pages::{page_or_first, topic_list, Reply};
use raolv::models::arc::ArcType;

fn redirect_of(r: Reply) -> String {
    match r {
        Reply::Redirect(u) => u,
        Reply::Forbidden => panic!("expected a redirect, got 403"),
        Reply::BadRequest(m) => panic!("expected a redirect, got 400 {m}"),
    }
}

fn user(name: &str, cred: &str, status: u8, is_admin: u8) -> User {
    User {
        id: "u1".to_string(),
        username: name.to_string(),
        cred: cred.to_string(),
        email: format!("{name}@example.com"),
        introduction: String::new(),
        topics: String::new(),
        status,
        is_admin,
    }
}

fn sign_in_form(password: &str, next: &str) -> SignInForm {
    SignInForm {
        account: "alice".to_string(),
        password: password.to_string(),
        captcha_answer: "7".to_string(),
        next: next.to_string(),
        csrf_token: "t".to_string(),
    }
}

fn sign_in_reply(step: SignInStep) -> String {
    match step {
        SignInStep::Reply(r) => redirect_of(r),
        _ => panic!("expected a reply"),
    }
}

#[test]
fn sign_in_runs_its_checks_in_order() {
    let form = sign_in_form("Secret123", "/zh/orders");
    assert!(matches!(sign_in_step("zh", &form, SignInEvent::Start), SignInStep::CheckCsrf));
    assert!(matches!(sign_in_step("zh", &form, SignInEvent::CsrfChecked(false)), SignInStep::Reply(Reply::Forbidden)));
    assert!(matches!(sign_in_step("zh", &form, SignInEvent::CsrfChecked(true)), SignInStep::CheckCaptcha));
    assert_eq!(sign_in_reply(sign_in_step("zh", &form, SignInEvent::CaptchaChecked(false))), "/zh/sign-in?error=captcha");
    assert!(matches!(sign_in_step("zh", &form, SignInEvent::CaptchaChecked(true)), SignInStep::FindAccount));
    assert_eq!(sign_in_reply(sign_in_step("zh", &form, SignInEvent::AccountFound(None))), "/zh/sign-in?error=incorrect");
}

#[test]
fn sign_in_account_states() {
    let form = sign_in_form("Secret123", "");
    let cred = hash_credential("Secret123");
    assert!(verify_credential("Secret123", &cred));
    let pending = user("alice", &cred, 0, 0);
    assert_eq!(
        sign_in_reply(sign_in_step("en", &form, SignInEvent::AccountFound(Some(pending)))),
        "/en/sign-in?error=not_activation&account=alice"
    );
    let banned = user("alice", &cred, 2, 0);
    assert_eq!(sign_in_reply(sign_in_step("en", &form, SignInEvent::AccountFound(Some(banned)))), "/en/sign-in?error=banned");
    let active = user("alice", &cred, 1, 0);
    match sign_in_step("en", &form, SignInEvent::AccountFound(Some(active))) {
        SignInStep::StartSession(name) => assert_eq!(name, "alice"),
        _ => panic!("expected the session to start"),
    }
    let wrong = sign_in_form("Wrong1234", "");
    let active = user("alice", &cred, 1, 0);
    assert_eq!(sign_in_reply(sign_in_step("en", &wrong, SignInEvent::AccountFound(Some(active)))), "/en/sign-in?error=incorrect");
    let garbage = user("alice", "not-a-hash", 1, 0);
    assert_eq!(sign_in_reply(sign_in_step("en", &form, SignInEvent::AccountFound(Some(garbage)))), "/en/sign-in?error=incorrect");
}

#[test]
fn sign_in_target_is_next_only_when_safe() {
    let ok = sign_in_form("x", "/zh/orders?tab=1");
    assert_eq!(sign_in_reply(sign_in_step("zh", &ok, SignInEvent::SessionStarted(Ok(())))), "/zh/orders?tab=1");
    let evil = sign_in_form("x", "//evil.com/x");
    assert_eq!(sign_in_reply(sign_in_step("zh", &evil, SignInEvent::SessionStarted(Ok(())))), "/zh");
    let none = sign_in_form("x", "");
    assert_eq!(sign_in_reply(sign_in_step("en", &none, SignInEvent::SessionStarted(Ok(())))), "/en");
    match sign_in_step("en", &none, SignInEvent::SessionStarted(Err("db down".to_string()))) {
        SignInStep::Reply(Reply::BadRequest(m)) => assert_eq!(m, "db down"),
        _ => panic!("expected a 400"),
    }
}

#[test]
fn sign_out_and_sign_in_page_helpers() {
    assert!(matches!(sign_out_reply("en", false), Some(Reply::Forbidden)));
    assert!(sign_out_reply("en", true).is_none());
    assert_eq!(home_url("zh"), "/zh");
    assert_eq!(page_next(&SignInQuery { next: Some("/en/upload".to_string()) }), Some("/en/upload".to_string()));
    assert_eq!(page_next(&SignInQuery { next: Some("https://evil.com".to_string()) }), None);
    assert_eq!(page_next(&SignInQuery { next: None }), None);
    assert_eq!(resend_account("error=not_activation&account=bob"), Some("bob".to_string()));
    assert_eq!(resend_account("account=bob&error=not_activation"), Some("bob".to_string()));
    assert_eq!(resend_account("error=banned&account=bob"), None);
    assert_eq!(resend_account("error=not_activation"), None);
}

fn change_form(old: &str, new: &str, confirm: &str) -> ChangePasswordForm {
    ChangePasswordForm {
        old_password: old.to_string(),
        new_password: new.to_string(),
        confirm_password: confirm.to_string(),
        csrf_token: String::new(),
    }
}

fn password_reply(step: PasswordStep) -> String {
    match step {
        PasswordStep::Reply(r) => redirect_of(r),
        _ => panic!("expected a reply"),
    }
}

#[test]
fn change_password_checks_the_new_password_first() {
    let f = change_form("Old12345", "New12345", "New12345");
    assert!(matches!(password_step("en", &f, PasswordEvent::Start), PasswordStep::CheckCsrf));
    assert!(matches!(password_step("en", &f, PasswordEvent::CsrfChecked(false)), PasswordStep::Reply(Reply::Forbidden)));
    assert!(matches!(password_step("en", &f, PasswordEvent::CsrfChecked(true)), PasswordStep::FindCurrentUser));
    assert_eq!(
        password_reply(password_step("en", &f, PasswordEvent::CurrentUser(None))),
        "/en/sign-in?next=/en/account/password"
    );
    assert_eq!(sign_in_link("en"), "/en/sign-in?next=/en/account/password");
    match password_step("en", &f, PasswordEvent::CurrentUser(Some("alice".to_string()))) {
        PasswordStep::FindUser(n) => assert_eq!(n, "alice"),
        _ => panic!("expected a lookup"),
    }
    let mismatch = change_form("Old12345", "New12345", "New12346");
    assert_eq!(
        password_reply(password_step("en", &mismatch, PasswordEvent::CurrentUser(Some("alice".to_string())))),
        "/en/account/password?error=password_mismatch"
    );
    let weak = change_form("Old12345", "weakpass", "weakpass");
    assert_eq!(
        password_reply(password_step("en", &weak, PasswordEvent::CurrentUser(Some("alice".to_string())))),
        "/en/account/password?error=password_weak"
    );
    assert_eq!(password_reply(password_step("en", &f, PasswordEvent::UserFound(None))), "/en/account/password?error=old_incorrect");
    assert!(matches!(password_step("en", &f, PasswordEvent::CredUpdated(true)), PasswordStep::EndOtherSessions));
    assert_eq!(password_reply(password_step("en", &f, PasswordEvent::CredUpdated(false))), "/en/account/password?error=old_incorrect");
    assert_eq!(password_reply(password_step("en", &f, PasswordEvent::OtherSessionsEnded)), "/en/account/password?ok=1");
}

#[test]
fn change_password_stores_a_hash_of_the_new_password() {
    let old_cred = hash_credential("Old12345");
    let f = change_form("Old12345", "New12345", "New12345");
    match password_step("en", &f, PasswordEvent::UserFound(Some(user("alice", &old_cred, 1, 0)))) {
        PasswordStep::UpdateCred(c) => {
            assert!(c.starts_with("$argon2id$"));
            assert!(verify_credential("New12345", &c));
            assert!(!verify_credential("Old12345", &c));
        },
        _ => panic!("expected the credential to be stored"),
    }
    let wrong_old = change_form("Nope12345", "New12345", "New12345");
    assert_eq!(
        password_reply(password_step("en", &wrong_old, PasswordEvent::UserFound(Some(user("alice", &old_cred, 1, 0))))),
        "/en/account/password?error=old_incorrect"
    );
}

#[test]
fn forgot_password_hides_unknown_accounts() {
    let reply = |e: ForgotEvent| match forgot_step("zh", e) {
        ForgotStep::Reply(r) => redirect_of(r),
        _ => panic!("expected a reply"),
    };
    assert!(matches!(forgot_step("zh", ForgotEvent::Start), ForgotStep::CheckCsrf));
    assert!(matches!(forgot_step("zh", ForgotEvent::CsrfChecked(false)), ForgotStep::Reply(Reply::Forbidden)));
    assert!(matches!(forgot_step("zh", ForgotEvent::CsrfChecked(true)), ForgotStep::CheckCaptcha));
    assert_eq!(reply(ForgotEvent::CaptchaChecked(false)), "/zh/users/forgot-password?error=1");
    assert!(matches!(forgot_step("zh", ForgotEvent::CaptchaChecked(true)), ForgotStep::IssueReset));
    assert!(matches!(forgot_step("zh", ForgotEvent::ResetIssued(true)), ForgotStep::SendMail));
    assert_eq!(reply(ForgotEvent::ResetIssued(false)), "/zh/users/forgot-password?sent=1");
    assert_eq!(reply(ForgotEvent::MailSent(true)), "/zh/users/forgot-password?sent=1");
    assert_eq!(reply(ForgotEvent::MailSent(false)), "/zh/users/forgot-password?error=1");
    assert_eq!(reply(ForgotEvent::ResetIssued(false)), reply(ForgotEvent::MailSent(true)));
}

#[test]
fn reset_password_steps() {
    let form = |new: &str, confirm: &str| ResetForm {
        token: "abc".to_string(),
        new_password: new.to_string(),
        confirm_password: confirm.to_string(),
        csrf_token: String::new(),
    };
    let reply = |s: ResetStep| match s {
        ResetStep::Reply(r) => redirect_of(r),
        _ => panic!("expected a reply"),
    };
    let good = form("Fresh123", "Fresh123");
    assert!(matches!(reset_step("en", &good, ResetEvent::Start), ResetStep::CheckCsrf));
    assert!(matches!(reset_step("en", &good, ResetEvent::CsrfChecked(false)), ResetStep::Reply(Reply::Forbidden)));
    assert_eq!(
        reply(reset_step("en", &form("Fresh123", "Fresh124"), ResetEvent::CsrfChecked(true))),
        "/en/users/reset-password?token=abc&error=password_mismatch"
    );
    assert_eq!(
        reply(reset_step("en", &form("fresh", "fresh"), ResetEvent::CsrfChecked(true))),
        "/en/users/reset-password?token=abc&error=password_weak"
    );
    match reset_step("en", &good, ResetEvent::CsrfChecked(true)) {
        ResetStep::CompleteReset(c) => assert!(verify_credential("Fresh123", &c)),
        _ => panic!("expected the reset to complete"),
    }
    assert!(matches!(reset_step("en", &good, ResetEvent::ResetCompleted(true)), ResetStep::EndSessions));
    assert_eq!(reply(reset_step("en", &good, ResetEvent::ResetCompleted(false))), "/en/users/reset-password?token=abc&invalid=1");
    assert_eq!(reply(reset_step("en", &good, ResetEvent::SessionsEnded)), "/en/sign-in?notice=reset");
}

fn register_form(password: &str, confirm: &str) -> RegisterForm {
    RegisterForm {
        username: "carol".to_string(),
        email: "carol@example.com".to_string(),
        password: password.to_string(),
        confirm_password: confirm.to_string(),
        introduction: "## About Me".to_string(),
        topics: "rust, verus".to_string(),
        captcha_answer: "3".to_string(),
        csrf_token: String::new(),
    }
}

#[test]
fn register_steps_and_new_account() {
    let reply = |s: RegisterStep| match s {
        RegisterStep::Reply(r) => redirect_of(r),
        _ => panic!("expected a reply"),
    };
    let good = register_form("Passw0rd", "Passw0rd");
    assert!(matches!(register_step("en", &good, RegisterEvent::Start), RegisterStep::CheckCsrf));
    assert!(matches!(register_step("en", &good, RegisterEvent::CsrfChecked(false)), RegisterStep::Reply(Reply::Forbidden)));
    assert!(matches!(register_step("en", &good, RegisterEvent::CsrfChecked(true)), RegisterStep::CheckCaptcha));
    assert_eq!(reply(register_step("en", &good, RegisterEvent::CaptchaChecked(false))), "/en/register?error=captcha");
    assert_eq!(
        reply(register_step("en", &register_form("Passw0rd", "Passw0rX"), RegisterEvent::CaptchaChecked(true))),
        "/en/register?error=password_mismatch"
    );
    assert_eq!(
        reply(register_step("en", &register_form("password", "password"), RegisterEvent::CaptchaChecked(true))),
        "/en/register?error=password_weak"
    );
    assert!(matches!(register_step("en", &good, RegisterEvent::CaptchaChecked(true)), RegisterStep::CheckUsername));
    assert_eq!(reply(register_step("en", &good, RegisterEvent::UsernameTaken(true))), "/en/register?error=exist");
    match register_step("en", &good, RegisterEvent::UsernameTaken(false)) {
        RegisterStep::Register(acc) => {
            assert!(verify_credential("Passw0rd", &acc.cred));
            assert_eq!(acc.activation_token.len(), 64);
            assert!(acc.activation_token.chars().all(|c| c.is_ascii_digit() || ('a'..='f').contains(&c)));
        },
        _ => panic!("expected the account to be stored"),
    }
    match register_step("en", &good, RegisterEvent::Registered(Err("duplicate".to_string()))) {
        RegisterStep::Reply(Reply::BadRequest(m)) => assert_eq!(m, "duplicate"),
        _ => panic!("expected a 400"),
    }
    assert!(matches!(register_step("en", &good, RegisterEvent::Registered(Ok("carol".to_string()))), RegisterStep::SendActivation));
    assert_eq!(
        reply(register_step("en", &good, RegisterEvent::ActivationMailed("carol".to_string(), true))),
        "/en/register?success=1&username=carol"
    );
    assert_eq!(
        reply(register_step("en", &good, RegisterEvent::ActivationMailed("carol".to_string(), false))),
        "/en/register?success=1&username=carol&mail=1"
    );
}

#[test]
fn resend_and_activation_helpers() {
    let form = ResendForm { account: "carol".to_string(), captcha_answer: "1".to_string(), csrf_token: String::new() };
    let reply = |s: ResendStep| match s {
        ResendStep::Reply(r) => redirect_of(r),
        _ => panic!("expected a reply"),
    };
    assert!(matches!(resend_step("zh", &form, ResendEvent::Start), ResendStep::CheckCsrf));
    assert!(matches!(resend_step("zh", &form, ResendEvent::CsrfChecked(false)), ResendStep::Reply(Reply::Forbidden)));
    assert_eq!(reply(resend_step("zh", &form, ResendEvent::CaptchaChecked(false))), "/zh/users/resend?account=carol&error=1");
    assert!(matches!(resend_step("zh", &form, ResendEvent::CaptchaChecked(true)), ResendStep::RotateToken));
    assert_eq!(reply(resend_step("zh", &form, ResendEvent::TokenRotated(false))), "/zh/users/resend?account=carol&error=1");
    assert!(matches!(resend_step("zh", &form, ResendEvent::TokenRotated(true)), ResendStep::SendMail));
    assert_eq!(reply(resend_step("zh", &form, ResendEvent::MailSent(true))), "/zh/users/resend?account=carol&sent=1");
    assert_eq!(reply(resend_step("zh", &form, ResendEvent::MailSent(false))), "/zh/users/resend?account=carol&error=1");
    assert_eq!(activation_token(Some("abc")), Some("abc"));
    assert_eq!(activation_token(Some("")), None);
    assert_eq!(activation_token(None), None);
}

#[test]
fn ban_handler_spares_administrators() {
    let ban = BanForm { to: "banned".to_string(), csrf_token: String::new() };
    let reply = |s: StatusStep| match s {
        StatusStep::Reply(r) => redirect_of(r),
        _ => panic!("expected a reply"),
    };
    assert_eq!(requested_status("banned"), Some(2));
    assert_eq!(requested_status("active"), Some(1));
    assert_eq!(requested_status("pending"), None);
    assert!(matches!(status_step("en", &ban, StatusEvent::CsrfChecked(false)), StatusStep::Reply(Reply::Forbidden)));
    assert!(matches!(status_step("en", &ban, StatusEvent::CsrfChecked(true)), StatusStep::FindUser));
    let odd = BanForm { to: "frozen".to_string(), csrf_token: String::new() };
    assert_eq!(reply(status_step("en", &odd, StatusEvent::CsrfChecked(true))), "/en/admin/users");
    assert_eq!(reply(status_step("en", &ban, StatusEvent::UserFound(None))), "/en/admin/users");
    assert_eq!(reply(status_step("en", &ban, StatusEvent::UserFound(Some(user("root", "", 1, 1))))), "/en/admin/users");
    assert!(matches!(status_step("en", &ban, StatusEvent::UserFound(Some(user("bob", "", 1, 0)))), StatusStep::SetStatus(2)));
    assert!(matches!(status_step("en", &ban, StatusEvent::StatusSet(true)), StatusStep::EndSessions));
    assert_eq!(reply(status_step("en", &ban, StatusEvent::StatusSet(false))), "/en/admin/users");
    assert_eq!(reply(status_step("en", &ban, StatusEvent::SessionsEnded)), "/en/admin/users?ok=updated");
    let unban = BanForm { to: "active".to_string(), csrf_token: String::new() };
    assert_eq!(reply(status_step("en", &unban, StatusEvent::StatusSet(true))), "/en/admin/users?ok=updated");
}

#[test]
fn role_handler_refuses_self_demotion() {
    let demote = RoleForm { role: "user".to_string(), csrf_token: String::new() };
    let promote = RoleForm { role: "admin".to_string(), csrf_token: String::new() };
    let reply = |s: RoleStep| match s {
        RoleStep::Reply(r) => redirect_of(r),
        _ => panic!("expected a reply"),
    };
    assert_eq!(requested_flag("admin"), Some(1));
    assert_eq!(requested_flag("user"), Some(0));
    assert_eq!(requested_flag("root"), None);
    let bogus = RoleForm { role: "root".to_string(), csrf_token: String::new() };
    assert_eq!(reply(role_step("en", &bogus, RoleEvent::CsrfChecked(true))), "/en/admin/users");
    assert!(matches!(role_step("en", &promote, RoleEvent::UserFound(Some(user("bob", "", 1, 0)))), RoleStep::SetFlag(1)));
    assert!(matches!(role_step("en", &demote, RoleEvent::UserFound(Some(user("bob", "", 1, 1)))), RoleStep::FindCurrentUser));
    assert_eq!(reply(role_step("en", &demote, RoleEvent::UserFound(None))), "/en/admin/users");
    assert_eq!(
        reply(role_step("en", &demote, RoleEvent::CurrentUser(Some("root".to_string()), "root".to_string()))),
        "/en/admin/users"
    );
    assert!(matches!(
        role_step("en", &demote, RoleEvent::CurrentUser(Some("root".to_string()), "bob".to_string())),
        RoleStep::SetFlag(0)
    ));
    assert_eq!(reply(role_step("en", &demote, RoleEvent::FlagSet(true))), "/en/admin/users?ok=role");
    assert_eq!(reply(role_step("en", &demote, RoleEvent::FlagSet(false))), "/en/admin/users");
}

#[test]
fn user_rows_and_notices() {
    assert_eq!(status_key(0), "user_status_pending");
    assert_eq!(status_key(1), "user_status_active");
    assert_eq!(status_key(2), "user_status_banned");
    assert_eq!(ban_toggle(2), ("admin_user_unban", "active"));
    assert_eq!(ban_toggle(1), ("admin_user_ban", "banned"));
    let keys = [("updated", "admin_user_updated"), ("role", "admin_role_updated")];
    assert_eq!(notice_key(Some("role"), &keys), Some("admin_role_updated"));
    assert_eq!(notice_key(Some("updated"), &keys), Some("admin_user_updated"));
    assert_eq!(notice_key(Some("other"), &keys), None);
    assert_eq!(notice_key(None, &keys), None);
}

#[test]
fn listing_helpers() {
    assert_eq!(type_key_of("video"), "video");
    assert_eq!(type_key_of("photo"), "photo");
    assert_eq!(type_key_of("music"), "");
    assert_eq!(listing_title_key("article"), "post_type_article");
    assert_eq!(listing_title_key(""), "nav_article");
    assert_eq!(kind_key(ArcType::Video), "post_type_video");
    assert_eq!(kind_key(ArcType::Article), "post_type_article");
    assert_eq!(search_term("  rust \t"), Some("rust".to_string()));
    assert_eq!(search_term("   "), None);
    assert_eq!(listing_base_url("en", None, None), "/en/arcs");
    assert_eq!(listing_base_url("en", Some("video"), None), "/en/arcs/video");
    assert_eq!(listing_base_url("zh", Some("photo"), Some("cat")), "/zh/arcs/photo?q=cat");
    assert_eq!(listing_base_url("zh", None, Some("cat")), "/zh/arcs?q=cat");
    assert_eq!(profile_url("en", "alice"), "/en/users/alice");
    assert_eq!(page_or_first(None), 1);
    assert_eq!(page_or_first(Some(0)), 1);
    assert_eq!(page_or_first(Some(7)), 7);
    assert_eq!(topic_list(" rust, ,verus ,, web"), vec!["rust".to_string(), "verus".to_string(), "web".to_string()]);
    assert!(topic_list("").is_empty());
}

#[test]
fn delete_only_by_author_or_admin() {
    assert!(can_delete(Some("alice"), Some("alice"), false));
    assert!(!can_delete(Some("alice"), Some("bob"), false));
    assert!(can_delete(Some("alice"), Some("bob"), true));
    assert!(!can_delete(None, Some("bob"), false));
    assert!(!can_delete(Some("alice"), None, false));
    assert!(matches!(delete_step("en", DeleteEvent::CsrfChecked(false)), DeleteStep::Reply(Reply::Forbidden)));
    assert!(matches!(delete_step("en", DeleteEvent::CurrentUser(None)), DeleteStep::Reply(Reply::Forbidden)));
    assert!(matches!(delete_step("en", DeleteEvent::CurrentUser(Some("bob".to_string()))), DeleteStep::FindArc));
    match delete_step("en", DeleteEvent::ArcFound(None)) {
        DeleteStep::Reply(r) => assert_eq!(redirect_of(r), "/en"),
        _ => panic!("expected a redirect"),
    }
    assert!(matches!(
        delete_step("en", DeleteEvent::AdminChecked(Some("alice".to_string()), "bob".to_string(), false)),
        DeleteStep::Reply(Reply::Forbidden)
    ));
    assert!(matches!(
        delete_step("en", DeleteEvent::AdminChecked(Some("alice".to_string()), "alice".to_string(), false)),
        DeleteStep::Delete
    ));
    assert!(matches!(delete_step("en", DeleteEvent::AdminChecked(None, "root".to_string(), true)), DeleteStep::Delete));
    match delete_step("en", DeleteEvent::Deleted(Ok(()))) {
        DeleteStep::Reply(r) => assert_eq!(redirect_of(r), "/en"),
        _ => panic!("expected a redirect"),
    }
}

#[test]
fn upload_plans() {
    assert!(matches!(plan_media("article", None), Ok(MediaPlan::NoMedia)));
    assert!(matches!(plan_media("article", Some((10, "text/plain"))), Ok(MediaPlan::NoMedia)));
    assert!(matches!(plan_media("video", None), Err(UploadRefusal::NoFile)));
    assert!(matches!(plan_media("video", Some((0, "video/mp4"))), Err(UploadRefusal::NoFile)));
    assert!(matches!(plan_media("photo", Some((32 * 1024 * 1024 + 1, "image/png"))), Err(UploadRefusal::TooLarge)));
    assert!(matches!(plan_media("photo", Some((32 * 1024 * 1024, "image/png"))), Ok(MediaPlan::Image("png"))));
    assert!(matches!(plan_media("photo", Some((5, "application/pdf"))), Err(UploadRefusal::UnsupportedType)));
    assert!(matches!(plan_media("video", Some((5, "video/quicktime"))), Ok(MediaPlan::Video("mov"))));
    assert!(matches!(plan_media("video", Some((5, "image/jpeg"))), Ok(MediaPlan::Image("jpg"))));
    assert_eq!(UploadRefusal::NoFile.key(), "upload_no_file");
    assert_eq!(UploadRefusal::TooLarge.key(), "upload_too_large");
    assert_eq!(UploadRefusal::UnsupportedType.key(), "upload_verify_failed");
    assert_eq!(non_empty(""), None);
    assert_eq!(non_empty("x"), Some("x"));
}

#[test]
fn administrator_records() {
    assert!(is_admin_record(Some(&user("root", "", 1, 1))));
    assert!(!is_admin_record(Some(&user("bob", "", 1, 0))));
    assert!(!is_admin_record(None));
}

#[test]
fn preview_cards_and_register_banner() {
    let mut a = raolv::models::arc::Arc {
        id: "k1".to_string(),
        title: "T".to_string(),
        arc_type: ArcType::Photo,
        body: None,
        summary: None,
        thumbnail: None,
        media_url: None,
        author_id: None,
        author_name: Some("alice".to_string()),
        topics: None,
        created_at: "2024-05-06T07:08:09Z".to_string(),
        view_count: 3,
    };
    let f = preview_fields("zh", &a);
    assert_eq!(f.href, "/zh/arc/k1");
    assert_eq!(f.created_date, "2024-05-06");
    assert_eq!(f.author, "alice");
    assert_eq!(f.type_key, "post_type_photo");
    a.created_at = "2024".to_string();
    a.author_name = None;
    let f = preview_fields("en", &a);
    assert_eq!(f.created_date, "2024");
    assert_eq!(f.author, "");
    assert_eq!(success_username("success=1&username=carol"), Some("carol".to_string()));
    assert_eq!(success_username("username=carol"), None);
    assert_eq!(success_username("success=1"), None);
}

fn upload_form(post_type: &str, file: Option<(usize, &str)>) -> UploadForm {
    UploadForm {
        title: "Sunset".to_string(),
        post_type: post_type.to_string(),
        body: String::new(),
        topics: "sea, sky".to_string(),
        csrf_token: "t".to_string(),
        file: file.map(|(n, m)| (n, m.to_string())),
    }
}

#[test]
fn upload_steps() {
    let photo = upload_form("photo", Some((10, "image/png")));
    assert!(matches!(upload_step("en", &photo, UploadEvent::Start), UploadStep::CheckCsrf));
    assert!(matches!(upload_step("en", &photo, UploadEvent::CsrfChecked(false)), UploadStep::Reply(Reply::Forbidden)));
    assert!(matches!(upload_step("en", &photo, UploadEvent::CsrfChecked(true)), UploadStep::Save(MediaPlan::Image("png"))));
    let none = upload_form("video", None);
    assert!(matches!(
        upload_step("en", &none, UploadEvent::CsrfChecked(true)),
        UploadStep::Refuse("upload_no_file", None)
    ));
    let article = upload_form("article", None);
    match upload_step("en", &article, UploadEvent::CsrfChecked(true)) {
        UploadStep::FindAuthor(u) => assert_eq!(u, ""),
        _ => panic!("an article stores no file"),
    }
    match upload_step("en", &photo, UploadEvent::Saved(Err("disk full".to_string()))) {
        UploadStep::Refuse(k, Some(d)) => {
            assert_eq!(k, "upload_verify_failed");
            assert_eq!(d, "disk full");
        }
        _ => panic!("a failed store is refused"),
    }
    match upload_step("en", &photo, UploadEvent::AuthorFound("/media/k.png".to_string(), Some("alice".to_string()))) {
        UploadStep::Create(item) => {
            assert_eq!(item.id.len(), 32);
            assert_eq!(item.title, "Sunset");
            assert_eq!(item.arc_type, "photo");
            assert_eq!(item.media_url, "/media/k.png");
            assert_eq!(item.body, None);
            assert_eq!(item.topics, Some("sea, sky".to_string()));
            assert_eq!(item.author, Some("alice".to_string()));
        }
        _ => panic!("expected the item to be created"),
    }
    match upload_step("en", &photo, UploadEvent::Created("/media/k.png".to_string(), Err("db".to_string()))) {
        UploadStep::RemoveUpload(u) => assert_eq!(u, "/media/k.png"),
        _ => panic!("a failed create removes the media"),
    }
    match upload_step("en", &photo, UploadEvent::UploadRemoved("db".to_string())) {
        UploadStep::Fail(e) => assert_eq!(e, "db"),
        _ => panic!("then answers 500"),
    }
    match upload_step("en", &photo, UploadEvent::Created("/media/k.png".to_string(), Ok(()))) {
        UploadStep::Notify(t) => assert_eq!(t, "Sunset"),
        _ => panic!("a created item is announced"),
    }
    match upload_step("zh", &photo, UploadEvent::Notified) {
        UploadStep::Reply(r) => assert_eq!(redirect_of(r), "/zh"),
        _ => panic!("then the home page"),
    }
}

#[test]
fn password_page_needs_sign_in() {
    assert!(password_page_gate("en", true).is_none());
    match password_page_gate("zh", false) {
        Some(r) => assert_eq!(redirect_of(r), "/zh/sign-in?next=/zh/account/password"),
        None => panic!("visitors are sent to sign in"),
    }
}
