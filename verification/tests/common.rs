use raolv::i18n::negotiate::{negotiate_language, parse_q};
use raolv::common::admin_guard::{AdminDecision, AdminGuard};
use raolv::common::auth::{hash_credential, password_strong, verify_credential};
use raolv::common::config::{config_from_vars, parse_i64, ConfigError};
use raolv::common::constant::error_i18n_key;
use raolv::common::email::{mail_body, MailKind};
use raolv::common::form::{error_message_key_for, query_param};
use raolv::common::locale_redirect::LocaleRedirect;
use raolv::common::markdown::render_md;
use raolv::common::rand::{hex, random_hex};
use raolv::common::session::{
    csrf_matches, encode_id, eq_ignore_ascii_case_exec, plan_csrf_token, resolve_user, CsrfPlan, SessionCookieStore,
};

fn full_vars() -> Vec<(String, String)> {
    [
        ("DOMAIN", "example.org"),
        ("PAGE_SIZE", "12"),
        ("DB_URL", "ws://localhost:8000"),
        ("DB_NS", "raolv"),
        ("DB_NAME", "main"),
        ("DB_USER", "root"),
        ("DB_PASS", "secret"),
        ("EMAIL_SMTP", "smtp.example.org"),
        ("EMAIL_FROM", "noreply@example.org"),
        ("EMAIL_USERNAME", "mailer"),
        ("EMAIL_PASSWORD", "hunter2"),
    ]
    .iter()
    .map(|(k, v)| (k.to_string(), v.to_string()))
    .collect()
}

#[test]
fn config_reads_every_variable() {
    let c = config_from_vars(&full_vars()).ok().expect("complete configuration");
    assert_eq!(c.domain, "example.org");
    assert_eq!(c.page_size, 12);
    assert_eq!(c.db_url, "ws://localhost:8000");
    assert_eq!(c.db_ns, "raolv");
    assert_eq!(c.db_name, "main");
    assert_eq!(c.db_user, "root");
    assert_eq!(c.db_pass, "secret");
    assert_eq!(c.email_smtp, "smtp.example.org");
    assert_eq!(c.email_from, "noreply@example.org");
    assert_eq!(c.email_username, "mailer");
    assert_eq!(c.email_password, "hunter2");
}

#[test]
fn config_reports_the_first_problem() {
    let without = |names: &[&str]| -> Vec<(String, String)> {
        full_vars().into_iter().filter(|(k, _)| !names.contains(&k.as_str())).collect()
    };
    assert!(matches!(config_from_vars(&without(&["DB_USER", "DOMAIN"])), Err(ConfigError::Missing("DOMAIN"))));
    assert!(matches!(config_from_vars(&without(&["EMAIL_FROM", "DB_USER"])), Err(ConfigError::Missing("DB_USER"))));
    assert!(matches!(config_from_vars(&without(&["EMAIL_PASSWORD"])), Err(ConfigError::Missing("EMAIL_PASSWORD"))));
    let mut bad = without(&["DB_URL"]);
    for (k, v) in bad.iter_mut() {
        if k == "PAGE_SIZE" {
            *v = "twelve".to_string();
        }
    }
    assert!(matches!(config_from_vars(&bad), Err(ConfigError::NotInteger("PAGE_SIZE"))));
    assert!(matches!(config_from_vars(&Vec::new()), Err(ConfigError::Missing("DOMAIN"))));
}

#[test]
fn parse_i64_follows_std() {
    for s in ["0", "-0", "+5", "12", "-12", "9223372036854775807", "-9223372036854775808", "9223372036854775808", "", "-", "1e3", " 1"] {
        assert_eq!(parse_i64(s), s.parse::<i64>().ok(), "{s}");
    }
}

#[test]
fn error_codes_map_to_translation_keys() {
    assert_eq!(error_i18n_key("captcha"), Some("captcha_invalid"));
    assert_eq!(error_i18n_key("incorrect"), Some("sign_in_incorrect"));
    assert_eq!(error_i18n_key("not_activation"), Some("sign_in_not_activation"));
    assert_eq!(error_i18n_key("banned"), Some("sign_in_banned"));
    assert_eq!(error_i18n_key("security"), Some("sign_in_security_problem"));
    assert_eq!(error_i18n_key("password_weak"), Some("register_password_weak"));
    assert_eq!(error_i18n_key("password_mismatch"), Some("register_password_mismatch"));
    assert_eq!(error_i18n_key("exist"), Some("register_exist"));
    assert_eq!(error_i18n_key("other"), None);
}

#[test]
fn query_parameters() {
    assert_eq!(query_param("a=1&b=2", "b"), Some("2".to_string()));
    assert_eq!(query_param("a=1&a=2", "a"), Some("1".to_string()));
    assert_eq!(query_param("flag&b=x=y", "b"), Some("x=y".to_string()));
    assert_eq!(query_param("flag&b=2", "flag"), None);
    assert_eq!(query_param("", "a"), None);
    assert_eq!(query_param("a=", "a"), Some(String::new()));
    assert_eq!(error_message_key_for("error=banned", &["captcha", "banned"]), Some("sign_in_banned"));
    assert_eq!(error_message_key_for("error=banned", &["captcha"]), None);
    assert_eq!(error_message_key_for("ok=1", &["captcha"]), None);
}

#[test]
fn password_strength() {
    assert!(password_strong("Abcdef12"));
    assert!(password_strong("aB3"));
    assert!(!password_strong("abcdef12"));
    assert!(!password_strong("ABCDEF12"));
    assert!(!password_strong("Abcdefgh"));
    assert!(!password_strong(""));
    assert!(password_strong("Ünïcödé9"));
}

#[test]
fn hashed_credentials_verify() {
    let h = hash_credential("Smoke123a");
    assert!(h.starts_with("$argon2id$"));
    assert!(verify_credential("Smoke123a", &h));
    assert!(!verify_credential("Smoke123b", &h));
    assert!(!verify_credential("Smoke123a", "garbage"));
    assert_ne!(h, hash_credential("Smoke123a"));
}

#[test]
fn hex_encoding() {
    assert_eq!(hex(&[]), "");
    assert_eq!(hex(&[0x00, 0x0f, 0xa0, 0xff]), "000fa0ff");
    assert_eq!(encode_id(&[0xde, 0xad, 0xbe, 0xef]), "deadbeef");
    let r = random_hex();
    assert_eq!(r.len(), 64);
    assert!(r.chars().all(|c| c.is_ascii_digit() || ('a'..='f').contains(&c)));
    assert_ne!(r, random_hex());
}

#[test]
fn sessions_expire() {
    assert_eq!(resolve_user(Some(100), Some("al".to_string()), 99), Some("al".to_string()));
    assert_eq!(resolve_user(Some(100), Some("al".to_string()), 100), None);
    assert_eq!(resolve_user(None, Some("al".to_string()), 0), None);
    assert_eq!(resolve_user(Some(100), None, 0), None);
}

#[test]
fn csrf_tokens() {
    assert!(csrf_matches(Some("abc"), "abc"));
    assert!(!csrf_matches(Some("abc"), "abd"));
    assert!(!csrf_matches(None, ""));
    assert!(!csrf_matches(Some(""), ""));
    match plan_csrf_token(Some("tok".to_string()), true) {
        CsrfPlan::Reuse(t) => assert_eq!(t, "tok"),
        _ => panic!("a stored token is reused"),
    }
    match plan_csrf_token(None, false) {
        CsrfPlan::Create(t) => assert_eq!(t.len(), 64),
        _ => panic!("a session without a record gets one"),
    }
    match plan_csrf_token(None, true) {
        CsrfPlan::Update(t) => assert_eq!(t.len(), 64),
        _ => panic!("an existing record is updated"),
    }
}

#[test]
fn session_cookie_choice() {
    assert!(SessionCookieStore::is_https(Some("https")));
    assert!(SessionCookieStore::is_https(Some("HTTPS")));
    assert!(!SessionCookieStore::is_https(Some("http")));
    assert!(!SessionCookieStore::is_https(None));
    assert_eq!(SessionCookieStore::cookie_name(false), "session");
    assert_eq!(SessionCookieStore::cookie_name(true), "__Host-session");
    assert_eq!(SessionCookieStore::pick_cookie(Some("a"), Some("b")), Some("a"));
    assert_eq!(SessionCookieStore::pick_cookie(None, Some("b")), Some("b"));
    assert_eq!(SessionCookieStore::pick_cookie(Some("a"), None), Some("a"));
    assert_eq!(SessionCookieStore::pick_cookie(None, None), None);
    assert!(eq_ignore_ascii_case_exec("HtTpS", "https"));
    assert!(!eq_ignore_ascii_case_exec("http", "https"));
}

#[test]
fn admin_guard_decisions() {
    assert_eq!(AdminGuard::path(), "/{locale}/admin");
    match AdminGuard::decide(false, false, "en", "/en/admin/users?page=2") {
        AdminDecision::SignIn(l) => assert_eq!(l, "/en/sign-in?next=/en/admin/users?page=2"),
        _ => panic!("visitors are sent to sign in"),
    }
    assert!(matches!(AdminGuard::decide(true, false, "en", "/en/admin"), AdminDecision::NotFound));
    assert!(matches!(AdminGuard::decide(true, true, "en", "/en/admin"), AdminDecision::Pass));
    assert_eq!(AdminGuard::decide(false, false, "en", "/en/admin").status(), Some(302));
    assert_eq!(AdminGuard::decide(true, false, "en", "/en/admin").status(), Some(404));
    assert_eq!(AdminGuard::decide(true, true, "en", "/en/admin").status(), None);
}

#[test]
fn locale_redirect_keeps_the_query() {
    assert_eq!(LocaleRedirect::redirect_location(true, "/EN/products", Some("page=2")), Some("/en/products?page=2".to_string()));
    assert_eq!(LocaleRedirect::redirect_location(true, "/EN/products", Some("")), Some("/en/products".to_string()));
    assert_eq!(LocaleRedirect::redirect_location(false, "/EN/products", None), None);
    assert_eq!(LocaleRedirect::redirect_location(true, "/en/products", None), None);
}

#[test]
fn markdown_renders_html() {
    assert_eq!(render_md("# Hi"), "<h1>Hi</h1>\n");
    assert_eq!(render_md("a | b\n--|--\n1 | 2").contains("<table>"), true);
    assert!(render_md("- [x] done").contains("checkbox"));
    assert_eq!(render_md("~~kept~~"), "<p>~~kept~~</p>\n");
}

#[test]
fn mail_links() {
    assert_eq!(
        mail_body(MailKind::Activation, "Click:", Some("https"), "example.org", "zh", "abc"),
        "Click:\nhttps://example.org/zh/users/activate?token=abc"
    );
    assert_eq!(
        mail_body(MailKind::PasswordReset, "Reset:", None, "localhost", "en", "t"),
        "Reset:\nhttp://localhost/en/users/reset-password?token=t"
    );
    assert_eq!(MailKind::Activation.subject_key(), "email_activation_subject");
    assert_eq!(MailKind::PasswordReset.subject_key(), "email_reset_subject");
    assert_eq!(MailKind::Activation.body_key(), "email_activation_body");
    assert_eq!(MailKind::PasswordReset.body_key(), "email_reset_body");
}

#[test]
fn safe_next_refuses_slash_backslash() {
    assert_eq!(raolv::common::form::safe_next("/\\evil.com/x"), None);
    assert_eq!(raolv::common::form::safe_next("/a\\b"), Some("/a\\b".to_string()));
}

#[test]
fn quality_values_read_as_numbers() {
    let q = |s: &str| parse_q(&s.chars().collect::<Vec<char>>());
    assert_eq!(q("1"), Some(1_000_000_000_000_000_000));
    assert_eq!(q("0.5"), Some(500_000_000_000_000_000));
    assert_eq!(q(".5"), Some(500_000_000_000_000_000));
    assert_eq!(q("5."), None);
    assert_eq!(q("1e-1"), Some(100_000_000_000_000_000));
    assert_eq!(q("5E-1"), Some(500_000_000_000_000_000));
    assert_eq!(q("10e-1"), Some(1_000_000_000_000_000_000));
    assert_eq!(q("0.01e2"), Some(1_000_000_000_000_000_000));
    assert_eq!(q("2e0"), None);
    assert_eq!(q("1e"), None);
    assert_eq!(q("e1"), None);
    assert_eq!(q("-0"), Some(0));
    assert_eq!(q("-0.1"), None);
    assert_eq!(q("0e99999999999999999999999999"), Some(0));
    assert_eq!(q("1e-99999999999999999999999999"), Some(1));
    assert_eq!(q("1e99999999999999999999999999"), None);
    assert_eq!(q("inf"), None);
    assert_eq!(q("NaN"), None);
    assert_eq!(negotiate_language("en;q=1e-1, zh;q=0.05"), Some("en".to_string()));
    assert_eq!(negotiate_language("zh;q=1e-30"), Some("zh".to_string()));
    assert_eq!(negotiate_language("zh;q=0e3"), None);
}

#[test]
fn negotiation_ignores_range_order() {
    let orders = [
        ("en;q=0.5,zh;q=0.8,*;q=0.1", "*;q=0.1,zh;q=0.8,en;q=0.5"),
        ("fr,en-US;q=0.9,en;q=0.5", "en;q=0.5,fr,en-US;q=0.9"),
        ("zh;q=1,en;q=1", "en;q=1,zh;q=1"),
        ("*;q=0,fr", "fr,*;q=0"),
    ];
    for (a, b) in orders {
        assert_eq!(negotiate_language(a), negotiate_language(b));
    }
    assert_eq!(negotiate_language("en;q=0.5,zh;q=0.8,*;q=0.1"), Some("zh".to_string()));
    assert_eq!(negotiate_language("zh;q=1,en;q=1"), Some("en".to_string()));
}

#[test]
fn csrf_token_is_stable_across_calls() {
    let first = plan_csrf_token(None, false);
    let token = first.token().to_string();
    match plan_csrf_token(Some(token.clone()), true) {
        CsrfPlan::Reuse(t) => assert_eq!(t, token),
        _ => panic!("a stored token is reused"),
    }
    let again = plan_csrf_token(Some(token.clone()), true);
    assert_eq!(again.token(), first.token());
}
