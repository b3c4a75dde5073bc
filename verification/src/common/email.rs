//! The account mails: which texts they use and the link they carry.
use vstd::prelude::*;
use vstd::string::*;
use crate::text::{cat2, cat4, cat6};

verus! {

/// The two mails the site sends.
#[derive(Debug, Clone, Copy, PartialEq, Eq, Structural)]
pub enum MailKind {
    /// The link that activates a new account.
    Activation,
    /// The link that sets a new password.
    PasswordReset,
}

impl MailKind {
    /// The translation key of the mail's subject.
    pub fn subject_key(self) -> (r: &'static str)
        ensures
            r@ == match self {
                MailKind::Activation => "email_activation_subject"@,
                MailKind::PasswordReset => "email_reset_subject"@,
            },
    {
        match self {
            MailKind::Activation => "email_activation_subject",
            MailKind::PasswordReset => "email_reset_subject",
        }
    }

    /// The translation key of the text before the link.
    pub fn body_key(self) -> (r: &'static str)
        ensures
            r@ == match self {
                MailKind::Activation => "email_activation_body"@,
                MailKind::PasswordReset => "email_reset_body"@,
            },
    {
        match self {
            MailKind::Activation => "email_activation_body",
            MailKind::PasswordReset => "email_reset_body",
        }
    }

    /// The page the link opens, under the locale.
    pub open spec fn page(self) -> Seq<char> {
        match self {
            MailKind::Activation => "/users/activate"@,
            MailKind::PasswordReset => "/users/reset-password"@,
        }
    }
}

/// The link a mail carries: `{scheme}://{domain}/{locale}{page}?token={token}`,
/// the scheme being the request's `X-Forwarded-Proto` or `http`.
pub open spec fn mail_link(
    kind: MailKind,
    forwarded_proto: Option<Seq<char>>,
    domain: Seq<char>,
    locale: Seq<char>,
    token: Seq<char>,
) -> Seq<char> {
    let scheme = match forwarded_proto {
        Some(p) => p,
        None => "http"@,
    };
    scheme + "://"@ + domain + "/"@ + locale + kind.page() + "?token="@ + token
}

/// The text of a mail: the translated introduction, a line break and the link.
pub fn mail_body(
    kind: MailKind,
    intro: &str,
    forwarded_proto: Option<&str>,
    domain: &str,
    locale: &str,
    token: &str,
) -> (r: String)
    ensures
        r@ == intro@ + "\n"@ + mail_link(
            kind,
            crate::common::media::opt_view(forwarded_proto),
            domain@,
            locale@,
            token@,
        ),
{
    let scheme = match forwarded_proto {
        Some(p) => p,
        None => "http",
    };
    let page = match kind {
        MailKind::Activation => "/users/activate",
        MailKind::PasswordReset => "/users/reset-password",
    };
    let head = cat4(intro, "\n", scheme, "://");
    let mid = cat6(head.as_str(), domain, "/", locale, page, "?token=");
    let body = cat2(mid.as_str(), token);
    proof {
        let s = scheme@;
        assert(body@ =~= intro@ + "\n"@ + (s + "://"@ + domain@ + "/"@ + locale@ + kind.page() + "?token="@ + token@));
    }
    body
}

} // verus!
