//! User administration: listing, banning and appointing administrators.
use vstd::prelude::*;
use vstd::string::*;
use crate::common::constant::{USER_IS_ADMIN, USER_STATUS_ACTIVE, USER_STATUS_BANNED};
use crate::models::user::User;
use crate::pages::{redirects_to, Reply};
use crate::text::{cat3, cat4, str_eq};

verus! {

/// The user list's query.
pub struct AdminUsersQuery {
    pub page: Option<u64>,
}

/// The form that bans or unbans a user.
pub struct BanForm {
    /// `banned` or `active`.
    pub to: String,
    pub csrf_token: String,
}

/// The form that grants or withdraws administrator rights.
pub struct RoleForm {
    /// `admin` or `user`.
    pub role: String,
    pub csrf_token: String,
}

/// `/{locale}/admin/users{suffix}`.
pub open spec fn users_page(locale: Seq<char>, suffix: Seq<char>) -> Seq<char> {
    "/"@ + locale + "/admin/users"@ + suffix
}

/// The status a ban form asks for.
pub open spec fn status_for(to: Seq<char>) -> Option<u8> {
    if to == "banned"@ {
        Some(USER_STATUS_BANNED)
    } else if to == "active"@ {
        Some(USER_STATUS_ACTIVE)
    } else {
        None
    }
}

/// The status a ban form asks for (`banned` or `active`).
pub fn requested_status(to: &str) -> (r: Option<u8>)
    ensures
        r == status_for(to@),
{
    if str_eq(to, "banned") {
        Some(USER_STATUS_BANNED)
    } else if str_eq(to, "active") {
        Some(USER_STATUS_ACTIVE)
    } else {
        None
    }
}

/// What the ban handler learnt from its last step.
pub enum StatusEvent {
    /// The form has just arrived.
    Start,
    /// Whether the CSRF token matched.
    CsrfChecked(bool),
    /// The user named in the path (`None` also when the lookup failed).
    UserFound(Option<User>),
    /// Whether the new status was stored.
    StatusSet(bool),
    /// Every session of the banned user has been ended.
    SessionsEnded,
}

/// The next step of the ban handler.
pub enum StatusStep {
    CheckCsrf,
    /// Load the user named in the path.
    FindUser,
    /// Store this status for the user.
    SetStatus(u8),
    /// End every session of the user.
    EndSessions,
    /// Answer the request.
    Reply(Reply),
}

/// The ban decisions: CSRF, a known target status, the user exists and is
/// no administrator, the status is stored, and a banned user's sessions end.
pub open spec fn status_next(locale: Seq<char>, form: BanForm, event: StatusEvent, step: StatusStep) -> bool {
    let back = users_page(locale, ""@);
    match event {
        StatusEvent::Start => step == StatusStep::CheckCsrf,
        StatusEvent::CsrfChecked(ok) => if !ok {
            step matches StatusStep::Reply(Reply::Forbidden)
        } else if status_for(form.to@) is None {
            step matches StatusStep::Reply(rep) && redirects_to(rep, back)
        } else {
            step == StatusStep::FindUser
        },
        StatusEvent::UserFound(found) => match (found, status_for(form.to@)) {
            (Some(user), Some(s)) => if user.is_admin == USER_IS_ADMIN {
                step matches StatusStep::Reply(rep) && redirects_to(rep, back)
            } else {
                step == StatusStep::SetStatus(s)
            },
            _ => step matches StatusStep::Reply(rep) && redirects_to(rep, back),
        },
        StatusEvent::StatusSet(ok) => if !ok {
            step matches StatusStep::Reply(rep) && redirects_to(rep, back)
        } else if status_for(form.to@) == Some(USER_STATUS_BANNED) {
            step == StatusStep::EndSessions
        } else {
            step matches StatusStep::Reply(rep) && redirects_to(rep, users_page(locale, "?ok=updated"@))
        },
        StatusEvent::SessionsEnded => step matches StatusStep::Reply(rep) && redirects_to(
            rep,
            users_page(locale, "?ok=updated"@),
        ),
    }
}

/// The next step of the ban handler after `event`.
pub fn status_step(locale: &str, form: &BanForm, event: StatusEvent) -> (r: StatusStep)
    ensures
        status_next(locale@, *form, event, r),
{
    proof {
        reveal_strlit("");
    }
    let target = requested_status(form.to.as_str());
    match event {
        StatusEvent::Start => StatusStep::CheckCsrf,
        StatusEvent::CsrfChecked(ok) => if !ok {
            StatusStep::Reply(Reply::Forbidden)
        } else if target.is_none() {
            StatusStep::Reply(Reply::Redirect(cat3("/", locale, "/admin/users")))
        } else {
            StatusStep::FindUser
        },
        StatusEvent::UserFound(found) => match (found, target) {
            (Some(user), Some(s)) => if user.is_admin == USER_IS_ADMIN {
                StatusStep::Reply(Reply::Redirect(cat3("/", locale, "/admin/users")))
            } else {
                StatusStep::SetStatus(s)
            },
            _ => StatusStep::Reply(Reply::Redirect(cat3("/", locale, "/admin/users"))),
        },
        StatusEvent::StatusSet(ok) => if !ok {
            StatusStep::Reply(Reply::Redirect(cat3("/", locale, "/admin/users")))
        } else if target == Some(USER_STATUS_BANNED) {
            StatusStep::EndSessions
        } else {
            StatusStep::Reply(Reply::Redirect(cat4("/", locale, "/admin/users", "?ok=updated")))
        },
        StatusEvent::SessionsEnded => StatusStep::Reply(Reply::Redirect(cat4("/", locale, "/admin/users", "?ok=updated"))),
    }
}

/// An administrator's status is never changed: whenever the ban handler
/// stores a status, the user it loaded is no administrator, and the status
/// is the one the form asked for.
pub proof fn lemma_admins_never_banned(locale: Seq<char>, form: BanForm, event: StatusEvent, step: StatusStep)
    requires
        status_next(locale, form, event, step),
        step is SetStatus,
    ensures
        event matches StatusEvent::UserFound(Some(user)) && user.is_admin != USER_IS_ADMIN,
        step matches StatusStep::SetStatus(s) && status_for(form.to@) == Some(s),
{
}

/// The administrator flag a role form asks for.
pub open spec fn flag_for(role: Seq<char>) -> Option<u8> {
    if role == "admin"@ {
        Some(USER_IS_ADMIN)
    } else if role == "user"@ {
        Some(0u8)
    } else {
        None
    }
}

/// The administrator flag a role form asks for (`admin` or `user`).
pub fn requested_flag(role: &str) -> (r: Option<u8>)
    ensures
        r == flag_for(role@),
{
    if str_eq(role, "admin") {
        Some(USER_IS_ADMIN)
    } else if str_eq(role, "user") {
        Some(0u8)
    } else {
        None
    }
}

/// What the role handler learnt from its last step.
pub enum RoleEvent {
    /// The form has just arrived.
    Start,
    /// Whether the CSRF token matched.
    CsrfChecked(bool),
    /// The user named in the path (`None` also when the lookup failed).
    UserFound(Option<User>),
    /// The signed-in administrator's name, and the target's username.
    CurrentUser(Option<String>, String),
    /// Whether the flag was stored.
    FlagSet(bool),
}

/// The next step of the role handler.
pub enum RoleStep {
    CheckCsrf,
    /// Load the user named in the path.
    FindUser,
    /// Find the signed-in administrator's name (to refuse demoting oneself).
    FindCurrentUser,
    /// Store this administrator flag for the user.
    SetFlag(u8),
    /// Answer the request.
    Reply(Reply),
}

/// The role decisions: CSRF, a known role, the user exists, nobody removes
/// their own administrator rights, the flag is stored.
pub open spec fn role_next(locale: Seq<char>, form: RoleForm, event: RoleEvent, step: RoleStep) -> bool {
    let back = users_page(locale, ""@);
    match event {
        RoleEvent::Start => step == RoleStep::CheckCsrf,
        RoleEvent::CsrfChecked(ok) => if !ok {
            step matches RoleStep::Reply(Reply::Forbidden)
        } else if flag_for(form.role@) is None {
            step matches RoleStep::Reply(rep) && redirects_to(rep, back)
        } else {
            step == RoleStep::FindUser
        },
        RoleEvent::UserFound(found) => match (found, flag_for(form.role@)) {
            (Some(_), Some(f)) => if f == 0 {
                step == RoleStep::FindCurrentUser
            } else {
                step == RoleStep::SetFlag(f)
            },
            _ => step matches RoleStep::Reply(rep) && redirects_to(rep, back),
        },
        RoleEvent::CurrentUser(current, target) => match flag_for(form.role@) {
            Some(f) => if current matches Some(c) && c@ == target@ {
                step matches RoleStep::Reply(rep) && redirects_to(rep, back)
            } else {
                step == RoleStep::SetFlag(f)
            },
            None => step matches RoleStep::Reply(rep) && redirects_to(rep, back),
        },
        RoleEvent::FlagSet(ok) => step matches RoleStep::Reply(rep) && redirects_to(
            rep,
            if ok { users_page(locale, "?ok=role"@) } else { back },
        ),
    }
}

/// The next step of the role handler after `event`.
pub fn role_step(locale: &str, form: &RoleForm, event: RoleEvent) -> (r: RoleStep)
    ensures
        role_next(locale@, *form, event, r),
{
    proof {
        reveal_strlit("");
    }
    let flag = requested_flag(form.role.as_str());
    match event {
        RoleEvent::Start => RoleStep::CheckCsrf,
        RoleEvent::CsrfChecked(ok) => if !ok {
            RoleStep::Reply(Reply::Forbidden)
        } else if flag.is_none() {
            RoleStep::Reply(Reply::Redirect(cat3("/", locale, "/admin/users")))
        } else {
            RoleStep::FindUser
        },
        RoleEvent::UserFound(found) => match (found, flag) {
            (Some(_), Some(f)) => if f == 0 {
                RoleStep::FindCurrentUser
            } else {
                RoleStep::SetFlag(f)
            },
            _ => RoleStep::Reply(Reply::Redirect(cat3("/", locale, "/admin/users"))),
        },
        RoleEvent::CurrentUser(current, target) => match flag {
            Some(f) => {
                let is_self = match &current {
                    Some(c) => *c == target,
                    None => false,
                };
                if is_self {
                    RoleStep::Reply(Reply::Redirect(cat3("/", locale, "/admin/users")))
                } else {
                    RoleStep::SetFlag(f)
                }
            },
            None => RoleStep::Reply(Reply::Redirect(cat3("/", locale, "/admin/users"))),
        },
        RoleEvent::FlagSet(ok) => if ok {
            RoleStep::Reply(Reply::Redirect(cat4("/", locale, "/admin/users", "?ok=role")))
        } else {
            RoleStep::Reply(Reply::Redirect(cat3("/", locale, "/admin/users")))
        },
    }
}

/// Nobody withdraws their own administrator rights: the role handler only
/// stores a cleared flag after learning who is signed in, and only when that
/// is someone other than the target.
pub proof fn lemma_no_self_demotion(locale: Seq<char>, form: RoleForm, event: RoleEvent, step: RoleStep)
    requires
        role_next(locale, form, event, step),
        step == RoleStep::SetFlag(0u8),
    ensures
        event matches RoleEvent::CurrentUser(current, target) && !(current matches Some(c) && c@ == target@),
{
}

/// The translation key of an account status in the user list.
pub fn status_key(status: u8) -> (r: &'static str)
    ensures
        status == USER_STATUS_ACTIVE ==> r@ == "user_status_active"@,
        status == USER_STATUS_BANNED ==> r@ == "user_status_banned"@,
        status != USER_STATUS_ACTIVE && status != USER_STATUS_BANNED ==> r@ == "user_status_pending"@,
{
    if status == USER_STATUS_ACTIVE {
        "user_status_active"
    } else if status == USER_STATUS_BANNED {
        "user_status_banned"
    } else {
        "user_status_pending"
    }
}

/// The ban button of a user row: its label's translation key and the
/// status it submits (a banned user gets an unban button).
pub fn ban_toggle(status: u8) -> (r: (&'static str, &'static str))
    ensures
        status == USER_STATUS_BANNED ==> r.0@ == "admin_user_unban"@ && r.1@ == "active"@,
        status != USER_STATUS_BANNED ==> r.0@ == "admin_user_ban"@ && r.1@ == "banned"@,
{
    if status == USER_STATUS_BANNED {
        ("admin_user_unban", "active")
    } else {
        ("admin_user_ban", "banned")
    }
}

/// The notice shown after an action (`?ok=..`): the translation key paired
/// with the first matching code.
pub open spec fn notice_for(ok: Seq<char>, keys: Seq<(&str, &str)>) -> Option<Seq<char>>
    decreases keys.len(),
{
    if keys.len() == 0 {
        None
    } else if keys[0].0@ == ok {
        Some(keys[0].1@)
    } else {
        notice_for(ok, keys.drop_first())
    }
}

/// The translation key of the notice for an `?ok=` code, if the code is known.
pub fn notice_key<'a>(ok: Option<&str>, keys: &[(&'a str, &'a str)]) -> (r: Option<&'a str>)
    ensures
        crate::common::media::opt_view(r) == match ok {
            Some(code) => notice_for(code@, keys@),
            None => None,
        },
{
    let code = match ok {
        Some(c) => c,
        None => return None,
    };
    let mut i: usize = 0;
    assert(keys@.skip(0) =~= keys@);
    while i < keys.len()
        invariant
            i <= keys@.len(),
            ok == Some(code),
            notice_for(code@, keys@) == notice_for(code@, keys@.skip(i as int)),
        decreases keys.len() - i,
    {
        assert(keys@.skip(i as int).drop_first() =~= keys@.skip(i + 1));
        let (k, v) = keys[i];
        assert(keys@.skip(i as int)[0] == keys@[i as int]);
        if str_eq(k, code) {
            assert(keys@.skip(i as int).len() > 0);
            assert(notice_for(code@, keys@.skip(i as int)) == Some(v@));
            return Some(v);
        }
        i += 1;
    }
    None
}

} // verus!
