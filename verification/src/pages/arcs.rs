//! Content listings, the item page and deleting an item.
use vstd::prelude::*;
use vstd::string::*;
use crate::models::arc::{Arc, ArcType};
use crate::pages::{rejects_with, redirects_to, Reply};
use crate::text::{cat2, cat3, chars_of, str_eq, string_of, trim, trim_chars};

verus! {

/// The listing's query: the page and the search text.
pub struct ArcQuery {
    pub page: Option<u64>,
    pub q: Option<String>,
}

/// The kind filter named by a listing path segment: the segment itself for
/// `video`, `article` and `photo`, else no filter (empty).
pub open spec fn listing_type(raw: Seq<char>) -> Seq<char> {
    if raw == "video"@ || raw == "article"@ || raw == "photo"@ {
        raw
    } else {
        ""@
    }
}

/// The kind filter of `/{locale}/arcs/{type}`.
pub fn type_key_of(raw: &str) -> (r: String)
    ensures
        r@ == listing_type(raw@),
{
    proof {
        reveal_strlit("video");
        reveal_strlit("article");
        reveal_strlit("photo");
        reveal_strlit("");
    }
    if str_eq(raw, "video") || str_eq(raw, "article") || str_eq(raw, "photo") {
        raw.to_owned()
    } else {
        String::new()
    }
}

/// The translation key of a listing's heading.
pub fn listing_title_key(type_key: &str) -> (r: &'static str)
    ensures
        type_key@ == "video"@ ==> r@ == "post_type_video"@,
        type_key@ == "article"@ ==> r@ == "post_type_article"@,
        type_key@ == "photo"@ ==> r@ == "post_type_photo"@,
        type_key@ != "video"@ && type_key@ != "article"@ && type_key@ != "photo"@ ==> r@ == "nav_article"@,
{
    proof {
        reveal_strlit("video");
        reveal_strlit("article");
        reveal_strlit("photo");
        reveal_strlit("");
    }
    assert("article"@.len() != "video"@.len() && "photo"@[0] != "video"@[0]);
    if str_eq(type_key, "video") {
        "post_type_video"
    } else if str_eq(type_key, "article") {
        "post_type_article"
    } else if str_eq(type_key, "photo") {
        "post_type_photo"
    } else {
        "nav_article"
    }
}

/// The translation key of an item's kind badge.
pub fn kind_key(t: ArcType) -> (r: &'static str)
    ensures
        r@ == match t {
            ArcType::Video => "post_type_video"@,
            ArcType::Photo => "post_type_photo"@,
            ArcType::Article => "post_type_article"@,
        },
{
    match t {
        ArcType::Video => "post_type_video",
        ArcType::Photo => "post_type_photo",
        ArcType::Article => "post_type_article",
    }
}

/// The search filter of a listing: the trimmed search text, none when it is
/// blank.
pub open spec fn search_filter(query: Seq<char>) -> Option<Seq<char>> {
    if trim(query).len() == 0 { None } else { Some(trim(query)) }
}

/// The search filter of a listing.
pub fn search_term(query: &str) -> (r: Option<String>)
    ensures
        crate::common::session::opt_view(r) == search_filter(query@),
{
    let t = trim_chars(chars_of(query).as_slice());
    if t.len() == 0 {
        None
    } else {
        Some(string_of(t.as_slice()))
    }
}

/// The address the pager of a listing builds on.
pub open spec fn listing_url(locale: Seq<char>, kind: Option<Seq<char>>, search: Option<Seq<char>>) -> Seq<char> {
    let base = match kind {
        Some(t) => "/"@ + locale + "/arcs/"@ + t,
        None => "/"@ + locale + "/arcs"@,
    };
    match search {
        Some(q) => base + "?q="@ + q,
        None => base,
    }
}

/// The address the pager of a listing builds on: the listing's path, with
/// the search text when there is one.
pub fn listing_base_url(locale: &str, kind: Option<&str>, search: Option<&str>) -> (r: String)
    ensures
        r@ == listing_url(
            locale@,
            crate::common::media::opt_view(kind),
            crate::common::media::opt_view(search),
        ),
{
    let mut base = match kind {
        Some(t) => cat3("/", locale, "/arcs/"),
        None => cat3("/", locale, "/arcs"),
    };
    match kind {
        Some(t) => base.append(t),
        None => {},
    }
    match search {
        Some(q) => {
            base.append("?q=");
            base.append(q);
        },
        None => {},
    }
    base
}

/// Who may delete an item: its author, or an administrator.
pub open spec fn may_delete(author: Option<Seq<char>>, user: Option<Seq<char>>, is_admin: bool) -> bool {
    (author is Some && user is Some && author == user) || is_admin
}

/// Whether the visitor may delete the item (and sees its delete button).
pub fn can_delete(author: Option<&str>, user: Option<&str>, is_admin: bool) -> (r: bool)
    ensures
        r == may_delete(
            crate::common::media::opt_view(author),
            crate::common::media::opt_view(user),
            is_admin,
        ),
{
    let own = match (author, user) {
        (Some(a), Some(u)) => str_eq(a, u),
        _ => false,
    };
    own || is_admin
}

/// What the delete handler learnt from its last step.
pub enum DeleteEvent {
    /// The form has just arrived.
    Start,
    /// Whether the CSRF token matched.
    CsrfChecked(bool),
    /// The signed-in user's name, if any.
    CurrentUser(Option<String>),
    /// The item named in the form (`None` also when the lookup failed).
    ArcFound(Option<Arc>),
    /// The item's author, the signed-in user and whether that user is an
    /// administrator.
    AdminChecked(Option<String>, String, bool),
    /// Whether the item was deleted, with the error text if not.
    Deleted(Result<(), String>),
}

/// The next step of the delete handler.
pub enum DeleteStep {
    CheckCsrf,
    FindCurrentUser,
    /// Load the item named in the form.
    FindArc,
    /// Find whether the signed-in user is an administrator.
    CheckAdmin,
    /// Delete the item (and media no other item uses).
    Delete,
    /// Answer the request.
    Reply(Reply),
}

/// The delete decisions: CSRF, signed in, the item exists, the user is its
/// author or an administrator, the deletion succeeds.
pub open spec fn delete_next(locale: Seq<char>, event: DeleteEvent, step: DeleteStep) -> bool {
    let home = "/"@ + locale;
    match event {
        DeleteEvent::Start => step == DeleteStep::CheckCsrf,
        DeleteEvent::CsrfChecked(ok) => if ok {
            step == DeleteStep::FindCurrentUser
        } else {
            step matches DeleteStep::Reply(Reply::Forbidden)
        },
        DeleteEvent::CurrentUser(None) => step matches DeleteStep::Reply(Reply::Forbidden),
        DeleteEvent::CurrentUser(Some(_)) => step == DeleteStep::FindArc,
        DeleteEvent::ArcFound(None) => step matches DeleteStep::Reply(rep) && redirects_to(rep, home),
        DeleteEvent::ArcFound(Some(_)) => step == DeleteStep::CheckAdmin,
        DeleteEvent::AdminChecked(author, user, is_admin) => if may_delete(
            crate::common::session::opt_view(author),
            Some(user@),
            is_admin,
        ) {
            step == DeleteStep::Delete
        } else {
            step matches DeleteStep::Reply(Reply::Forbidden)
        },
        DeleteEvent::Deleted(Err(e)) => step matches DeleteStep::Reply(rep) && rejects_with(rep, e@),
        DeleteEvent::Deleted(Ok(())) => step matches DeleteStep::Reply(rep) && redirects_to(rep, home),
    }
}

/// The next step of the delete handler after `event`.
pub fn delete_step(locale: &str, event: DeleteEvent) -> (r: DeleteStep)
    ensures
        delete_next(locale@, event, r),
{
    match event {
        DeleteEvent::Start => DeleteStep::CheckCsrf,
        DeleteEvent::CsrfChecked(ok) => if ok {
            DeleteStep::FindCurrentUser
        } else {
            DeleteStep::Reply(Reply::Forbidden)
        },
        DeleteEvent::CurrentUser(None) => DeleteStep::Reply(Reply::Forbidden),
        DeleteEvent::CurrentUser(Some(_)) => DeleteStep::FindArc,
        DeleteEvent::ArcFound(None) => DeleteStep::Reply(Reply::Redirect(cat2("/", locale))),
        DeleteEvent::ArcFound(Some(_)) => DeleteStep::CheckAdmin,
        DeleteEvent::AdminChecked(author, user, is_admin) => {
            let a = match &author {
                Some(s) => Some(s.as_str()),
                None => None,
            };
            if can_delete(a, Some(user.as_str()), is_admin) {
                DeleteStep::Delete
            } else {
                DeleteStep::Reply(Reply::Forbidden)
            }
        },
        DeleteEvent::Deleted(Err(e)) => DeleteStep::Reply(Reply::BadRequest(e)),
        DeleteEvent::Deleted(Ok(())) => DeleteStep::Reply(Reply::Redirect(cat2("/", locale))),
    }
}

/// An item is only deleted at the request of its author or of an
/// administrator.
pub proof fn lemma_delete_only_by_author_or_admin(locale: Seq<char>, event: DeleteEvent, step: DeleteStep)
    requires
        delete_next(locale, event, step),
        step == DeleteStep::Delete,
    ensures
        event matches DeleteEvent::AdminChecked(author, user, is_admin)
            && ((author matches Some(a) && a@ == user@) || is_admin),
{
}

} // verus!
