//! The administrator guard on `/{locale}/admin`.
use vstd::prelude::*;
use vstd::string::*;

verus! {

/// The layer that admits only administrators to `/{locale}/admin` and below.
pub struct AdminGuard;

/// What the guard does with a request.
pub enum AdminDecision {
    /// Not signed in: redirect (302) to this sign-in location, which carries
    /// the requested page as `next`.
    SignIn(String),
    /// Signed in but not an administrator: answer 404, so the admin area's
    /// existence is not revealed.
    NotFound,
    /// An administrator: let the request through.
    Pass,
}

impl AdminDecision {
    /// The status the guard answers with itself: 302 for the sign-in
    /// redirect, 404 for a signed-in user who is no administrator, none when
    /// the request goes through.
    pub fn status(&self) -> (r: Option<u16>)
        ensures
            r == match self {
                AdminDecision::SignIn(_) => Some(302u16),
                AdminDecision::NotFound => Some(404u16),
                AdminDecision::Pass => None::<u16>,
            },
    {
        match self {
            AdminDecision::SignIn(_) => Some(302),
            AdminDecision::NotFound => Some(404),
            AdminDecision::Pass => None,
        }
    }
}

/// The sign-in location that returns to `path_and_query` afterwards.
pub open spec fn sign_in_location(locale: Seq<char>, path_and_query: Seq<char>) -> Seq<char> {
    seq!['/'] + locale + "/sign-in?next="@ + path_and_query
}

impl AdminGuard {
    /// The path the guard covers.
    pub fn path() -> (r: &'static str)
        ensures
            r@ == "/{locale}/admin"@,
    {
        "/{locale}/admin"
    }

    /// Decides a request: sign in first, then administrators only.
    pub fn decide(signed_in: bool, is_admin: bool, locale: &str, path_and_query: &str) -> (r: AdminDecision)
        ensures
            !signed_in ==> (r matches AdminDecision::SignIn(l) && l@ == sign_in_location(
                locale@,
                path_and_query@,
            )),
            signed_in && !is_admin ==> r is NotFound,
            signed_in && is_admin ==> r is Pass,
    {
        if !signed_in {
            let mut l = String::new();
            crate::text::push_char(&mut l, '/');
            l.append(locale);
            l.append("/sign-in?next=");
            l.append(path_and_query);
            assert(l@ =~= sign_in_location(locale@, path_and_query@));
            return AdminDecision::SignIn(l);
        }
        if !is_admin {
            return AdminDecision::NotFound;
        }
        AdminDecision::Pass
    }
}

} // verus!
