//! The site's form actions and page decisions.
//!
//! Every form action is a small state machine: given the submitted form and
//! the latest event (the outcome of the previous outside step), it names the
//! next step to perform or the reply to send. The request handlers perform
//! the steps (session checks, database work, mail) and feed the outcomes back.
use vstd::prelude::*;
use vstd::string::*;
use crate::text::{chars_of, split, split_chars, string_of, trim, trim_chars, views};

pub mod account;
pub mod admin_users;
pub mod arcs;
pub mod forgot_password;
pub mod register;
pub mod sign_in;
pub mod upload;
pub mod users;

verus! {

/// The answer to a form submission.
pub enum Reply {
    /// 403: the CSRF token did not match, or the caller may not do this.
    Forbidden,
    /// 400 with a message.
    BadRequest(String),
    /// A redirect to a site path.
    Redirect(String),
}

/// `reply` is a redirect to `url`.
pub open spec fn redirects_to(reply: Reply, url: Seq<char>) -> bool {
    reply matches Reply::Redirect(u) && u@ == url
}

/// `reply` is a 400 carrying `msg`.
pub open spec fn rejects_with(reply: Reply, msg: Seq<char>) -> bool {
    reply matches Reply::BadRequest(m) && m@ == msg
}

/// The page number a listing shows: the requested one, at least 1, and 1
/// when none was given.
pub open spec fn requested_page(page: Option<u64>) -> u64 {
    match page {
        Some(p) => if p >= 1 { p } else { 1 },
        None => 1,
    }
}

/// The page number of a listing query (`page.unwrap_or(1).max(1)`).
pub fn page_or_first(page: Option<u64>) -> (r: u64)
    ensures
        r == requested_page(page),
        r >= 1,
{
    match page {
        Some(p) => if p >= 1 { p } else { 1 },
        None => 1,
    }
}

/// The topics of a comma-separated list: each piece trimmed, empty pieces
/// left out, in order.
pub open spec fn topics_of(pieces: Seq<Seq<char>>) -> Seq<Seq<char>>
    decreases pieces.len(),
{
    if pieces.len() == 0 {
        Seq::empty()
    } else {
        let rest = topics_of(pieces.drop_last());
        let t = trim(pieces.last());
        if t.len() == 0 { rest } else { rest.push(t) }
    }
}

/// The views of a sequence of strings.
pub open spec fn string_views(v: Seq<String>) -> Seq<Seq<char>> {
    Seq::new(v.len(), |i: int| v[i]@)
}

/// Splits a comma-separated topic list into its trimmed, non-empty topics.
pub fn topic_list(topics: &str) -> (r: Vec<String>)
    ensures
        string_views(r@) == topics_of(split(topics@, ',')),
{
    let pieces = split_chars(&chars_of(topics), ',');
    let ghost pv = views(pieces@);
    assert(pv =~= split(topics@, ','));
    let mut out: Vec<String> = Vec::new();
    let mut i: usize = 0;
    while i < pieces.len()
        invariant
            i <= pieces@.len(),
            pv == views(pieces@),
            string_views(out@) == topics_of(pv.subrange(0, i as int)),
        decreases pieces.len() - i,
    {
        let t = trim_chars(pieces[i].as_slice());
        let ghost before = out@;
        assert(pv.subrange(0, i + 1).drop_last() =~= pv.subrange(0, i as int));
        assert(pv.subrange(0, i + 1).last() == pieces@[i as int]@);
        if t.len() > 0 {
            let s = string_of(t.as_slice());
            out.push(s);
            assert(string_views(out@) =~= string_views(before).push(t@));
        }
        i += 1;
    }
    assert(pv.subrange(0, pv.len() as int) =~= pv);
    out
}

} // verus!
