//! The site-wide locale path layer: requests whose first path segment is a
//! non-canonical or unserved locale are sent to the canonical path.
use vstd::prelude::*;
use vstd::string::*;
use crate::i18n::loader::{normalize_locale_path, normalized_path};

verus! {

/// The layer that redirects non-canonical locale paths (GET and HEAD only;
/// form posts and webhooks pass untouched).
pub struct LocaleRedirect;

/// Where a request is redirected: the normalised path, with the query
/// string appended when there is a nonempty one; nothing for other methods
/// or for paths that need no rewrite.
pub open spec fn redirect_target(get_or_head: bool, path: Seq<char>, query: Option<Seq<char>>) -> Option<Seq<char>> {
    if !get_or_head {
        None
    } else {
        match normalized_path(path) {
            Some(p) => match query {
                Some(q) if q.len() > 0 => Some(p + seq!['?'] + q),
                _ => Some(p),
            },
            None => None,
        }
    }
}

impl LocaleRedirect {
    /// The redirect location for a request, if it needs one (see `redirect_target`).
    pub fn redirect_location(get_or_head: bool, path: &str, query: Option<&str>) -> (r: Option<String>)
        ensures
            crate::common::session::opt_view(r) == redirect_target(
                get_or_head,
                path@,
                crate::common::media::opt_view(query),
            ),
    {
        if !get_or_head {
            return None;
        }
        match normalize_locale_path(path) {
            Some(mut p) => match query {
                Some(q) => {
                    if q.unicode_len() > 0 {
                        crate::text::push_char(&mut p, '?');
                        p.append(q);
                    }
                    Some(p)
                },
                None => Some(p),
            },
            None => None,
        }
    }
}

/// A GET or HEAD request is redirected exactly when its path normalises,
/// to the normalised path, followed by `?` and the query when the query is
/// nonempty; other methods are never redirected.
pub proof fn lemma_redirect_exactly_when_normalised(get_or_head: bool, path: Seq<char>, query: Option<Seq<char>>)
    ensures
        !get_or_head ==> redirect_target(get_or_head, path, query) is None,
        get_or_head ==> (redirect_target(get_or_head, path, query) is Some <==> normalized_path(path) is Some),
        (get_or_head && (query is None || query == Some(Seq::<char>::empty())))
            ==> redirect_target(get_or_head, path, query) == normalized_path(path),
        (get_or_head && normalized_path(path) is Some && (query matches Some(q) && q.len() > 0))
            ==> redirect_target(get_or_head, path, query) == Some(normalized_path(path)->0 + seq!['?'] + query->0),
{
}

} // verus!
