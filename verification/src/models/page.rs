//! Pagination.
use vstd::prelude::*;
use crate::text::{chars_of, dec, has_char, has_char_exec, push_chars, push_decimal};

verus! {

/// Where a listing stands: the page shown, the page count and item count,
/// and whether there are pages before and after it.
#[derive(Debug, Clone)]
pub struct PageInfo {
    pub current_page: u64,
    pub total_pages: u64,
    pub total_count: u64,
    pub has_previous: bool,
    pub has_next: bool,
}

/// Number of pages for `total` items, `size` to a page (one page when there are none).
pub open spec fn page_count(total: nat, size: nat) -> nat {
    if total == 0 {
        1
    } else {
        ((total + size - 1) / size as int) as nat
    }
}

/// The page shown: the requested page clamped to `1..=pages`.
pub open spec fn clamp_page(page: nat, pages: nat) -> nat {
    let p = if page < pages {
        page
    } else {
        pages
    };
    if p < 1 {
        1
    } else {
        p
    }
}

impl PageInfo {
    /// A consistent position: the current page lies in `1..=total_pages`,
    /// and there is a previous page exactly when it is not the first and a
    /// next page exactly when it is not the last.
    pub open spec fn wf(&self) -> bool {
        &&& 1 <= self.current_page <= self.total_pages
        &&& self.has_previous == (self.current_page > 1)
        &&& self.has_next == (self.current_page < self.total_pages)
    }

    /// Pagination for `total_count` items, `page_size` to a page, showing
    /// the requested `page` (clamped to the existing pages).
    pub fn new(total_count: u64, page: u64, page_size: u64) -> (r: Self)
        requires
            total_count > 0 ==> page_size > 0 && total_count + page_size - 1 <= u64::MAX,
        ensures
            r.total_count == total_count,
            r.total_pages == page_count(total_count as nat, page_size as nat),
            r.current_page == clamp_page(page as nat, r.total_pages as nat),
            r.has_previous == (r.current_page > 1),
            r.has_next == (r.current_page < r.total_pages),
            r.wf(),
    {
        let total_pages = if total_count == 0 {
            1
        } else {
            (total_count + (page_size - 1)) / page_size
        };
        assert(total_pages >= 1) by (nonlinear_arith)
            requires
                total_count == 0 ==> total_pages == 1,
                total_count > 0 ==> (page_size > 0 && total_pages == (total_count + page_size - 1)
                    / page_size as int),
        ;
        let capped = if page < total_pages {
            page
        } else {
            total_pages
        };
        let current_page = if capped < 1 {
            1
        } else {
            capped
        };
        PageInfo {
            current_page,
            total_pages,
            total_count,
            has_previous: current_page > 1,
            has_next: current_page < total_pages,
        }
    }
}

/// `base` followed by `?` when it has no query yet, else `&`.
pub open spec fn with_param_sep(base: Seq<char>) -> Seq<char> {
    if has_char(base, '?') {
        base + seq!['&']
    } else {
        base + seq!['?']
    }
}

/// The link to page `n` of a listing at `base`.
pub open spec fn page_link(base: Seq<char>, n: nat) -> Seq<char> {
    with_param_sep(base) + seq!['p', 'a', 'g', 'e', '='] + dec(n)
}

/// The previous-page and next-page links of the pagination bar: page
/// `current - 1` (at least 1) and page `current + 1`.
pub fn page_links(base_url: &str, info: &PageInfo) -> (r: (String, String))
    requires
        info.current_page < u64::MAX,
    ensures
        r.0@ == page_link(base_url@, if info.current_page > 1 {
            (info.current_page - 1) as nat
        } else {
            1nat
        }),
        r.1@ == page_link(base_url@, (info.current_page + 1) as nat),
{
    let b = chars_of(base_url);
    let sep = if has_char_exec(&b, '?') {
        '&'
    } else {
        '?'
    };
    let prev_n: u64 = if info.current_page > 1 {
        info.current_page - 1
    } else {
        1
    };
    let page_eq = ['p', 'a', 'g', 'e', '='];
    let mut prev = String::new();
    push_chars(&mut prev, &b);
    crate::text::push_char(&mut prev, sep);
    push_chars(&mut prev, &page_eq);
    push_decimal(&mut prev, prev_n);
    let mut next = String::new();
    push_chars(&mut next, &b);
    crate::text::push_char(&mut next, sep);
    push_chars(&mut next, &page_eq);
    push_decimal(&mut next, info.current_page + 1);
    assert(page_eq@ =~= seq!['p', 'a', 'g', 'e', '=']);
    assert(prev@ =~= page_link(base_url@, prev_n as nat));
    assert(next@ =~= page_link(base_url@, (info.current_page + 1) as nat));
    (prev, next)
}

} // verus!
