//! Markdown rendering.
use vstd::prelude::*;

verus! {

/// The HTML that pulldown-cmark renders for `md` with tables and task lists enabled.
pub uninterp spec fn markdown_html(md: Seq<char>) -> Seq<char>;

/// Renders Markdown to HTML.
///
/// Calls `pulldown_cmark::html::push_html` on `Parser::new_ext` with tables
/// and task lists enabled. Raw HTML passes through, so bodies can embed
/// `<video>`/`<img>` media (only authors and administrators write them).
/// The output is a function of the input alone.
#[verifier::external_body]
pub fn render_md(md: &str) -> (r: String)
    ensures
        r@ == markdown_html(md@),
{
    let mut opts = pulldown_cmark::Options::empty();
    opts.insert(pulldown_cmark::Options::ENABLE_TABLES);
    opts.insert(pulldown_cmark::Options::ENABLE_TASKLISTS);
    let mut out = String::new();
    pulldown_cmark::html::push_html(&mut out, pulldown_cmark::Parser::new_ext(md, opts));
    out
}

} // verus!
