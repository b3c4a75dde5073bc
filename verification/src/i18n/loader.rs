//! Locale handling: which locales the site serves, how a path's first
//! segment is read as a locale, path normalisation, language switch links
//! and the language menu.
//!
//! The site serves `en` (the default) and `zh`; the first path segment is
//! the single authoritative language choice.
use vstd::prelude::*;
use vstd::string::*;
pub use crate::i18n::negotiate::negotiate_language;
use crate::i18n::locale_tag::{
    canonicalize_tag, fallback_current, fallback_for, fallback_remaining, fallback_step,
    icu_canonicalize, icu_fallback_chain, icu_maximize, icu_parse, maximize_tag, parse_tag,
    LocaleTag, LocaleTagView,
};
use crate::text::{
    chars_of, drop_pieces, has_char, join, join_from, lemma_split_len, nth_piece, nth_piece_exec,
    push_chars, split, split_chars, str_eq, string_of, trim, trim_chars, views,
};

verus! {

/// The locale served when nothing else decides.
pub const DEFAULT_LOCALE: &'static str = "en";

/// The locales the site serves, in menu (dictionary) order.
pub open spec fn supported() -> Seq<Seq<char>> {
    seq![seq!['e', 'n'], seq!['z', 'h']]
}

/// The default locale's code.
pub open spec fn default_locale() -> Seq<char> {
    seq!['e', 'n']
}

/// `code` is one of the served locales.
pub open spec fn is_supported(code: Seq<char>) -> bool {
    supported().contains(code)
}

/// The served locales, in menu order.
pub fn supported_locales() -> (r: Vec<&'static str>)
    ensures
        r@.len() == supported().len(),
        forall|i: int| 0 <= i < r@.len() ==> (#[trigger] r@[i])@ == supported()[i],
{
    proof {
        reveal_strlit("en");
        reveal_strlit("zh");
        assert("en"@ =~= seq!['e', 'n']);
        assert("zh"@ =~= seq!['z', 'h']);
    }
    let mut v: Vec<&'static str> = Vec::new();
    v.push("en");
    v.push("zh");
    v
}

/// Whether `code` is one of the served locales.
pub fn is_supported_code(code: &str) -> (r: bool)
    ensures
        r == is_supported(code@),
{
    let langs = supported_locales();
    let mut i: usize = 0;
    while i < langs.len()
        invariant
            langs@.len() == supported().len(),
            forall|k: int| 0 <= k < langs@.len() ==> (#[trigger] langs@[k])@ == supported()[k],
            i <= langs@.len(),
            forall|k: int| 0 <= k < i ==> supported()[k] != code@,
        decreases langs.len() - i,
    {
        if str_eq(langs[i], code) {
            assert(supported()[i as int] == code@);
            return true;
        }
        i += 1;
    }
    assert(!supported().contains(code@)) by {
        if supported().contains(code@) {
            let k = choose|k: int| 0 <= k < supported().len() && supported()[k] == code@;
            assert(supported()[k] != code@);
        }
    }
    false
}

/// The tag read from `input`: surrounding whitespace trimmed, then parsed and
/// canonicalised; nothing for empty or malformed input.
pub open spec fn parsed_locale(input: Seq<char>) -> Option<LocaleTagView> {
    let t = trim(input);
    if t.len() == 0 {
        None
    } else {
        match icu_parse(t) {
            Some(tag) => Some(icu_canonicalize(tag)),
            None => None,
        }
    }
}

/// Parses and canonicalises a language tag; `None` for empty or malformed input.
pub fn parse_locale(input: &str) -> (r: Option<LocaleTag>)
    ensures
        match r {
            Some(t) => parsed_locale(input@) == Some(t@),
            None => parsed_locale(input@) is None,
        },
{
    let t = trim_chars(&chars_of(input));
    if t.len() == 0 {
        return None;
    }
    let s = string_of(&t);
    match parse_tag(s.as_str()) {
        Some(tag) => Some(canonicalize_tag(tag)),
        None => None,
    }
}

/// `input` names a real language rather than an ordinary path segment: it
/// parses, and its likely-subtags maximisation carries a script or a region
/// (`assets`, `webhook`, `favicon.svg` and the like do not).
pub open spec fn real_locale(input: Seq<char>) -> bool {
    match parsed_locale(input) {
        Some(tag) => icu_maximize(tag).has_script || icu_maximize(tag).has_region,
        None => false,
    }
}

/// Whether `input` names a real language (see `real_locale`).
pub fn is_real_locale(input: &str) -> (r: bool)
    ensures
        r == real_locale(input@),
{
    match parse_locale(input) {
        Some(tag) => {
            let max = maximize_tag(&tag);
            max.has_script() || max.has_region()
        },
        None => false,
    }
}

/// The first served locale met along a fallback chain: at each step the full
/// locale, then its language; the walk gives up at `und`.
pub open spec fn first_supported(chain: Seq<(Seq<char>, Seq<char>)>) -> Option<Seq<char>>
    decreases chain.len(),
{
    if chain.len() == 0 {
        None
    } else if is_supported(chain[0].0) {
        Some(chain[0].0)
    } else if is_supported(chain[0].1) {
        Some(chain[0].1)
    } else if chain[0].1 == seq!['u', 'n', 'd'] {
        None
    } else {
        first_supported(chain.drop_first())
    }
}

/// The served locale a tag resolves to along its ICU fallback chain.
pub open spec fn resolved_locale(tag: LocaleTagView) -> Option<Seq<char>> {
    first_supported(icu_fallback_chain(tag))
}

/// The view of an optional string.
pub open spec fn opt_string_view(o: Option<String>) -> Option<Seq<char>> {
    match o {
        Some(s) => Some(s@),
        None => None,
    }
}

/// Walks the ICU fallback chain (language first) for a served locale.
pub fn resolve_supported(tag: &LocaleTag) -> (r: Option<String>)
    ensures
        opt_string_view(r) == resolved_locale(tag@),
{
    let mut it = fallback_for(tag);
    loop
        invariant
            first_supported(fallback_remaining(it)) == resolved_locale(tag@),
            fallback_remaining(it).len() > 0,
            fallback_remaining(it).last().1 == seq!['u', 'n', 'd'],
        decreases fallback_remaining(it).len(),
    {
        let (full, lang) = fallback_current(&it);
        if is_supported_code(full.as_str()) {
            return Some(full);
        }
        if is_supported_code(lang.as_str()) {
            return Some(lang);
        }
        proof {
            reveal_strlit("und");
            assert("und"@ =~= seq!['u', 'n', 'd']);
        }
        if str_eq(lang.as_str(), "und") {
            return None;
        }
        let ghost before = fallback_remaining(it);
        assert(before.len() > 1) by {
            if before.len() == 1 {
                assert(before.last() == before[0]);
            }
        }
        fallback_step(&mut it);
    }
}

/// The served locale a path segment names, when it parses as a tag that
/// resolves to one.
pub open spec fn segment_locale(segment: Seq<char>) -> Option<Seq<char>> {
    match parsed_locale(segment) {
        Some(tag) => resolved_locale(tag),
        None => None,
    }
}

/// The served locale named by a path's first segment (`/zh/sign-in` gives
/// `zh`); `None` leaves the choice to cookie, negotiation and default.
pub fn path_locale(path: &str) -> (r: Option<String>)
    ensures
        opt_string_view(r) == segment_locale(nth_piece(path@, '/', 1)),
{
    let first = nth_piece_exec(&chars_of(path), '/', 1);
    let s = string_of(&first);
    match parse_locale(s.as_str()) {
        Some(tag) => resolve_supported(&tag),
        None => None,
    }
}

/// `"/" + target`, followed by `"/" + rest` when `rest` is not empty.
pub open spec fn prefixed(target: Seq<char>, rest: Seq<char>) -> Seq<char> {
    if rest.len() == 0 {
        seq!['/'] + target
    } else {
        seq!['/'] + target + seq!['/'] + rest
    }
}

/// The path without its first segment, the remaining segments joined by `/`.
pub open spec fn tail_after_first(path: Seq<char>) -> Seq<char> {
    join(drop_pieces(split(path, '/'), 2), seq!['/'])
}

/// The canonical path for `path`, when its first segment is a real language
/// tag that is not already a canonical served locale: the segment is replaced
/// by the served locale it resolves to, or by the default. Root paths,
/// ordinary segments and canonical served locales give `None`.
pub open spec fn normalized_path(path: Seq<char>) -> Option<Seq<char>> {
    let first = nth_piece(path, '/', 1);
    if first.len() == 0 || !real_locale(first) {
        None
    } else {
        let target = match segment_locale(first) {
            Some(t) => t,
            None => default_locale(),
        };
        if target == first {
            None
        } else {
            Some(prefixed(target, tail_after_first(path)))
        }
    }
}

/// `"/" + target` plus `"/" + rest` unless `rest` is empty.
fn prefixed_exec(target: &[char], rest: &[char]) -> (r: String)
    ensures
        r@ == prefixed(target@, rest@),
{
    let mut out = String::new();
    crate::text::push_char(&mut out, '/');
    push_chars(&mut out, target);
    if rest.len() > 0 {
        crate::text::push_char(&mut out, '/');
        push_chars(&mut out, rest);
    }
    out
}

/// The path's segments after the first, joined by `/`.
fn tail_after_first_exec(path: &[char]) -> (r: Vec<char>)
    ensures
        r@ == tail_after_first(path@),
{
    let parts = split_chars(path, '/');
    assert(views(parts@) =~= split(path@, '/'));
    join_from(&parts, 2, '/')
}

/// Path locale normalisation (site-wide layer): when the first segment is a
/// real language tag that is not canonical or not served, the rewritten
/// canonical path; otherwise `None`, and the request passes through.
pub fn normalize_locale_path(path: &str) -> (r: Option<String>)
    ensures
        opt_string_view(r) == normalized_path(path@),
{
    proof {
        reveal_strlit("en");
        assert("en"@ =~= default_locale());
    }
    let p = chars_of(path);
    let first = nth_piece_exec(&p, '/', 1);
    if first.len() == 0 {
        return None;
    }
    let first_s = string_of(&first);
    if !is_real_locale(first_s.as_str()) {
        return None;
    }
    let target = match parse_locale(first_s.as_str()) {
        Some(tag) => match resolve_supported(&tag) {
            Some(t) => t,
            None => DEFAULT_LOCALE.to_owned(),
        },
        None => DEFAULT_LOCALE.to_owned(),
    };
    if str_eq(target.as_str(), first_s.as_str()) {
        return None;
    }
    let rest = tail_after_first_exec(&p);
    Some(prefixed_exec(&chars_of(target.as_str()), &rest))
}

/// Position of the first occurrence of `c` in `s`.
pub open spec fn first_index(s: Seq<char>, c: char) -> Option<int>
    decreases s.len(),
{
    if s.len() == 0 {
        None
    } else if s[0] == c {
        Some(0)
    } else {
        match first_index(s.drop_first(), c) {
            Some(i) => Some(i + 1),
            None => None,
        }
    }
}

/// `s` split at its first `c` (`str::split_once`), or all of `s` and nothing.
pub open spec fn split_once_or_all(s: Seq<char>, c: char) -> (Seq<char>, Seq<char>) {
    match first_index(s, c) {
        Some(i) => (s.subrange(0, i), s.subrange(i + 1, s.len() as int)),
        None => (s, Seq::<char>::empty()),
    }
}

/// `s` split at its first `c`, or all of `s` and nothing.
pub fn split_once_or_all_exec(s: &[char], c: char) -> (r: (Vec<char>, Vec<char>))
    ensures
        (r.0@, r.1@) == split_once_or_all(s@, c),
{
    let mut i: usize = 0;
    assert(s@.skip(0) =~= s@);
    while i < s.len() && s[i] != c
        invariant
            i <= s@.len(),
            first_index(s@, c) == match first_index(s@.skip(i as int), c) {
                Some(k) => Some(k + i),
                None => None,
            },
        decreases s.len() - i,
    {
        assert(s@.skip(i as int).drop_first() =~= s@.skip(i + 1));
        i += 1;
    }
    let mut a: Vec<char> = Vec::new();
    let mut b: Vec<char> = Vec::new();
    let mut k: usize = 0;
    while k < i
        invariant
            k <= i <= s@.len(),
            a@ == s@.subrange(0, k as int),
        decreases i - k,
    {
        a.push(s[k]);
        k += 1;
        assert(a@ =~= s@.subrange(0, k as int));
    }
    if i < s.len() {
        let mut k2: usize = i + 1;
        while k2 < s.len()
            invariant
                i < k2 <= s@.len(),
                b@ == s@.subrange(i + 1, k2 as int),
            decreases s.len() - k2,
        {
            b.push(s[k2]);
            k2 += 1;
            assert(b@ =~= s@.subrange(i + 1, k2 as int));
        }
        assert(first_index(s@, c) == Some(i as int));
    } else {
        assert(s@.skip(i as int).len() == 0);
        assert(a@ =~= s@);
    }
    (a, b)
}

/// The language switch link: the path's first segment replaced by `lang`
/// when it is a language tag, otherwise `lang` inserted in front; the query
/// string kept.
pub open spec fn swapped_locale(path_and_query: Seq<char>, lang: Seq<char>) -> Seq<char> {
    let (path, query) = split_once_or_all(path_and_query, '?');
    let first = nth_piece(path, '/', 1);
    let swapped = if real_locale(first) {
        prefixed(lang, tail_after_first(path))
    } else if path == seq!['/'] {
        seq!['/'] + lang
    } else {
        seq!['/'] + lang + path
    };
    if query.len() == 0 {
        swapped
    } else {
        swapped + seq!['?'] + query
    }
}

/// Language switch link: rewrites the path's first segment to `lang`, keeping
/// the rest of the path and the query; inserts the segment when the first
/// one is not a language tag.
pub fn swap_locale(path_and_query: &str, lang: &str) -> (r: String)
    ensures
        r@ == swapped_locale(path_and_query@, lang@),
{
    let pq = chars_of(path_and_query);
    let (path, query) = split_once_or_all_exec(&pq, '?');
    let first = nth_piece_exec(&path, '/', 1);
    let first_s = string_of(&first);
    let l = chars_of(lang);
    let mut out = if is_real_locale(first_s.as_str()) {
        let rest = tail_after_first_exec(&path);
        prefixed_exec(&l, &rest)
    } else if path.len() == 1 && path[0] == '/' {
        assert(path@ =~= seq!['/']);
        let mut o = String::new();
        crate::text::push_char(&mut o, '/');
        push_chars(&mut o, &l);
        o
    } else {
        assert(path@ != seq!['/']);
        let mut o = String::new();
        crate::text::push_char(&mut o, '/');
        push_chars(&mut o, &l);
        push_chars(&mut o, &path);
        o
    };
    if query.len() > 0 {
        crate::text::push_char(&mut out, '?');
        push_chars(&mut out, &query);
    }
    out
}

/// The language menu: the current locale first (when served), then the
/// others in dictionary order.
pub open spec fn menu_order(current: Seq<char>) -> Seq<Seq<char>> {
    if is_supported(current) {
        seq![current] + supported().filter(|l: Seq<char>| l != current)
    } else {
        supported()
    }
}

/// The language menu order: current locale on top, the rest in dictionary order.
pub fn menu_langs(current: &str) -> (r: Vec<&'static str>)
    ensures
        r@.len() == menu_order(current@).len(),
        forall|i: int| 0 <= i < r@.len() ==> (#[trigger] r@[i])@ == menu_order(current@)[i],
{
    let mut langs = supported_locales();
    let ghost all = supported();
    reveal_with_fuel(Seq::filter, 3);
    if str_eq(langs[0], current) {
        let cur = langs.remove(0);
        langs.insert(0, cur);
        assert(all.filter(|l: Seq<char>| l != current@) =~= seq![all[1]]) by {
            assert(all.drop_last() =~= seq![all[0]]);
            assert(seq![all[0]].drop_last() =~= Seq::<Seq<char>>::empty());
        }
    } else if str_eq(langs[1], current) {
        let cur = langs.remove(1);
        langs.insert(0, cur);
        assert(all.filter(|l: Seq<char>| l != current@) =~= seq![all[0]]) by {
            assert(all.drop_last() =~= seq![all[0]]);
            assert(seq![all[0]].drop_last() =~= Seq::<Seq<char>>::empty());
        }
    } else {
        assert(!is_supported(current@)) by {
            if supported().contains(current@) {
                let k = choose|k: int| 0 <= k < supported().len() && supported()[k] == current@;
            }
        }
    }
    langs
}

/// The locale named by a `lang` cookie, when it parses and resolves to a
/// served one.
pub open spec fn cookie_locale(cookie: Seq<char>) -> Option<Seq<char>> {
    match parsed_locale(cookie) {
        Some(tag) => resolved_locale(tag),
        None => None,
    }
}

/// The locale of a request without one in its path: the `lang` cookie's,
/// else the one negotiated from `Accept-Language` (which is then remembered
/// in the cookie), else the default. Returns the locale and whether to
/// remember it.
pub open spec fn detected_locale(cookie: Option<Seq<char>>, accept_language: Option<Seq<char>>) -> (Seq<char>, bool) {
    let from_cookie = match cookie {
        Some(c) => cookie_locale(c),
        None => None,
    };
    let negotiated_one = match accept_language {
        Some(h) => crate::i18n::negotiate::negotiated(h),
        None => None,
    };
    match from_cookie {
        Some(l) => (l, false),
        None => match negotiated_one {
            Some(l) => (l, true),
            None => (default_locale(), false),
        },
    }
}

/// Chooses the locale of a request without one in its path (see
/// `detected_locale`).
pub fn detect(cookie: Option<&str>, accept_language: Option<&str>) -> (r: (String, bool))
    ensures
        (r.0@, r.1) == detected_locale(
            crate::common::media::opt_view(cookie),
            crate::common::media::opt_view(accept_language),
        ),
{
    match cookie {
        Some(c) => match parse_locale(c) {
            Some(tag) => match resolve_supported(&tag) {
                Some(l) => return (l, false),
                None => {},
            },
            None => {},
        },
        None => {},
    }
    match accept_language {
        Some(h) => match negotiate_language(h) {
            Some(l) => return (l, true),
            None => {},
        },
        None => {},
    }
    proof {
        reveal_strlit("en");
        assert("en"@ =~= default_locale());
    }
    (DEFAULT_LOCALE.to_owned(), false)
}

/// The locale of a request: its path's first segment when that names a
/// served locale, else the detected one (see `detect`). Returns the locale
/// and whether to remember it in the `lang` cookie.
pub fn locale_from_path(path: &str, cookie: Option<&str>, accept_language: Option<&str>) -> (r: (String, bool))
    ensures
        match segment_locale(nth_piece(path@, '/', 1)) {
            Some(l) => r.0@ == l && !r.1,
            None => (r.0@, r.1) == detected_locale(
                crate::common::media::opt_view(cookie),
                crate::common::media::opt_view(accept_language),
            ),
        },
{
    match path_locale(path) {
        Some(l) => (l, false),
        None => detect(cookie, accept_language),
    }
}

/// Whatever a fallback chain resolves to is a served locale.
pub proof fn lemma_first_supported_is_served(chain: Seq<(Seq<char>, Seq<char>)>)
    ensures
        first_supported(chain) matches Some(l) ==> is_supported(l),
    decreases chain.len(),
{
    if chain.len() > 0 {
        lemma_first_supported_is_served(chain.drop_first());
    }
}

/// A normalised path always starts with a served locale: `/` and a served
/// locale code, then nothing or `/` and the rest.
pub proof fn lemma_normalized_path_is_served(path: Seq<char>)
    ensures
        normalized_path(path) matches Some(q) ==> exists|l: Seq<char>| #![auto]
            is_supported(l) && (q == seq!['/'] + l || (q.len() > l.len() + 1 && q.subrange(0, l.len() + 2int) == seq!['/'] + l + seq!['/'])),
{
    let first = nth_piece(path, '/', 1);
    if first.len() > 0 && real_locale(first) {
        let target = match segment_locale(first) {
            Some(t) => t,
            None => default_locale(),
        };
        match parsed_locale(first) {
            Some(tag) => lemma_first_supported_is_served(icu_fallback_chain(tag)),
            None => {},
        }
        assert(is_supported(default_locale())) by {
            assert(supported()[0] == default_locale());
        }
        assert(is_supported(target));
        let rest = tail_after_first(path);
        if target != first {
            if rest.len() == 0 {
                assert(prefixed(target, rest) == seq!['/'] + target);
            } else {
                let q = prefixed(target, rest);
                assert(q.subrange(0, target.len() + 2int) =~= seq!['/'] + target + seq!['/']);
            }
        }
    }
}

/// A language switch link keeps the query string: when the link had one,
/// the new link ends with `?` and that same query.
pub proof fn lemma_swap_keeps_query(path_and_query: Seq<char>, lang: Seq<char>)
    ensures
        ({
            let query = split_once_or_all(path_and_query, '?').1;
            let link = swapped_locale(path_and_query, lang);
            query.len() > 0 ==> link.len() > query.len() && link.subrange(
                link.len() - query.len() - 1,
                link.len() as int,
            ) == seq!['?'] + query
        }),
{
    let query = split_once_or_all(path_and_query, '?').1;
    let link = swapped_locale(path_and_query, lang);
    if query.len() > 0 {
        let head = link.subrange(0, link.len() - query.len() - 1);
        assert(link.subrange(link.len() - query.len() - 1, link.len() as int) =~= seq!['?'] + query);
    }
}

/// Text with no separator splits into itself alone.
proof fn lemma_split_no_sep(a: Seq<char>, sep: char)
    requires
        !has_char(a, sep),
    ensures
        split(a, sep) == seq![a],
    decreases a.len(),
{
    if a.len() > 0 {
        let b = a.drop_last();
        assert(!has_char(b, sep)) by {
            if has_char(b, sep) {
                let i = choose|i: int| 0 <= i < b.len() && b[i] == sep;
                assert(a[i] == sep);
            }
        }
        lemma_split_no_sep(b, sep);
        assert(a.last() != sep) by {
            assert(a[a.len() - 1] == a.last());
        }
        assert(b.push(a.last()) =~= a);
        assert(seq![b].update(0, b.push(a.last())) =~= seq![a]);
    } else {
        assert(a =~= Seq::<char>::empty());
    }
}

/// Splitting at one separator: the pieces before it, then those after it.
proof fn lemma_split_at_sep(a: Seq<char>, b: Seq<char>, sep: char)
    ensures
        split(a + seq![sep] + b, sep) == split(a, sep) + split(b, sep),
    decreases b.len(),
{
    lemma_split_len(a, sep);
    let s = a + seq![sep] + b;
    if b.len() == 0 {
        assert(s.drop_last() =~= a);
        assert(split(a, sep).push(Seq::<char>::empty()) =~= split(a, sep) + split(b, sep));
    } else {
        let b1 = b.drop_last();
        lemma_split_at_sep(a, b1, sep);
        lemma_split_len(b1, sep);
        assert(s.drop_last() =~= a + seq![sep] + b1);
        let x = b.last();
        let ra = split(a, sep);
        let rb = split(b1, sep);
        let r = ra + rb;
        if x == sep {
            assert(r.push(Seq::<char>::empty()) =~= ra + rb.push(Seq::<char>::empty()));
        } else {
            assert(r.last() == rb.last());
            assert(r.update(r.len() - 1, r.last().push(x)) =~= ra + rb.update(rb.len() - 1, rb.last().push(x)));
        }
    }
}

/// Joining the pieces of a split with the separator gives the text back.
proof fn lemma_join_split(s: Seq<char>, sep: char)
    ensures
        join(split(s, sep), seq![sep]) == s,
    decreases s.len(),
{
    if s.len() > 0 {
        let p = s.drop_last();
        lemma_join_split(p, sep);
        lemma_split_len(p, sep);
        let r = split(p, sep);
        let x = s.last();
        if x == sep {
            let r2 = r.push(Seq::<char>::empty());
            assert(r2.drop_last() =~= r);
            assert(p + seq![sep] + Seq::<char>::empty() =~= s);
        } else {
            let r2 = r.update(r.len() - 1, r.last().push(x));
            if r.len() == 1 {
                assert(p.push(x) =~= s);
            } else {
                assert(r2.drop_last() =~= r.drop_last());
                assert(join(r.drop_last(), seq![sep]) + seq![sep] + r.last().push(x) =~= p.push(x));
                assert(p.push(x) =~= s);
            }
        }
    }
}

/// The first occurrence: `c` stands there and nowhere before; none means
/// `c` does not occur.
proof fn lemma_first_index(s: Seq<char>, c: char)
    ensures
        first_index(s, c) matches Some(i) ==> 0 <= i < s.len() && s[i] == c
            && !has_char(s.subrange(0, i), c),
        first_index(s, c) is None ==> !has_char(s, c),
    decreases s.len(),
{
    if s.len() > 0 {
        let t = s.drop_first();
        lemma_first_index(t, c);
        if s[0] != c {
            match first_index(t, c) {
                Some(i) => {
                    let sub = s.subrange(0, i + 1);
                    let tsub = t.subrange(0, i);
                    assert forall|j: int| 0 <= j < i + 1 implies #[trigger] sub[j] != c by {
                        if j > 0 {
                            assert(sub[j] == tsub[j - 1]);
                        }
                    }
                },
                None => {
                    assert forall|j: int| 0 <= j < s.len() implies s[j] != c by {
                        if j > 0 {
                            assert(s[j] == t[j - 1]);
                        }
                    }
                },
            }
        }
    }
}

/// A path made by `prefixed`: its first segment is the locale put there,
/// and what follows that segment is the rest put there.
proof fn lemma_prefixed_parts(l: Seq<char>, t: Seq<char>)
    requires
        !has_char(l, '/'),
    ensures
        nth_piece(prefixed(l, t), '/', 1) == l,
        tail_after_first(prefixed(l, t)) == t,
{
    let e = Seq::<char>::empty();
    lemma_split_no_sep(l, '/');
    lemma_split_no_sep(e, '/');
    if t.len() == 0 {
        assert(prefixed(l, t) =~= e + seq!['/'] + l);
        lemma_split_at_sep(e, l, '/');
        let parts = split(prefixed(l, t), '/');
        assert(parts =~= seq![e, l]);
        assert(drop_pieces(parts, 2) =~= Seq::<Seq<char>>::empty());
        assert(t =~= e);
    } else {
        assert(prefixed(l, t) =~= e + seq!['/'] + (l + seq!['/'] + t));
        lemma_split_at_sep(e, l + seq!['/'] + t, '/');
        lemma_split_at_sep(l, t, '/');
        let parts = split(prefixed(l, t), '/');
        assert(parts =~= seq![e, l] + split(t, '/'));
        assert(drop_pieces(parts, 2) =~= split(t, '/'));
        lemma_join_split(t, '/');
    }
}

/// What follows a rooted path's first segment holds no character that the
/// path does not hold.
proof fn lemma_tail_chars(path: Seq<char>, c: char)
    requires
        path.len() > 0,
        path[0] == '/',
        !has_char(path, c),
    ensures
        !has_char(tail_after_first(path), c),
{
    let e = Seq::<char>::empty();
    let rest = path.skip(1);
    assert(path =~= e + seq!['/'] + rest);
    lemma_split_at_sep(e, rest, '/');
    lemma_split_no_sep(e, '/');
    lemma_first_index(rest, '/');
    match first_index(rest, '/') {
        Some(i) => {
            let a = rest.subrange(0, i);
            let b = rest.subrange(i + 1, rest.len() as int);
            assert(rest =~= a + seq!['/'] + b);
            lemma_split_at_sep(a, b, '/');
            lemma_split_no_sep(a, '/');
            let parts = split(path, '/');
            assert(parts =~= seq![e, a] + split(b, '/'));
            assert(drop_pieces(parts, 2) =~= split(b, '/'));
            lemma_join_split(b, '/');
            assert forall|j: int| 0 <= j < b.len() implies b[j] != c by {
                assert(b[j] == path[j + i + 2]);
            }
        },
        None => {
            lemma_split_no_sep(rest, '/');
            let parts = split(path, '/');
            assert(parts =~= seq![e, rest]);
            assert(drop_pieces(parts, 2) =~= Seq::<Seq<char>>::empty());
        },
    }
}

/// Text without `?`, then optionally `?` and a query, splits back at the
/// first `?` into the two.
proof fn lemma_query_split(x: Seq<char>, q: Seq<char>)
    requires
        !has_char(x, '?'),
    ensures
        split_once_or_all(if q.len() == 0 { x } else { x + seq!['?'] + q }, '?') == (x, q),
{
    if q.len() == 0 {
        lemma_first_index(x, '?');
        if first_index(x, '?') is Some {
            let i = first_index(x, '?')->0;
            assert(x[i] == '?');
        }
        assert(q =~= Seq::<char>::empty());
    } else {
        let s = x + seq!['?'] + q;
        lemma_first_index(s, '?');
        assert(s[x.len() as int] == '?');
        match first_index(s, '?') {
            Some(i) => {
                if i < x.len() {
                    assert(s[i] == x[i]);
                }
                if i > x.len() {
                    assert(s.subrange(0, i)[x.len() as int] == '?');
                }
                assert(s.subrange(0, i) =~= x);
                assert(s.subrange(i + 1, s.len() as int) =~= q);
            },
            None => {},
        }
    }
}

/// A path made by `prefixed` holds a character other than `/` only where
/// the locale or the rest holds it.
proof fn lemma_prefixed_chars(l: Seq<char>, t: Seq<char>, c: char)
    requires
        c != '/',
        !has_char(l, c),
        !has_char(t, c),
    ensures
        !has_char(prefixed(l, t), c),
{
    let x = prefixed(l, t);
    assert forall|j: int| 0 <= j < x.len() implies x[j] != c by {
        if 1 <= j < l.len() + 1 {
            assert(x[j] == l[j - 1]);
        } else if j >= l.len() + 2 {
            assert(x[j] == t[j - l.len() - 2]);
        }
    }
}

/// A second language switch replaces the first: switching a rooted link to
/// a real locale code `l1` and then to `l2` gives the same link as switching
/// it to `l2` at once.
pub proof fn lemma_second_switch_replaces_first(path_and_query: Seq<char>, l1: Seq<char>, l2: Seq<char>)
    requires
        path_and_query.len() > 0,
        path_and_query[0] == '/',
        real_locale(l1),
        !has_char(l1, '/'),
        !has_char(l1, '?'),
    ensures
        swapped_locale(swapped_locale(path_and_query, l1), l2) == swapped_locale(path_and_query, l2),
{
    let pq = path_and_query;
    let (path, query) = split_once_or_all(pq, '?');
    lemma_first_index(pq, '?');
    match first_index(pq, '?') {
        Some(i) => {
            assert(i != 0);
            assert(path[0] == pq[0]);
        },
        None => {},
    }
    assert(path.len() > 0 && path[0] == '/');
    assert(!has_char(path, '?'));
    let first = nth_piece(path, '/', 1);
    let e = Seq::<char>::empty();
    let t = if real_locale(first) {
        tail_after_first(path)
    } else if path == seq!['/'] {
        e
    } else {
        path.skip(1)
    };
    if real_locale(first) {
        lemma_tail_chars(path, '?');
    } else if path == seq!['/'] {
        assert(prefixed(l1, t) =~= seq!['/'] + l1);
        assert(prefixed(l2, t) =~= seq!['/'] + l2);
    } else {
        assert(path.len() > 1) by {
            if path.len() == 1 {
                assert(path =~= seq!['/']);
            }
        }
        assert(prefixed(l1, t) =~= seq!['/'] + l1 + path);
        assert(prefixed(l2, t) =~= seq!['/'] + l2 + path);
        assert forall|j: int| 0 <= j < t.len() implies t[j] != '?' by {
            assert(t[j] == path[j + 1]);
        }
    }
    let x = prefixed(l1, t);
    lemma_prefixed_chars(l1, t, '?');
    lemma_query_split(x, query);
    lemma_prefixed_parts(l1, t);
}

/// A rewritten path needs no second rewrite, so the redirect cannot loop:
/// where every served locale code reads as itself, normalising the
/// normalised path gives nothing.
pub proof fn lemma_normalized_path_is_final(path: Seq<char>)
    requires
        normalized_path(path) is Some,
        forall|l: Seq<char>| is_supported(l) ==> segment_locale(l) == Some(l),
    ensures
        normalized_path(normalized_path(path)->0) is None,
{
    let first = nth_piece(path, '/', 1);
    let target = match segment_locale(first) {
        Some(t) => t,
        None => default_locale(),
    };
    match parsed_locale(first) {
        Some(tag) => lemma_first_supported_is_served(icu_fallback_chain(tag)),
        None => {},
    }
    assert(is_supported(default_locale())) by {
        assert(supported()[0] == default_locale());
    }
    assert(is_supported(target));
    let k = choose|k: int| 0 <= k < supported().len() && supported()[k] == target;
    assert(!has_char(target, '/')) by {
        if k == 0 {
            assert(target =~= seq!['e', 'n']);
        } else {
            assert(target =~= seq!['z', 'h']);
        }
    }
    lemma_prefixed_parts(target, tail_after_first(path));
}

/// The `lang` cookie outranks the browser: when the cookie parses as a tag
/// that resolves to a served locale, that locale is chosen and nothing new
/// is remembered, whatever `Accept-Language` says; the header decides only
/// when the cookie yields no served locale, and its choice is remembered;
/// when neither decides, the default is used and not remembered.
pub proof fn lemma_cookie_outranks_header(cookie: Option<Seq<char>>, accept_language: Option<Seq<char>>)
    ensures
        (cookie matches Some(c) && (parsed_locale(c) matches Some(tag) && resolved_locale(tag) is Some))
            ==> detected_locale(cookie, accept_language) == (resolved_locale(parsed_locale(cookie->0)->0)->0, false),
        (cookie matches Some(c) && (parsed_locale(c) matches Some(tag) && resolved_locale(tag) is Some))
            ==> forall|other: Option<Seq<char>>| #[trigger] detected_locale(cookie, other) == detected_locale(cookie, accept_language),
        (!(cookie matches Some(c) && (parsed_locale(c) matches Some(tag) && resolved_locale(tag) is Some))
            && (accept_language matches Some(h) && crate::i18n::negotiate::negotiated(h) is Some))
            ==> detected_locale(cookie, accept_language) == (crate::i18n::negotiate::negotiated(accept_language->0)->0, true),
        (!(cookie matches Some(c) && (parsed_locale(c) matches Some(tag) && resolved_locale(tag) is Some))
            && !(accept_language matches Some(h) && crate::i18n::negotiate::negotiated(h) is Some))
            ==> detected_locale(cookie, accept_language) == (seq!['e', 'n'], false),
{
}

} // verus!
