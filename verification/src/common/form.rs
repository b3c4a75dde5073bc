//! Form and query-string helpers: parameter lookup, error codes and the
//! redirect target check.
use vstd::prelude::*;
use vstd::string::*;
use crate::common::constant::{error_i18n_key, error_key_of};
use crate::common::media::opt_view;
use crate::i18n::loader::{first_index, split_once_or_all, split_once_or_all_exec};
use crate::text::{chars_of, chars_eq, split, split_chars, starts_with, starts_with_exec, string_of, views};

verus! {

/// A redirect target that stays on this site: it starts with one `/`,
/// not followed by another `/` or by `\` (both of which browsers read as a
/// jump to another host), and every byte is printable ASCII from space up
/// to `}` (so no control characters, no header injection, no non-ASCII).
pub open spec fn is_safe_next(bytes: Seq<u8>) -> bool {
    &&& bytes.len() > 0
    &&& bytes[0] == 0x2f
    &&& !(bytes.len() > 1 && (bytes[1] == 0x2f || bytes[1] == 0x5c))
    &&& forall|i: int| 0 <= i < bytes.len() ==> 0x20 <= #[trigger] bytes[i] < 0x7e
}

/// Checks a redirect target: only relative paths within the site are
/// allowed (guards against open redirects and response header injection).
pub fn safe_next(next: &str) -> (r: Option<String>)
    ensures
        r is Some <==> is_safe_next(next.spec_bytes()),
        r matches Some(s) ==> s@ == next@,
{
    let b = next.as_bytes();
    if b.len() == 0 || b[0] != 0x2f || (b.len() > 1 && (b[1] == 0x2f || b[1] == 0x5c)) {
        return None;
    }
    let mut i: usize = 0;
    while i < b.len()
        invariant
            b@ == next.spec_bytes(),
            i <= b@.len(),
            forall|k: int| 0 <= k < i ==> 0x20 <= #[trigger] b@[k] < 0x7e,
        decreases b.len() - i,
    {
        if b[i] < 0x20 || b[i] >= 0x7e {
            assert(!(0x20 <= b@[i as int] < 0x7e));
            assert(b@ == next.spec_bytes());
            return None;
        }
        i += 1;
    }
    Some(next.to_owned())
}

/// The value of the first `key=value` piece of a query string whose key is
/// `key` (pieces are separated by `&`, a piece is split at its first `=`;
/// pieces without `=` are skipped).
pub open spec fn find_param(pieces: Seq<Seq<char>>, key: Seq<char>) -> Option<Seq<char>>
    decreases pieces.len(),
{
    if pieces.len() == 0 {
        None
    } else {
        let p = pieces[0];
        if first_index(p, '=') is Some && split_once_or_all(p, '=').0 == key {
            Some(split_once_or_all(p, '=').1)
        } else {
            find_param(pieces.drop_first(), key)
        }
    }
}

/// The value of parameter `key` in a query string.
pub fn query_param(query: &str, key: &str) -> (r: Option<String>)
    ensures
        crate::common::session::opt_view(r) == find_param(split(query@, '&'), key@),
{
    let pieces = split_chars(&chars_of(query), '&');
    let ghost pv = views(pieces@);
    assert(pv =~= split(query@, '&'));
    let k = chars_of(key);
    let mut i: usize = 0;
    assert(pv.skip(0) =~= pv);
    while i < pieces.len()
        invariant
            i <= pieces@.len(),
            pv == views(pieces@),
            pv == split(query@, '&'),
            k@ == key@,
            find_param(pv, key@) == find_param(pv.skip(i as int), key@),
        decreases pieces.len() - i,
    {
        assert(pv.skip(i as int)[0] == pieces@[i as int]@);
        assert(pv.skip(i as int).drop_first() =~= pv.skip(i + 1));
        let (name, value) = split_once_or_all_exec(&pieces[i], '=');
        if has_eq(&pieces[i]) && chars_eq(&name, &k) {
            let ghost p = pv.skip(i as int)[0];
            assert(p == pieces@[i as int]@);
            assert(first_index(p, '=') is Some);
            assert(split_once_or_all(p, '=').0 == key@);
            assert(find_param(pv.skip(i as int), key@) == Some(split_once_or_all(p, '=').1));
            return Some(string_of(&value));
        }
        i += 1;
    }
    None
}

/// Whether `=` occurs in `p`.
fn has_eq(p: &[char]) -> (r: bool)
    ensures
        r == (first_index(p@, '=') is Some),
{
    let mut i: usize = 0;
    assert(p@.skip(0) =~= p@);
    while i < p.len()
        invariant
            i <= p@.len(),
            first_index(p@, '=') is Some <==> first_index(p@.skip(i as int), '=') is Some,
        decreases p.len() - i,
    {
        assert(p@.skip(i as int).drop_first() =~= p@.skip(i + 1));
        if p[i] == '=' {
            return true;
        }
        i += 1;
    }
    false
}

/// The prefix that carries an error code in a query string.
pub open spec fn error_prefix() -> Seq<char> {
    seq!['e', 'r', 'r', 'o', 'r', '=']
}

/// The code of the first `error=` piece of a query string.
pub open spec fn find_error(pieces: Seq<Seq<char>>) -> Option<Seq<char>>
    decreases pieces.len(),
{
    if pieces.len() == 0 {
        None
    } else if starts_with(pieces[0], error_prefix()) {
        Some(pieces[0].skip(6))
    } else {
        find_error(pieces.drop_first())
    }
}

/// The translation key for the `?error=` code of a query string, when the
/// code is one the page accepts (`allowed`) and has a key.
pub open spec fn error_message_key(query: Seq<char>, allowed: Seq<Seq<char>>) -> Option<Seq<char>> {
    match find_error(split(query, '&')) {
        Some(err) => if allowed.contains(err) {
            error_key_of(err)
        } else {
            None
        },
        None => None,
    }
}

/// The text of each string slice.
pub open spec fn str_views(v: Seq<&str>) -> Seq<Seq<char>> {
    Seq::new(v.len(), |i: int| v[i]@)
}

/// The code of the first `error=` piece.
fn find_error_exec(pieces: &Vec<Vec<char>>) -> (r: Option<Vec<char>>)
    ensures
        match r {
            Some(v) => find_error(views(pieces@)) == Some(v@),
            None => find_error(views(pieces@)) is None,
        },
{
    let ghost pv = views(pieces@);
    let prefix = chars_of("error=");
    proof {
        reveal_strlit("error=");
        assert(prefix@ =~= error_prefix());
    }
    let mut i: usize = 0;
    assert(pv.skip(0) =~= pv);
    while i < pieces.len()
        invariant
            i <= pieces@.len(),
            pv == views(pieces@),
            prefix@ == error_prefix(),
            find_error(pv) == find_error(pv.skip(i as int)),
        decreases pieces.len() - i,
    {
        assert(pv.skip(i as int)[0] == pieces@[i as int]@);
        assert(pv.skip(i as int).drop_first() =~= pv.skip(i + 1));
        if starts_with_exec(&pieces[i], &prefix) {
            let p = &pieces[i];
            let mut v: Vec<char> = Vec::new();
            let mut k: usize = 6;
            while k < p.len()
                invariant
                    6 <= k <= p@.len(),
                    v@ == p@.subrange(6, k as int),
                decreases p.len() - k,
            {
                v.push(p[k]);
                k += 1;
                assert(v@ =~= p@.subrange(6, k as int));
            }
            assert(v@ =~= p@.skip(6));
            return Some(v);
        }
        i += 1;
    }
    None
}

/// The translation key of the page error named in a query string (the page
/// translates it for display).
pub fn error_message_key_for(query: &str, allowed: &[&str]) -> (r: Option<&'static str>)
    ensures
        opt_view(r) == error_message_key(query@, str_views(allowed@)),
{
    let pieces = split_chars(&chars_of(query), '&');
    let ghost pv = views(pieces@);
    assert(pv =~= split(query@, '&'));
    let err = match find_error_exec(&pieces) {
        Some(v) => v,
        None => return None,
    };
    let err_s = string_of(&err);
    let mut j: usize = 0;
    while j < allowed.len()
        invariant
            err_s@ == err@,
            find_error(split(query@, '&')) == Some(err@),
            j <= allowed@.len(),
            forall|m: int| 0 <= m < j ==> (#[trigger] allowed@[m])@ != err@,
        decreases allowed.len() - j,
    {
        let a: &str = allowed[j];
        if crate::text::str_eq(a, err_s.as_str()) {
            assert(a@ == err@);
            assert(a == allowed@[j as int]);
            assert(str_views(allowed@)[j as int] == allowed@[j as int]@);
            assert(str_views(allowed@).contains(err@));
            return error_i18n_key(err_s.as_str());
        }
        j += 1;
    }
    assert(!str_views(allowed@).contains(err@)) by {
        if str_views(allowed@).contains(err@) {
            let m = choose|m: int| 0 <= m < str_views(allowed@).len() && str_views(allowed@)[m] == err@;
            assert(allowed@[m]@ == err@);
        }
    }
    None
}

} // verus!
