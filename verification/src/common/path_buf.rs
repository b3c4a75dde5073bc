//! `std::path::PathBuf` as the library sees it: a sequence of components.
//!
//! Verus has no model of `PathBuf`, so its contents are named here and the
//! few methods the library calls are given contracts over those names. The
//! contracts are stated for Unix-like targets, where `/` is the only
//! separator and no component is a drive prefix.
use std::path::PathBuf;
use vstd::prelude::*;
use crate::text::split;

verus! {

#[verifier::external_type_specification]
#[verifier::external_body]
pub struct ExPathBuf(PathBuf);

/// The components of a path, each as its text, in the order
/// `Path::components` yields them.
pub uninterp spec fn path_components(p: PathBuf) -> Seq<Seq<char>>;

/// The final component of a path as text, as `Path::file_name` followed by
/// `OsStr::to_str` gives it (`None` when there is no file name or it is not
/// valid Unicode).
pub uninterp spec fn path_file_name_text(p: PathBuf) -> Option<Seq<char>>;

/// Every component of the path is valid Unicode, so `OsStr::to_str` reads
/// each of them as text.
pub uninterp spec fn path_is_text(p: PathBuf) -> bool;

/// A path component that `PathBuf::push` appends as one normal component:
/// nonempty, not `.`, and free of the separator.
pub open spec fn is_plain_component(seg: Seq<char>) -> bool {
    &&& seg.len() > 0
    &&& seg != seq!['.']
    &&& forall|i: int| 0 <= i < seg.len() ==> seg[i] != '/'
}

/// An empty path.
///
/// Calls `PathBuf::new`; an empty path has no components.
#[verifier::external_body]
pub(crate) fn path_new() -> (p: PathBuf)
    ensures
        path_components(p) == Seq::<Seq<char>>::empty(),
        path_is_text(p),
{
    PathBuf::new()
}

/// Appends one plain component to a path.
///
/// Calls `PathBuf::push`. For a relative, separator-free segment other than
/// `.`, push adds a separator where needed and then the segment, so the
/// components grow by exactly that segment. A segment given as `&str` is
/// valid Unicode, so a path of text stays one.
#[verifier::external_body]
pub(crate) fn path_push(p: &mut PathBuf, seg: &str)
    requires
        is_plain_component(seg@),
    ensures
        path_components(*final(p)) == path_components(*old(p)).push(seg@),
        path_is_text(*old(p)) ==> path_is_text(*final(p)),
{
    p.push(seg);
}

/// The file name of a path as text.
///
/// Calls `Path::file_name` and converts the name with `OsStr::to_str`. When
/// a name comes back it is the last component. `file_name` gives the last
/// component when it is a name, and `to_str` fails only on text that is not
/// valid Unicode, so for a path of text a name comes back exactly when the
/// path has a file name.
#[verifier::external_body]
pub(crate) fn path_file_name(p: &PathBuf) -> (r: Option<String>)
    ensures
        path_is_text(*p) ==> (r is Some <==> has_file_name(path_components(*p))),
        match r {
            Some(n) => {
                &&& path_file_name_text(*p) == Some(n@)
                &&& path_components(*p).len() > 0
                &&& n@ == path_components(*p).last()
            },
            None => path_file_name_text(*p) is None,
        },
{
    p.file_name().and_then(|n| n.to_str()).map(|n| n.to_string())
}

/// A component other than the root (`/`), `.` and `..`: a name.
pub open spec fn is_normal(c: Seq<char>) -> bool {
    c != seq!['/'] && c != seq!['.'] && c != seq!['.', '.']
}

/// A path with these components has a file name: its last component is a name.
pub open spec fn has_file_name(comps: Seq<Seq<char>>) -> bool {
    comps.len() > 0 && is_normal(comps.last())
}

/// A path with these components has an extension: it has a file name with
/// a `.` after its first character.
pub open spec fn has_extension(comps: Seq<Seq<char>>) -> bool {
    has_file_name(comps) && exists|i: int| 1 <= i < comps.last().len() && #[trigger] comps.last()[i] == '.'
}

/// The pieces between separators that stay components: not empty, not `.`.
pub open spec fn named_pieces(pieces: Seq<Seq<char>>) -> Seq<Seq<char>> {
    pieces.filter(|p: Seq<char>| p.len() > 0 && p != seq!['.'])
}

/// The components of the path written `s` on a Unix target: the root `/`
/// when `s` starts with `/`, a `.` when `s` is `.` or starts with `./`, then
/// the pieces between separators, where repeated separators and a trailing
/// one add nothing and other `.` pieces are dropped (`..` stays).
pub open spec fn parsed_components(s: Seq<char>) -> Seq<Seq<char>> {
    let pieces = split(s, '/');
    if s.len() > 0 && s[0] == '/' {
        seq![seq!['/']] + named_pieces(pieces)
    } else if pieces[0] == seq!['.'] {
        seq![seq!['.']] + named_pieces(pieces.drop_first())
    } else {
        named_pieces(pieces)
    }
}

/// The components of `base` joined with `rel`: `rel` alone when it starts
/// at the root or `base` is empty; otherwise `base`'s then `rel`'s, where a
/// leading `.` of `rel`, now inside the path, is dropped.
pub open spec fn joined(base: Seq<Seq<char>>, rel: Seq<Seq<char>>) -> Seq<Seq<char>> {
    if rel.len() > 0 && rel[0] == seq!['/'] {
        rel
    } else if base.len() == 0 {
        rel
    } else if rel.len() > 0 && rel[0] == seq!['.'] {
        base + rel.drop_first()
    } else {
        base + rel
    }
}

/// The path written `s`.
///
/// Calls `PathBuf::from`. Its components are those `Path::components`
/// documents for Unix: a root for a leading `/`, a leading `.` kept, other
/// `.` pieces, empty pieces and a trailing separator dropped, `..` kept.
/// It is made from a `&str`, so every component is valid Unicode.
#[verifier::external_body]
pub(crate) fn path_from(s: &str) -> (p: PathBuf)
    ensures
        path_components(p) == parsed_components(s@),
        path_is_text(p),
{
    PathBuf::from(s)
}

/// `base` joined with `rel`.
///
/// Calls `Path::join`, which pushes `rel` onto a copy of `base`: an
/// absolute `rel` replaces the path; otherwise a separator and `rel` are
/// appended, so the components are `base`'s followed by `rel`'s (a leading
/// `.` of `rel` no longer being at the start). Two paths of text give a
/// path of text.
#[verifier::external_body]
pub(crate) fn path_join(base: &PathBuf, rel: &PathBuf) -> (p: PathBuf)
    ensures
        path_components(p) == joined(path_components(*base), path_components(*rel)),
        path_is_text(*base) && path_is_text(*rel) ==> path_is_text(p),
{
    base.join(rel)
}

/// The number of components of a path.
///
/// Calls `Path::components` and counts them.
#[verifier::external_body]
pub(crate) fn path_component_count(p: &PathBuf) -> (r: usize)
    ensures
        r == path_components(*p).len(),
{
    p.components().count()
}

/// Whether a path has a file name.
///
/// Calls `Path::file_name`, which gives the last component when it is a
/// name, and nothing for a root, `.` or `..`.
#[verifier::external_body]
pub(crate) fn path_has_file_name(p: &PathBuf) -> (r: bool)
    ensures
        r == has_file_name(path_components(*p)),
{
    p.file_name().is_some()
}

/// Whether a path has an extension.
///
/// Calls `Path::extension`, which is set when the path has a file name
/// holding a `.` other than a leading one.
#[verifier::external_body]
pub(crate) fn path_has_extension(p: &PathBuf) -> (r: bool)
    ensures
        r == has_extension(path_components(*p)),
{
    p.extension().is_some()
}

/// A path's first component as a path of its own.
///
/// Calls `Path::components`, takes the first, and makes a `PathBuf` of its
/// `Component::as_os_str`: a root, `.`, `..` or a name, each of which reads
/// back as that one component; a component of a path of text is text.
#[verifier::external_body]
pub(crate) fn path_first(p: &PathBuf) -> (r: Option<PathBuf>)
    ensures
        match r {
            Some(q) => path_components(*p).len() > 0 && path_components(q) == seq![path_components(*p)[0]]
                && (path_is_text(*p) ==> path_is_text(q)),
            None => path_components(*p).len() == 0,
        },
{
    p.components().next().map(|c| PathBuf::from(c.as_os_str()))
}

} // verus!
