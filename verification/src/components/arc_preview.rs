//! The card that previews an item in listings.
use vstd::prelude::*;
use vstd::string::*;
use crate::models::arc::{Arc, ArcType};
use crate::text::{cat4, chars_of, string_of};

verus! {

/// What a preview card shows besides the thumbnail: where it links, the
/// date (the first ten characters of the creation time), the author (empty
/// when unknown) and the translation key of the kind's label.
pub struct PreviewFields {
    pub href: String,
    pub created_date: String,
    pub author: String,
    pub type_key: &'static str,
}

/// The first `n` characters of `s` (all of it when shorter).
pub open spec fn take_chars(s: Seq<char>, n: nat) -> Seq<char> {
    if s.len() <= n { s } else { s.subrange(0, n as int) }
}

/// The fields of an item's preview card.
pub fn preview_fields(locale: &str, arc: &Arc) -> (r: PreviewFields)
    ensures
        r.href@ == "/"@ + locale@ + "/arc/"@ + arc.id@,
        r.created_date@ == take_chars(arc.created_at@, 10),
        r.author@ == match arc.author_name {
            Some(a) => a@,
            None => Seq::<char>::empty(),
        },
        r.type_key@ == match arc.arc_type {
            ArcType::Video => "post_type_video"@,
            ArcType::Photo => "post_type_photo"@,
            ArcType::Article => "post_type_article"@,
        },
{
    let href = cat4("/", locale, "/arc/", arc.id.as_str());
    let cs = chars_of(arc.created_at.as_str());
    let mut date: Vec<char> = Vec::new();
    let mut i: usize = 0;
    while i < cs.len() && i < 10
        invariant
            i <= cs@.len(),
            i <= 10,
            date@ == cs@.subrange(0, i as int),
        decreases cs.len() - i,
    {
        date.push(cs[i]);
        i += 1;
        assert(date@ =~= cs@.subrange(0, i as int));
    }
    assert(date@ =~= take_chars(cs@, 10));
    let author = match &arc.author_name {
        Some(a) => a.clone(),
        None => String::new(),
    };
    PreviewFields {
        href,
        created_date: string_of(date.as_slice()),
        author,
        type_key: crate::pages::arcs::kind_key(arc.arc_type),
    }
}

} // verus!
