//! Content queries: filters, paging offsets and media references.
use vstd::prelude::*;
use vstd::string::*;
use crate::common::media::{extract_media_urls, media_refs, str_views};
use crate::models::arc::Arc;

verus! {

/// A named query parameter and its text value.
pub type Param = (&'static str, String);

/// The view of query parameters.
pub open spec fn param_views(v: Seq<Param>) -> Seq<(Seq<char>, Seq<char>)> {
    Seq::new(v.len(), |i: int| (v[i].0@, v[i].1@))
}

/// The `WHERE` clause and its parameters for a listing filtered by kind and
/// by a search text (an empty search does not filter).
pub open spec fn where_clause(arc_type: Option<Seq<char>>, search: Option<Seq<char>>) -> (Seq<char>, Seq<(Seq<char>, Seq<char>)>) {
    let type_clause = "arc_type = $arc_type"@;
    let search_clause = "(title ~ $search OR body ~ $search OR topics ~ $search)"@;
    let has_search = search matches Some(q) && q.len() > 0;
    match arc_type {
        Some(t) => if has_search {
            (
                " WHERE "@ + type_clause + " AND "@ + search_clause,
                seq![("arc_type"@, t), ("search"@, search->0)],
            )
        } else {
            (" WHERE "@ + type_clause, seq![("arc_type"@, t)])
        },
        None => if has_search {
            (" WHERE "@ + search_clause, seq![("search"@, search->0)])
        } else {
            (Seq::<char>::empty(), Seq::empty())
        },
    }
}

/// Builds the `WHERE` clause and parameters of a listing query.
pub fn build_where(arc_type: Option<&str>, search: Option<&str>) -> (r: (String, Vec<Param>))
    ensures
        (r.0@, param_views(r.1@)) == where_clause(
            crate::common::media::opt_view(arc_type),
            crate::common::media::opt_view(search),
        ),
{
    let mut clause = String::new();
    let mut params: Vec<Param> = Vec::new();
    let has_search = match search {
        Some(q) => q.unicode_len() > 0,
        None => false,
    };
    match arc_type {
        Some(t) => {
            clause.append(" WHERE ");
            clause.append("arc_type = $arc_type");
            params.push(("arc_type", t.to_owned()));
            if has_search {
                clause.append(" AND ");
                clause.append("(title ~ $search OR body ~ $search OR topics ~ $search)");
            }
        },
        None => {
            if has_search {
                clause.append(" WHERE ");
                clause.append("(title ~ $search OR body ~ $search OR topics ~ $search)");
            }
        },
    }
    if has_search {
        match search {
            Some(q) => params.push(("search", q.to_owned())),
            None => {},
        }
    }
    assert(param_views(params@) =~= where_clause(
        crate::common::media::opt_view(arc_type),
        crate::common::media::opt_view(search),
    ).1);
    (clause, params)
}

/// The row offset of page `page` (from 1) with `page_size` rows to a page,
/// as the database's signed integer: an offset above `i64::MAX` wraps round
/// to a negative number, as a cast from `u64` does.
pub fn page_start(page: u64, page_size: u64) -> (r: i64)
    requires
        page >= 1,
        (page - 1) * page_size <= u64::MAX,
    ensures
        r == if (page - 1) * page_size <= i64::MAX {
            (page - 1) * page_size
        } else {
            (page - 1) * page_size - 0x1_0000_0000_0000_0000
        },
{
    let v: u64 = (page - 1) * page_size;
    if v <= 0x7FFF_FFFF_FFFF_FFFFu64 {
        v as i64
    } else {
        let below: u64 = u64::MAX - v;
        -(below as i64) - 1
    }
}

/// The media an item refers to: its media URL when set, then every
/// `/media/` reference in its body.
pub open spec fn arc_media(media_url: Option<Seq<char>>, body: Option<Seq<char>>) -> Seq<Seq<char>> {
    let head = match media_url {
        Some(m) if m.len() > 0 => seq![m],
        _ => Seq::<Seq<char>>::empty(),
    };
    let refs = match body {
        Some(b) => media_refs(b),
        None => Seq::<Seq<char>>::empty(),
    };
    head + refs
}

/// The views of a vector of strings.
pub open spec fn string_views(v: Seq<String>) -> Seq<Seq<char>> {
    Seq::new(v.len(), |i: int| v[i]@)
}

/// The media an item uses, collected before it is deleted so that files no
/// other item refers to can be removed.
pub fn arc_media_refs(arc: &Arc) -> (r: Vec<String>)
    ensures
        string_views(r@) == arc_media(
            crate::common::session::opt_view(arc.media_url),
            crate::common::session::opt_view(arc.body),
        ),
{
    let mut refs: Vec<String> = Vec::new();
    match &arc.media_url {
        Some(m) => {
            if m.as_str().unicode_len() > 0 {
                refs.push(m.clone());
            }
        },
        None => {},
    }
    let ghost head = string_views(refs@);
    match &arc.body {
        Some(b) => {
            let urls = extract_media_urls(b.as_str());
            let mut i: usize = 0;
            while i < urls.len()
                invariant
                    i <= urls@.len(),
                    str_views(urls@) == media_refs(b@),
                    string_views(refs@) == head + str_views(urls@).subrange(0, i as int),
                decreases urls.len() - i,
            {
                let ghost before = refs@;
                let item = urls[i].to_owned();
                assert(item@ == str_views(urls@)[i as int]);
                refs.push(item);
                assert(string_views(refs@) =~= string_views(before).push(item@));
                assert(str_views(urls@).subrange(0, i + 1) =~= str_views(urls@).subrange(0, i as int).push(item@));
                i += 1;
            }
            assert(str_views(urls@).subrange(0, urls@.len() as int) =~= str_views(urls@));
        },
        None => {
            assert(string_views(refs@) =~= head + Seq::<Seq<char>>::empty());
        },
    }
    assert(head =~= match crate::common::session::opt_view(arc.media_url) {
        Some(m) if m.len() > 0 => seq![m],
        _ => Seq::<Seq<char>>::empty(),
    });
    refs
}

/// What happened last while deleting an item and its media.
pub enum PurgeEvent {
    /// The deletion has just been asked for.
    Start,
    /// The item, if it exists, read before deleting it.
    ArcFound(Option<Arc>),
    /// The item's record was deleted (or not); the media it used.
    Deleted(Vec<String>, Result<(), String>),
    /// Whether another item still uses the media at this index of the
    /// list, or the error of the query that asked.
    Checked(Vec<String>, usize, Result<bool, String>),
    /// The media at this index was removed (a failure to remove it is only
    /// reported, never an error of the deletion).
    Removed(Vec<String>, usize),
}

/// What to do next while deleting an item and its media.
pub enum PurgeStep {
    /// Read the item, to collect the media it uses.
    FindArc,
    /// Delete the item's record; these are the media it used.
    Delete(Vec<String>),
    /// Ask whether another item uses the media at this index.
    CheckUse(Vec<String>, usize),
    /// Remove the media at this index: no other item uses it.
    RemoveMedia(Vec<String>, usize),
    /// The deletion failed with this message.
    Fail(String),
    /// Done: the item is gone and so is every media no other item used.
    Done,
}

/// The message of a deletion whose item does not exist.
pub open spec fn missing_item_message() -> Seq<char> {
    "内容不存在"@
}

/// The step after the media at index `i - 1` was dealt with: the check of
/// the media at `i`, or done when the list is through.
pub open spec fn check_from(refs: Seq<String>, i: int, step: PurgeStep) -> bool {
    if i < refs.len() {
        step matches PurgeStep::CheckUse(r, j) && r@ == refs && j == i
    } else {
        step is Done
    }
}

/// The steps of deleting an item: read it and collect its media, delete
/// its record, then for each media in turn ask whether another item uses it
/// and remove it only when none does.
pub open spec fn purge_next(event: PurgeEvent, step: PurgeStep) -> bool {
    match event {
        PurgeEvent::Start => step is FindArc,
        PurgeEvent::ArcFound(None) => step matches PurgeStep::Fail(m) && m@ == missing_item_message(),
        PurgeEvent::ArcFound(Some(arc)) => step matches PurgeStep::Delete(refs) && string_views(refs@) == arc_media(
            crate::common::session::opt_view(arc.media_url),
            crate::common::session::opt_view(arc.body),
        ),
        PurgeEvent::Deleted(_, Err(e)) => step matches PurgeStep::Fail(m) && m@ == e@,
        PurgeEvent::Deleted(refs, Ok(())) => check_from(refs@, 0, step),
        PurgeEvent::Checked(_, _, Err(e)) => step matches PurgeStep::Fail(m) && m@ == e@,
        PurgeEvent::Checked(refs, i, Ok(used)) => if i >= refs@.len() {
            step is Done
        } else if used {
            check_from(refs@, i + 1, step)
        } else {
            step matches PurgeStep::RemoveMedia(r, j) && r@ == refs@ && j == i
        },
        PurgeEvent::Removed(refs, i) => if i >= refs@.len() {
            step is Done
        } else {
            check_from(refs@, i + 1, step)
        },
    }
}

/// The check of the media at `i`, or done past the end of the list.
fn check_at(refs: Vec<String>, i: usize) -> (r: PurgeStep)
    ensures
        check_from(refs@, i as int, r),
{
    if i < refs.len() {
        PurgeStep::CheckUse(refs, i)
    } else {
        PurgeStep::Done
    }
}

/// The next step of deleting an item and the media no other item uses.
pub fn purge_step(event: PurgeEvent) -> (r: PurgeStep)
    ensures
        purge_next(event, r),
{
    match event {
        PurgeEvent::Start => PurgeStep::FindArc,
        PurgeEvent::ArcFound(None) => {
            proof {
                reveal_strlit("内容不存在");
            }
            PurgeStep::Fail("内容不存在".to_string())
        },
        PurgeEvent::ArcFound(Some(arc)) => PurgeStep::Delete(arc_media_refs(&arc)),
        PurgeEvent::Deleted(_, Err(e)) => PurgeStep::Fail(e),
        PurgeEvent::Deleted(refs, Ok(())) => check_at(refs, 0),
        PurgeEvent::Checked(_, _, Err(e)) => PurgeStep::Fail(e),
        PurgeEvent::Checked(refs, i, Ok(used)) => if i >= refs.len() {
            PurgeStep::Done
        } else if used {
            check_at(refs, i + 1)
        } else {
            PurgeStep::RemoveMedia(refs, i)
        },
        PurgeEvent::Removed(refs, i) => if i >= refs.len() {
            PurgeStep::Done
        } else {
            check_at(refs, i + 1)
        },
    }
}

/// Media is removed only when no other item uses it: a removal step always
/// answers a check that found the media unused, at the same index of the
/// same list.
pub proof fn lemma_purge_removes_only_unused(event: PurgeEvent, step: PurgeStep)
    requires
        purge_next(event, step),
        step is RemoveMedia,
    ensures
        event matches PurgeEvent::Checked(refs, i, Ok(used)) && !used && i < refs@.len()
            && (step matches PurgeStep::RemoveMedia(r, j) && r@ == refs@ && j == i),
{
}

/// Nothing is removed before the record is gone, and every media of the
/// list is checked in turn: after the record's deletion the first media is
/// checked, and after each media the next one, until the list ends.
pub proof fn lemma_purge_checks_in_order(event: PurgeEvent, step: PurgeStep)
    requires
        purge_next(event, step),
    ensures
        step matches PurgeStep::CheckUse(r, j) ==> match event {
            PurgeEvent::Deleted(refs, Ok(())) => j == 0 && r@ == refs@,
            PurgeEvent::Checked(refs, i, Ok(true)) => j == i + 1 && r@ == refs@,
            PurgeEvent::Removed(refs, i) => j == i + 1 && r@ == refs@,
            _ => false,
        },
{
}

/// The purge visits every collected media in order: once the record is
/// deleted the first media is checked (done at once only when there is
/// none); after the media at index `i` is found in use or removed, the
/// media at `i + 1` is checked, and the purge is done only after the last
/// one; a media found unused is removed.
pub proof fn lemma_purge_visits_every_media(refs: Vec<String>, i: usize, step: PurgeStep)
    ensures
        purge_next(PurgeEvent::Deleted(refs, Ok(())), step) ==> if refs@.len() > 0 {
            step matches PurgeStep::CheckUse(r, j) && r@ == refs@ && j == 0
        } else {
            step is Done
        },
        (purge_next(PurgeEvent::Removed(refs, i), step) && i + 1 < refs@.len())
            ==> (step matches PurgeStep::CheckUse(r, j) && r@ == refs@ && j == i + 1),
        (purge_next(PurgeEvent::Removed(refs, i), step) && i + 1 >= refs@.len()) ==> step is Done,
        (purge_next(PurgeEvent::Checked(refs, i, Ok(true)), step) && i + 1 < refs@.len())
            ==> (step matches PurgeStep::CheckUse(r, j) && r@ == refs@ && j == i + 1),
        (purge_next(PurgeEvent::Checked(refs, i, Ok(true)), step) && i + 1 >= refs@.len()) ==> step is Done,
        (purge_next(PurgeEvent::Checked(refs, i, Ok(false)), step) && i < refs@.len())
            ==> (step matches PurgeStep::RemoveMedia(r, j) && r@ == refs@ && j == i),
{
}

/// A purge stops at the first failure and removes nothing after it: a
/// missing item, a failed deletion of the record and a failed query each end
/// it with that failure's message. The media of an existing item are
/// collected before its record goes: its nonempty media URL first, then
/// every `/media/` reference of its body, in order.
pub proof fn lemma_purge_collects_then_stops_on_failure(event: PurgeEvent, step: PurgeStep)
    requires
        purge_next(event, step),
    ensures
        event matches PurgeEvent::ArcFound(None) ==> (step matches PurgeStep::Fail(m) && m@.len() > 0),
        event matches PurgeEvent::Deleted(_, Err(e)) ==> (step matches PurgeStep::Fail(m) && m@ == e@),
        event matches PurgeEvent::Checked(_, _, Err(e)) ==> (step matches PurgeStep::Fail(m) && m@ == e@),
        event matches PurgeEvent::ArcFound(Some(arc)) ==> (step matches PurgeStep::Delete(refs) && {
            let body_refs = match arc.body {
                Some(b) => media_refs(b@),
                None => Seq::<Seq<char>>::empty(),
            };
            let has_url = arc.media_url matches Some(u) && u@.len() > 0;
            let off: int = if has_url { 1 } else { 0 };
            &&& refs@.len() == off + body_refs.len()
            &&& has_url ==> refs@[0]@ == arc.media_url->0@
            &&& forall|k: int| 0 <= k < body_refs.len() ==> (#[trigger] refs@[off + k])@ == body_refs[k]
        }),
{
    match event {
        PurgeEvent::ArcFound(None) => {
            reveal_strlit("内容不存在");
        },
        PurgeEvent::ArcFound(Some(arc)) => {
            match step {
                PurgeStep::Delete(refs) => {
                    let body_refs = match arc.body {
                        Some(b) => media_refs(b@),
                        None => Seq::<Seq<char>>::empty(),
                    };
                    let has_url = arc.media_url matches Some(u) && u@.len() > 0;
                    let off: int = if has_url { 1 } else { 0 };
                    assert(string_views(refs@).len() == refs@.len());
                    if has_url {
                        assert(string_views(refs@)[0] == refs@[0]@);
                    }
                    assert forall|k: int| 0 <= k < body_refs.len() implies (#[trigger] refs@[off + k])@ == body_refs[k] by {
                        assert(string_views(refs@)[off + k] == refs@[off + k]@);
                    }
                },
                _ => {},
            }
        },
        _ => {},
    }
}

} // verus!
