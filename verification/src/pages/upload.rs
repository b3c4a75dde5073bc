//! Uploads: checking the file before it is stored, and the upload
//! handler's steps.
use vstd::prelude::*;
use vstd::string::*;
use crate::common::media::{is_image_ext, is_image_extension, mime_extension, mime_to_extension, UPLOAD_MAX_BYTES};
use crate::common::rand::is_lower_hex;
use crate::pages::{redirects_to, Reply};
use crate::text::{cat2, str_eq};

verus! {

/// How an upload's file is to be stored.
pub enum MediaPlan {
    /// An article: no file is stored.
    NoMedia,
    /// Stored as an image with this extension.
    Image(&'static str),
    /// Stored (and transcoded) as a video with this extension.
    Video(&'static str),
}

/// Why an upload is refused before anything is stored.
#[derive(Debug, Clone, Copy, PartialEq, Eq, Structural)]
pub enum UploadRefusal {
    /// A video or photo without a (non-empty) file.
    NoFile,
    /// The file is over `UPLOAD_MAX_BYTES`.
    TooLarge,
    /// The file's type is not on the whitelist.
    UnsupportedType,
}

impl UploadRefusal {
    /// The translation key of the refusal's message.
    pub fn key(&self) -> (r: &'static str)
        ensures
            r@ == match self {
                UploadRefusal::NoFile => "upload_no_file"@,
                UploadRefusal::TooLarge => "upload_too_large"@,
                UploadRefusal::UnsupportedType => "upload_verify_failed"@,
            },
    {
        match self {
            UploadRefusal::NoFile => "upload_no_file",
            UploadRefusal::TooLarge => "upload_too_large",
            UploadRefusal::UnsupportedType => "upload_verify_failed",
        }
    }
}

/// How an upload of kind `post_type` with a file of `len` bytes and MIME
/// type `mime` (when one was sent) is stored, or why it is refused: an
/// article stores no file; otherwise a non-empty file is required, at most
/// `UPLOAD_MAX_BYTES` long, of a whitelisted type, stored as an image or a
/// video by its extension.
pub open spec fn media_plan(post_type: Seq<char>, file: Option<(nat, Seq<char>)>) -> Result<(bool, Seq<char>), UploadRefusal> {
    if post_type == "article"@ {
        Ok((false, Seq::<char>::empty()))
    } else {
        match file {
            Some((len, mime)) if len > 0 => if len > UPLOAD_MAX_BYTES {
                Err(UploadRefusal::TooLarge)
            } else {
                match mime_extension(mime) {
                    Some(ext) => Ok((true, ext)),
                    None => Err(UploadRefusal::UnsupportedType),
                }
            },
            _ => Err(UploadRefusal::NoFile),
        }
    }
}

/// The view of a plan: whether a file is stored, and its extension.
pub open spec fn plan_view(p: MediaPlan) -> (bool, Seq<char>) {
    match p {
        MediaPlan::NoMedia => (false, Seq::<char>::empty()),
        MediaPlan::Image(e) => (true, e@),
        MediaPlan::Video(e) => (true, e@),
    }
}

/// Decides how an upload is stored; `file` holds the file's length and
/// MIME type when a file field was sent.
pub fn plan_media(post_type: &str, file: Option<(usize, &str)>) -> (r: Result<MediaPlan, UploadRefusal>)
    ensures
        match media_plan(post_type@, match file { Some((n, m)) => Some((n as nat, m@)), None => None }) {
            Ok(v) => r matches Ok(p) && plan_view(p) == v
                && (p is Image <==> (v.0 && is_image_extension(v.1)))
                && (p is Video <==> (v.0 && !is_image_extension(v.1))),
            Err(e) => r == Err::<MediaPlan, UploadRefusal>(e),
        },
{
    if str_eq(post_type, "article") {
        return Ok(MediaPlan::NoMedia);
    }
    match file {
        Some((len, mime)) if len > 0 => {
            if len > UPLOAD_MAX_BYTES {
                return Err(UploadRefusal::TooLarge);
            }
            match mime_to_extension(mime) {
                Some(ext) => if is_image_ext(ext) {
                    Ok(MediaPlan::Image(ext))
                } else {
                    Ok(MediaPlan::Video(ext))
                },
                None => Err(UploadRefusal::UnsupportedType),
            }
        },
        _ => Err(UploadRefusal::NoFile),
    }
}

/// An optional text field: none when empty.
pub fn non_empty(s: &str) -> (r: Option<&str>)
    ensures
        s@.len() == 0 ==> r is None,
        s@.len() > 0 ==> r == Some(s),
{
    if s.unicode_len() == 0 { None } else { Some(s) }
}

/// The fields of the upload form, with the file's length and MIME type
/// (its bytes stay with the handler).
pub struct UploadForm {
    pub title: String,
    /// `article`, `video` or `photo` (`video` when the field is missing).
    pub post_type: String,
    pub body: String,
    pub topics: String,
    pub csrf_token: String,
    /// The length and MIME type of the file field, when one was sent.
    pub file: Option<(usize, String)>,
}

/// A new item as it is stored.
pub struct NewItem {
    /// A fresh record key: 32 lowercase hex characters.
    pub id: String,
    pub title: String,
    pub arc_type: String,
    /// The stored media's URL (empty for an article).
    pub media_url: String,
    /// The body, none when empty.
    pub body: Option<String>,
    /// The topics, none when empty.
    pub topics: Option<String>,
    /// The signed-in user, none when there is none.
    pub author: Option<String>,
}

/// What the upload handler learnt from its last step.
pub enum UploadEvent {
    /// The form has just arrived.
    Start,
    /// Whether the CSRF token matched.
    CsrfChecked(bool),
    /// The stored media's URL, or why storing the file failed.
    Saved(Result<String, String>),
    /// The stored media's URL and the signed-in user, if any.
    AuthorFound(String, Option<String>),
    /// The stored media's URL and whether the item was created (the error
    /// text if not).
    Created(String, Result<(), String>),
    /// The stored media was removed again after a failed create; the
    /// create's error text.
    UploadRemoved(String),
    /// The new item's title was broadcast.
    Notified,
}

/// The next step of the upload handler.
pub enum UploadStep {
    CheckCsrf,
    /// Store the file as this plan says (an image or a video).
    Save(MediaPlan),
    /// Find the signed-in user; the stored media's URL travels along.
    FindAuthor(String),
    /// Create this item.
    Create(NewItem),
    /// Remove the media stored at this URL.
    RemoveUpload(String),
    /// Broadcast this title to connected visitors.
    Notify(String),
    /// Answer 400 with the translation of this key, followed by `: ` and
    /// the detail when there is one.
    Refuse(&'static str, Option<String>),
    /// Answer 500 with this error text.
    Fail(String),
    /// Answer 403 or redirect.
    Reply(Reply),
}

/// The view of an optional string.
pub open spec fn opt_text(o: Option<String>) -> Option<Seq<char>> {
    match o {
        Some(s) => Some(s@),
        None => None,
    }
}

/// The text of an optional field: none when empty.
pub open spec fn text_or_none(s: Seq<char>) -> Option<Seq<char>> {
    if s.len() == 0 { None } else { Some(s) }
}

/// The key of a refusal.
pub open spec fn refusal_key(e: UploadRefusal) -> Seq<char> {
    match e {
        UploadRefusal::NoFile => "upload_no_file"@,
        UploadRefusal::TooLarge => "upload_too_large"@,
        UploadRefusal::UnsupportedType => "upload_verify_failed"@,
    }
}

/// The upload decisions: a CSRF mismatch is refused first (403) with
/// nothing stored; a refused file answers 400 with its key, nothing stored;
/// an article goes on with no media, a file is stored as planned and a
/// failed store answers 400; then the item is created with a fresh key, the
/// form's fields (empty ones as none) and the signed-in user; a failed
/// create removes the stored media and answers 500 without a broadcast; a
/// successful one broadcasts the title and leads to the locale's home page.
pub open spec fn upload_next(locale: Seq<char>, form: UploadForm, event: UploadEvent, step: UploadStep) -> bool {
    match event {
        UploadEvent::Start => step == UploadStep::CheckCsrf,
        UploadEvent::CsrfChecked(ok) => if !ok {
            step matches UploadStep::Reply(Reply::Forbidden)
        } else {
            match media_plan(form.post_type@, match form.file { Some((n, m)) => Some((n as nat, m@)), None => None }) {
                Err(e) => step matches UploadStep::Refuse(k, None) && k@ == refusal_key(e),
                Ok(v) => if !v.0 {
                    step matches UploadStep::FindAuthor(u) && u@ == Seq::<char>::empty()
                } else {
                    step matches UploadStep::Save(p) && plan_view(p) == v
                        && (p is Image <==> is_image_extension(v.1))
                        && (p is Video <==> !is_image_extension(v.1))
                },
            }
        },
        UploadEvent::Saved(Err(e)) => step matches UploadStep::Refuse(k, Some(d))
            && k@ == "upload_verify_failed"@ && d@ == e@,
        UploadEvent::Saved(Ok(url)) => step matches UploadStep::FindAuthor(u) && u@ == url@,
        UploadEvent::AuthorFound(url, author) => step matches UploadStep::Create(item) && {
            &&& item.id@.len() == 32
            &&& forall|i: int| 0 <= i < 32 ==> is_lower_hex(#[trigger] item.id@[i])
            &&& item.title@ == form.title@
            &&& item.arc_type@ == form.post_type@
            &&& item.media_url@ == url@
            &&& opt_text(item.body) == text_or_none(form.body@)
            &&& opt_text(item.topics) == text_or_none(form.topics@)
            &&& opt_text(item.author) == match author {
                Some(a) => text_or_none(a@),
                None => None,
            }
        },
        UploadEvent::Created(url, Err(_)) => step matches UploadStep::RemoveUpload(u) && u@ == url@,
        UploadEvent::Created(_, Ok(())) => step matches UploadStep::Notify(t) && t@ == form.title@,
        UploadEvent::UploadRemoved(e) => step matches UploadStep::Fail(m) && m@ == e@,
        UploadEvent::Notified => step matches UploadStep::Reply(rep) && redirects_to(rep, "/"@ + locale),
    }
}

/// An optional field's text: none when empty.
fn owned_or_none(s: &str) -> (r: Option<String>)
    ensures
        opt_text(r) == text_or_none(s@),
{
    if s.unicode_len() == 0 { None } else { Some(s.to_owned()) }
}

/// The next step of the upload handler after `event`.
pub fn upload_step(locale: &str, form: &UploadForm, event: UploadEvent) -> (r: UploadStep)
    ensures
        upload_next(locale@, *form, event, r),
{
    proof {
        reveal_strlit("");
    }
    match event {
        UploadEvent::Start => UploadStep::CheckCsrf,
        UploadEvent::CsrfChecked(ok) => if !ok {
            UploadStep::Reply(Reply::Forbidden)
        } else {
            let file = match &form.file {
                Some((n, m)) => Some((*n, m.as_str())),
                None => None,
            };
            match plan_media(form.post_type.as_str(), file) {
                Err(e) => UploadStep::Refuse(e.key(), None),
                Ok(MediaPlan::NoMedia) => UploadStep::FindAuthor(String::new()),
                Ok(p) => UploadStep::Save(p),
            }
        },
        UploadEvent::Saved(Err(e)) => UploadStep::Refuse("upload_verify_failed", Some(e)),
        UploadEvent::Saved(Ok(url)) => UploadStep::FindAuthor(url),
        UploadEvent::AuthorFound(url, author) => {
            let author = match &author {
                Some(a) => owned_or_none(a.as_str()),
                None => None,
            };
            UploadStep::Create(NewItem {
                id: crate::db::new_record_key(),
                title: form.title.clone(),
                arc_type: form.post_type.clone(),
                media_url: url,
                body: owned_or_none(form.body.as_str()),
                topics: owned_or_none(form.topics.as_str()),
                author,
            })
        },
        UploadEvent::Created(url, Err(_)) => UploadStep::RemoveUpload(url),
        UploadEvent::Created(_, Ok(())) => UploadStep::Notify(form.title.clone()),
        UploadEvent::UploadRemoved(e) => UploadStep::Fail(e),
        UploadEvent::Notified => UploadStep::Reply(Reply::Redirect(cat2("/", locale))),
    }
}

/// A refused upload stores nothing and broadcasts nothing: whenever the
/// handler answers 403 or 400, the last step was the CSRF check, the file
/// check or a failed store, never a created item.
pub proof fn lemma_refusals_store_nothing(locale: Seq<char>, form: UploadForm, event: UploadEvent, step: UploadStep)
    requires
        upload_next(locale, form, event, step),
        step matches UploadStep::Reply(Reply::Forbidden) || step is Refuse,
    ensures
        event is CsrfChecked || event is Saved,
{
}

/// An item is only announced after it was created, and a failed create
/// always removes the stored media and never announces.
pub proof fn lemma_broadcast_only_after_create(locale: Seq<char>, form: UploadForm, event: UploadEvent, step: UploadStep)
    requires
        upload_next(locale, form, event, step),
    ensures
        step is Notify ==> (event matches UploadEvent::Created(_, r) && r is Ok),
        (event matches UploadEvent::Created(url, r) && r is Err) ==> step is RemoveUpload,
        (event matches UploadEvent::Created(url, r) && r is Err) ==> step->RemoveUpload_0@ == event->Created_0@,
{
}

} // verus!
