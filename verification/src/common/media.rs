//! Media storage rules: accepted types, content types, safe relative paths,
//! and `/media/` references inside text.
//!
//! Layout under `data/media/`: images are `{key}.{ext}`, videos are
//! `{key}/original.{ext}` plus `{key}/hls/playlist.m3u8` and its segments.
//! A key is 32 lowercase hex characters.
use std::path::PathBuf;
use vstd::prelude::*;
use vstd::string::*;
use crate::common::path_buf::{
    has_extension, has_file_name, joined, parsed_components, path_components, path_file_name,
    path_file_name_text, path_first, path_is_text, path_from, path_has_extension, path_has_file_name, path_component_count, is_normal,
    path_join, path_new, path_push,
};
use crate::common::rand::is_lower_hex;
use crate::text::{
    chars_of, contains, contains_exec, ends_with, ends_with_exec, has_char, has_char_exec,
    occurs_at_exec, starts_with, starts_with_exec, str_eq,
};

verus! {

/// Upper limit for one uploaded file (32 MiB).
pub const UPLOAD_MAX_BYTES: usize = 32 * 1024 * 1024;

/// Body limit of the upload route: the file limit plus room for multipart framing.
pub const UPLOAD_BODY_LIMIT: usize = 32 * 1024 * 1024 + 64 * 1024;

/// The media root `data/media`, as a relative path.
pub fn media_root() -> (p: PathBuf)
    ensures
        path_components(p) == seq![seq!['d', 'a', 't', 'a'], seq!['m', 'e', 'd', 'i', 'a']],
        path_is_text(p),
{
    proof {
        reveal_strlit("data");
        reveal_strlit("media");
        assert("data"@ =~= seq!['d', 'a', 't', 'a']);
        assert("media"@ =~= seq!['m', 'e', 'd', 'i', 'a']);
    }
    let mut p = path_new();
    path_push(&mut p, "data");
    path_push(&mut p, "media");
    p
}

/// The extension that an upload's MIME type maps to, if it is one we accept.
pub open spec fn mime_extension(mime: Seq<char>) -> Option<Seq<char>> {
    if contains(mime, "jpeg"@) || contains(mime, "jpg"@) {
        Some("jpg"@)
    } else if contains(mime, "png"@) {
        Some("png"@)
    } else if contains(mime, "webp"@) {
        Some("webp"@)
    } else if contains(mime, "gif"@) {
        Some("gif"@)
    } else if contains(mime, "mp4"@) {
        Some("mp4"@)
    } else if contains(mime, "webm"@) {
        Some("webm"@)
    } else if contains(mime, "quicktime"@) {
        Some("mov"@)
    } else {
        None
    }
}

/// The view of an optional string slice.
pub open spec fn opt_view(o: Option<&str>) -> Option<Seq<char>> {
    match o {
        Some(s) => Some(s@),
        None => None,
    }
}

/// MIME type to extension; `None` for types outside the whitelist (the caller reports it).
pub fn mime_to_extension(mime: &str) -> (r: Option<&'static str>)
    ensures
        opt_view(r) == mime_extension(mime@),
{
    let m = chars_of(mime);
    if contains_exec(&m, &chars_of("jpeg")) || contains_exec(&m, &chars_of("jpg")) {
        Some("jpg")
    } else if contains_exec(&m, &chars_of("png")) {
        Some("png")
    } else if contains_exec(&m, &chars_of("webp")) {
        Some("webp")
    } else if contains_exec(&m, &chars_of("gif")) {
        Some("gif")
    } else if contains_exec(&m, &chars_of("mp4")) {
        Some("mp4")
    } else if contains_exec(&m, &chars_of("webm")) {
        Some("webm")
    } else if contains_exec(&m, &chars_of("quicktime")) {
        Some("mov")
    } else {
        None
    }
}

/// The whitelisted image extensions.
pub open spec fn is_image_extension(ext: Seq<char>) -> bool {
    ext == "jpg"@ || ext == "png"@ || ext == "webp"@ || ext == "gif"@
}

/// Whether `ext` is one of the image extensions.
pub fn is_image_ext(ext: &str) -> (r: bool)
    ensures
        r == is_image_extension(ext@),
{
    str_eq(ext, "jpg") || str_eq(ext, "png") || str_eq(ext, "webp") || str_eq(ext, "gif")
}

/// The content type served for a file of this name: image and video
/// whitelist entries first (matched by suffix), then HLS playlist and
/// segment, else a generic binary type.
pub open spec fn content_type_for_name(name: Seq<char>) -> Seq<char> {
    if ends_with(name, "jpg"@) {
        "image/jpeg"@
    } else if ends_with(name, "png"@) {
        "image/png"@
    } else if ends_with(name, "webp"@) {
        "image/webp"@
    } else if ends_with(name, "gif"@) {
        "image/gif"@
    } else if ends_with(name, "mp4"@) {
        "video/mp4"@
    } else if ends_with(name, "webm"@) {
        "video/webm"@
    } else if ends_with(name, "mov"@) {
        "video/quicktime"@
    } else if ends_with(name, ".m3u8"@) {
        "application/vnd.apple.mpegurl"@
    } else if ends_with(name, ".ts"@) {
        "video/mp2t"@
    } else {
        "application/octet-stream"@
    }
}

/// The file name of a path, or empty text when it has none.
pub open spec fn file_name_or_empty(p: PathBuf) -> Seq<char> {
    match path_file_name_text(p) {
        Some(n) => n,
        None => Seq::<char>::empty(),
    }
}

/// The content type for a file name.
pub fn content_type_for_file_name(name: &str) -> (r: &'static str)
    ensures
        r@ == content_type_for_name(name@),
{
    let n = chars_of(name);
    if ends_with_exec(&n, &chars_of("jpg")) {
        "image/jpeg"
    } else if ends_with_exec(&n, &chars_of("png")) {
        "image/png"
    } else if ends_with_exec(&n, &chars_of("webp")) {
        "image/webp"
    } else if ends_with_exec(&n, &chars_of("gif")) {
        "image/gif"
    } else if ends_with_exec(&n, &chars_of("mp4")) {
        "video/mp4"
    } else if ends_with_exec(&n, &chars_of("webm")) {
        "video/webm"
    } else if ends_with_exec(&n, &chars_of("mov")) {
        "video/quicktime"
    } else if ends_with_exec(&n, &chars_of(".m3u8")) {
        "application/vnd.apple.mpegurl"
    } else if ends_with_exec(&n, &chars_of(".ts")) {
        "video/mp2t"
    } else {
        "application/octet-stream"
    }
}

/// The name of the file that a path with these components names: its last
/// component when that is a name, else empty text.
pub open spec fn last_name_or_empty(comps: Seq<Seq<char>>) -> Seq<char> {
    if has_file_name(comps) {
        comps.last()
    } else {
        Seq::<char>::empty()
    }
}

/// The content type for the file a path names (by its file name; images and
/// HLS output). For a path of text the name is its last component.
pub fn content_type_for_path(path: &PathBuf) -> (r: &'static str)
    ensures
        r@ == content_type_for_name(file_name_or_empty(*path)),
        path_is_text(*path) ==> r@ == content_type_for_name(last_name_or_empty(path_components(*path))),
{
    proof {
        reveal_strlit("");
        assert(""@ =~= Seq::<char>::empty());
    }
    match path_file_name(path) {
        Some(name) => content_type_for_file_name(name.as_str()),
        None => content_type_for_file_name(""),
    }
}

/// A URL path segment that may be joined under the media root: nonempty,
/// not `.` or `..`, and without `/` or `\`.
pub open spec fn is_safe_segment(seg: Seq<char>) -> bool {
    &&& seg.len() > 0
    &&& seg != "."@
    &&& seg != ".."@
    &&& !has_char(seg, '/')
    &&& !has_char(seg, '\\')
}

/// The text of each segment.
pub open spec fn string_views(v: Seq<String>) -> Seq<Seq<char>> {
    Seq::new(v.len(), |i: int| v[i]@)
}

/// Checks the segments of a catch-all route (guarding against directory
/// traversal) and joins them into a relative path.
pub fn safe_relative(segments: &[String]) -> (r: Option<PathBuf>)
    ensures
        r is Some <==> (segments@.len() > 0 && forall|i: int|
            0 <= i < segments@.len() ==> is_safe_segment(#[trigger] segments@[i]@)),
        r matches Some(p) ==> path_components(p) == string_views(segments@) && path_is_text(p),
{
    proof {
        reveal_strlit(".");
        assert("."@ =~= seq!['.']);
    }
    if segments.len() == 0 {
        return None;
    }
    let mut rel = path_new();
    let mut i: usize = 0;
    while i < segments.len()
        invariant
            "."@ == seq!['.'],
            i <= segments@.len(),
            forall|j: int| 0 <= j < i ==> is_safe_segment(#[trigger] segments@[j]@),
            path_components(rel) == string_views(segments@).subrange(0, i as int),
            path_is_text(rel),
        decreases segments.len() - i,
    {
        let seg = segments[i].as_str();
        let cs = chars_of(seg);
        if cs.len() == 0 || str_eq(seg, ".") || str_eq(seg, "..") || has_char_exec(&cs, '/')
            || has_char_exec(&cs, '\\') {
            return None;
        }
        path_push(&mut rel, seg);
        assert(string_views(segments@).subrange(0, i + 1) =~= string_views(segments@).subrange(
            0,
            i as int,
        ).push(seg@));
        i += 1;
    }
    assert(string_views(segments@).subrange(0, segments@.len() as int) =~= string_views(
        segments@,
    ));
    Some(rel)
}

/// The marker that introduces a media reference.
pub open spec fn media_marker() -> Seq<char> {
    seq!['/', 'm', 'e', 'd', 'i', 'a', '/']
}

/// Length of the run of `0-9a-f` characters at the start of `s`.
pub open spec fn hex_run(s: Seq<char>) -> nat
    decreases s.len(),
{
    if s.len() > 0 && is_lower_hex(s[0]) {
        1 + hex_run(s.drop_first())
    } else {
        0
    }
}

/// A hex run never exceeds the text it is taken from.
pub proof fn lemma_hex_run_bound(s: Seq<char>)
    ensures
        hex_run(s) <= s.len(),
        forall|i: int| 0 <= i < hex_run(s) ==> is_lower_hex(#[trigger] s[i]),
        hex_run(s) < s.len() ==> !is_lower_hex(s[hex_run(s) as int]),
    decreases s.len(),
{
    if s.len() > 0 && is_lower_hex(s[0]) {
        lemma_hex_run_bound(s.drop_first());
        assert forall|i: int| 0 <= i < hex_run(s) implies is_lower_hex(#[trigger] s[i]) by {
            if i > 0 {
                assert(s[i] == s.drop_first()[i - 1]);
            }
        }
    }
}

/// The `/media/{key}` references in `t`, scanning left to right: at each
/// `/media/` the following run of `0-9a-f` is read, the reference counts
/// only when that run is exactly 32 long, and scanning resumes after the run.
pub open spec fn media_refs(t: Seq<char>) -> Seq<Seq<char>>
    decreases t.len(),
{
    if t.len() == 0 {
        Seq::<Seq<char>>::empty()
    } else if starts_with(t, media_marker()) {
        let h = hex_run(t.skip(7));
        proof {
            lemma_hex_run_bound(t.skip(7));
        }
        let rest = media_refs(t.skip(7 + h as int));
        if h == 32 {
            seq![t.subrange(0, 39)] + rest
        } else {
            rest
        }
    } else {
        media_refs(t.drop_first())
    }
}

/// A media reference: `/media/` followed by a storage key.
pub open spec fn is_media_ref(r: Seq<char>) -> bool {
    r.len() == 39 && r.subrange(0, 7) == media_marker() && is_storage_key(r.subrange(7, 39))
}

/// Every reference found in a text is `/media/` plus 32 lowercase hex
/// characters.
pub proof fn lemma_media_refs_shape(t: Seq<char>)
    ensures
        forall|i: int| 0 <= i < media_refs(t).len() ==> is_media_ref(#[trigger] media_refs(t)[i]),
    decreases t.len(),
{
    if t.len() == 0 {
    } else if starts_with(t, media_marker()) {
        let h = hex_run(t.skip(7));
        lemma_hex_run_bound(t.skip(7));
        lemma_media_refs_shape(t.skip(7 + h as int));
        let rest = media_refs(t.skip(7 + h as int));
        if h == 32 {
            let r = t.subrange(0, 39);
            assert(r.subrange(0, 7) =~= t.subrange(0, 7));
            assert forall|k: int| 0 <= k < 32 implies is_lower_hex(#[trigger] r.subrange(7, 39)[k]) by {
                assert(r.subrange(7, 39)[k] == t.skip(7)[k]);
            }
            assert(is_media_ref(r));
            assert forall|i: int| 0 <= i < media_refs(t).len() implies is_media_ref(#[trigger] media_refs(t)[i]) by {
                if i > 0 {
                    assert(media_refs(t)[i] == rest[i - 1]);
                }
            }
        } else {
            assert(media_refs(t) == rest);
        }
    } else {
        lemma_media_refs_shape(t.drop_first());
        assert(media_refs(t) == media_refs(t.drop_first()));
    }
}

/// The text of each string slice.
pub open spec fn str_views(v: Seq<&str>) -> Seq<Seq<char>> {
    Seq::new(v.len(), |i: int| v[i]@)
}

/// Length of the `0-9a-f` run in `s` starting at `from`.
fn hex_run_exec(s: &[char], from: usize) -> (n: usize)
    requires
        from <= s@.len(),
    ensures
        n == hex_run(s@.skip(from as int)),
{
    let mut k: usize = from;
    while k < s.len() && ((s[k] >= '0' && s[k] <= '9') || (s[k] >= 'a' && s[k] <= 'f'))
        invariant
            from <= k <= s@.len(),
            hex_run(s@.skip(from as int)) == (k - from) + hex_run(s@.skip(k as int)),
        decreases s.len() - k,
    {
        assert(s@.skip(k as int).drop_first() =~= s@.skip(k + 1));
        k += 1;
    }
    k - from
}

/// Every `/media/` reference in `text` (cover image and embedded media alike),
/// counting only 32-character lowercase hex keys, the form keys are stored in.
pub fn extract_media_urls(text: &str) -> (r: Vec<&str>)
    ensures
        str_views(r@) == media_refs(text@),
{
    proof {
        reveal_strlit("/media/");
    }
    let cs = chars_of(text);
    let marker = chars_of("/media/");
    assert(marker@ == media_marker());
    let mut out: Vec<&str> = Vec::new();
    let mut i: usize = 0;
    assert(cs@.skip(0) =~= cs@);
    while i < cs.len()
        invariant
            cs@ == text@,
            marker@ == media_marker(),
            i <= cs@.len(),
            media_refs(text@) == str_views(out@) + media_refs(cs@.skip(i as int)),
        decreases cs.len() - i,
    {
        let ghost t = cs@.skip(i as int);
        if occurs_at_exec(&cs, &marker, i) {
            assert(t.subrange(0, 7) =~= cs@.subrange(i as int, i + 7));
            assert(starts_with(t, media_marker()));
            let h = hex_run_exec(&cs, i + 7);
            assert(t.skip(7) =~= cs@.skip(i + 7));
            proof {
                lemma_hex_run_bound(t.skip(7));
            }
            assert(t.skip(7 + h) =~= cs@.skip(i + 7 + h));
            if h == 32 {
                let found = text.substring_char(i, i + 39);
                assert(found@ =~= t.subrange(0, 39));
                let ghost before = out@;
                out.push(found);
                assert(str_views(out@) =~= str_views(before) + seq![found@]);
            }
            i = i + 7 + h;
        } else {
            assert(!starts_with(t, media_marker())) by {
                if starts_with(t, media_marker()) {
                    assert(cs@.subrange(i as int, i + 7) =~= t.subrange(0, 7));
                }
            }
            assert(t.drop_first() =~= cs@.skip(i + 1));
            i += 1;
        }
    }
    assert(cs@.skip(i as int) =~= Seq::<char>::empty());
    assert(str_views(out@) + Seq::<Seq<char>>::empty() =~= str_views(out@));
    out
}

/// A fresh storage key: a random UUID in its simple form (32 lowercase hex characters).
pub fn hex_key() -> (r: String)
    ensures
        r@.len() == 32,
        forall|i: int| 0 <= i < r@.len() ==> is_lower_hex(#[trigger] r@[i]),
{
    crate::common::rand::new_uuid_simple()
}

/// A storage key: 32 lowercase hex characters.
pub open spec fn is_storage_key(k: Seq<char>) -> bool {
    k.len() == 32 && forall|i: int| 0 <= i < k.len() ==> is_lower_hex(#[trigger] k[i])
}

/// Where a new image is stored: its file name under the media root
/// (`{key}.{ext}`) and its public URL (`/media/{key}.{ext}`).
pub struct ImageTarget {
    pub file_name: String,
    pub url: String,
}

/// Names the file for a new image with extension `ext` under a fresh key.
pub fn new_image_target(ext: &str) -> (r: ImageTarget)
    ensures
        exists|key: Seq<char>| #![auto]
            is_storage_key(key)
            && r.file_name@ == key + "."@ + ext@
            && r.url@ == "/media/"@ + key + "."@ + ext@,
{
    let key = hex_key();
    let file_name = crate::text::cat3(key.as_str(), ".", ext);
    let url = crate::text::cat4("/media/", key.as_str(), ".", ext);
    assert(is_storage_key(key@));
    ImageTarget { file_name, url }
}

/// Where a new video is stored: its directory under the media root
/// (`{key}`), the uploaded original's file name in it (`original.{ext}`),
/// and the public URL of its HLS playlist (`/media/{key}/hls/playlist.m3u8`);
/// the HLS output goes to `{key}/hls`.
pub struct VideoTarget {
    pub dir: String,
    pub original: String,
    pub url: String,
}

/// Names the files for a new video with extension `ext` under a fresh key.
pub fn new_video_target(ext: &str) -> (r: VideoTarget)
    ensures
        is_storage_key(r.dir@),
        r.original@ == "original."@ + ext@,
        r.url@ == "/media/"@ + r.dir@ + "/hls/playlist.m3u8"@,
{
    let key = hex_key();
    let original = crate::text::cat2("original.", ext);
    let url = crate::text::cat3("/media/", key.as_str(), "/hls/playlist.m3u8");
    VideoTarget { dir: key, original, url }
}

/// Why an upload's URL names nothing to remove.
#[derive(Debug, Clone, Copy, PartialEq, Eq, Structural)]
pub enum RemovalError {
    /// The URL does not start with `/media/`.
    NotMedia,
    /// The rest of the URL has no components or no file name.
    Malformed,
}

/// The codec types of a probed file's streams hold a video stream: the
/// stream list is there and one entry's codec type is `video`.
pub open spec fn has_video_stream(streams: Option<Seq<Option<String>>>) -> bool {
    match streams {
        Some(v) => exists|i: int| 0 <= i < v.len() && is_video_type(#[trigger] v[i]),
        None => false,
    }
}

/// A stream's codec type is the text `video`.
pub open spec fn is_video_type(codec_type: Option<String>) -> bool {
    codec_type matches Some(t) && t@ == "video"@
}

/// The verdict on a probed video: `Ok` when its stream list (the codec type
/// of each stream, where it is a text) holds a video stream, else the error
/// `no video stream`.
pub fn check_video_streams(streams: Option<&[Option<String>]>) -> (r: Result<(), String>)
    ensures
        r is Ok <==> has_video_stream(match streams { Some(v) => Some(v@), None => None }),
        r matches Err(e) ==> e@ == "no video stream"@,
{
    proof {
        reveal_strlit("video");
        reveal_strlit("no video stream");
    }
    match streams {
        None => Err("no video stream".to_string()),
        Some(v) => {
            let mut i: usize = 0;
            while i < v.len()
                invariant
                    streams == Some(v),
                    i <= v@.len(),
                    forall|j: int| 0 <= j < i ==> !is_video_type(#[trigger] v@[j]),
                decreases v.len() - i,
            {
                match &v[i] {
                    Some(t) => {
                        if str_eq(t.as_str(), "video") {
                            let ghost sv = v@;
                            assert(is_video_type(sv[i as int]));
                            assert(has_video_stream(Some(sv))) by {
                                let o: Option<Seq<Option<String>>> = Some(sv);
                                assert(o->0 == sv);
                            }
                            return Ok(());
                        }
                    },
                    None => {},
                }
                i += 1;
            }
            Err("no video stream".to_string())
        },
    }
}

/// The components of the media root.
pub open spec fn media_root_components() -> Seq<Seq<char>> {
    seq![seq!['d', 'a', 't', 'a'], seq!['m', 'e', 'd', 'i', 'a']]
}

/// What removing the upload at `url` removes: for `/media/{rest}` with a
/// file name, a video's key directory when `rest` is `{key}/...` (its
/// first component a name, more components after it: the uploaded file and the
/// HLS output go together); otherwise the path `rest` under the media root
/// when that has an extension (a stored image `{key}.{ext}`), else the media
/// root's entry for `rest`'s first component.
pub open spec fn removal_plan(url: Seq<char>) -> Result<Seq<Seq<char>>, RemovalError> {
    if !starts_with(url, "/media/"@) {
        Err(RemovalError::NotMedia)
    } else {
        let rel = parsed_components(url.subrange(7, url.len() as int));
        if rel.len() == 0 || !has_file_name(rel) {
            Err(RemovalError::Malformed)
        } else if rel.len() >= 2 && is_normal(rel[0]) {
            Ok(joined(media_root_components(), seq![rel[0]]))
        } else {
            let abs = joined(media_root_components(), rel);
            if has_extension(abs) {
                Ok(abs)
            } else {
                Ok(joined(media_root_components(), seq![rel[0]]))
            }
        }
    }
}

/// The path to remove for the upload at `url` (a file or a directory; see
/// `removal_plan`).
pub fn removal_target(url: &str) -> (r: Result<PathBuf, RemovalError>)
    ensures
        match removal_plan(url@) {
            Ok(c) => r matches Ok(p) && path_components(p) == c && path_is_text(p),
            Err(e) => r == Err::<PathBuf, RemovalError>(e),
        },
{
    proof {
        reveal_strlit("/media/");
        assert("/media/"@.len() == 7);
    }
    let cs = chars_of(url);
    if !starts_with_exec(&cs, &chars_of("/media/")) {
        return Err(RemovalError::NotMedia);
    }
    let mut rest: Vec<char> = Vec::new();
    let mut i: usize = 7;
    while i < cs.len()
        invariant
            7 <= i <= cs@.len(),
            rest@ == cs@.subrange(7, i as int),
        decreases cs.len() - i,
    {
        rest.push(cs[i]);
        i += 1;
        assert(rest@ =~= cs@.subrange(7, i as int));
    }
    let rest_text = crate::text::string_of(rest.as_slice());
    let rel = path_from(rest_text.as_str());
    let count = path_component_count(&rel);
    if count == 0 || !path_has_file_name(&rel) {
        return Err(RemovalError::Malformed);
    }
    let root = media_root();
    let first = match path_first(&rel) {
        Some(f) => f,
        None => return Err(RemovalError::Malformed),
    };
    if count >= 2 && path_has_file_name(&first) {
        return Ok(path_join(&root, &first));
    }
    let abs = path_join(&root, &rel);
    if path_has_extension(&abs) {
        Ok(abs)
    } else {
        Ok(path_join(&root, &first))
    }
}

/// The last two characters of a text that ends with `s` are those of `s`.
proof fn lemma_suffix_tail(name: Seq<char>, s: Seq<char>)
    requires
        ends_with(name, s),
        s.len() >= 2,
    ensures
        name[name.len() - 1] == s[s.len() - 1],
        name[name.len() - 2] == s[s.len() - 2],
{
    let t = name.subrange(name.len() - s.len(), name.len() as int);
    assert(t[s.len() - 1] == name[name.len() - 1]);
    assert(t[s.len() - 2] == name[name.len() - 2]);
}

/// Every whitelisted image and video extension, and each kind of HLS
/// output, is served with its own content type; a file name with none of
/// these endings is served as generic binary data.
pub proof fn lemma_served_content_types(name: Seq<char>)
    ensures
        ends_with(name, "jpg"@) ==> content_type_for_name(name) == "image/jpeg"@,
        ends_with(name, "png"@) ==> content_type_for_name(name) == "image/png"@,
        ends_with(name, "webp"@) ==> content_type_for_name(name) == "image/webp"@,
        ends_with(name, "gif"@) ==> content_type_for_name(name) == "image/gif"@,
        ends_with(name, "mp4"@) ==> content_type_for_name(name) == "video/mp4"@,
        ends_with(name, "webm"@) ==> content_type_for_name(name) == "video/webm"@,
        ends_with(name, "mov"@) ==> content_type_for_name(name) == "video/quicktime"@,
        ends_with(name, ".m3u8"@) ==> content_type_for_name(name) == "application/vnd.apple.mpegurl"@,
        ends_with(name, ".ts"@) ==> content_type_for_name(name) == "video/mp2t"@,
        (!ends_with(name, "jpg"@) && !ends_with(name, "png"@) && !ends_with(name, "webp"@) && !ends_with(name, "gif"@) && !ends_with(name, "mp4"@) && !ends_with(name, "webm"@) && !ends_with(name, "mov"@) && !ends_with(name, ".m3u8"@) && !ends_with(name, ".ts"@)) ==> content_type_for_name(name) == "application/octet-stream"@,
{
    reveal_strlit("jpg");
    assert("jpg"@ =~= seq!['j', 'p', 'g']);
    if ends_with(name, "jpg"@) {
        lemma_suffix_tail(name, "jpg"@);
    }
    reveal_strlit("png");
    assert("png"@ =~= seq!['p', 'n', 'g']);
    if ends_with(name, "png"@) {
        lemma_suffix_tail(name, "png"@);
    }
    reveal_strlit("webp");
    assert("webp"@ =~= seq!['w', 'e', 'b', 'p']);
    if ends_with(name, "webp"@) {
        lemma_suffix_tail(name, "webp"@);
    }
    reveal_strlit("gif");
    assert("gif"@ =~= seq!['g', 'i', 'f']);
    if ends_with(name, "gif"@) {
        lemma_suffix_tail(name, "gif"@);
    }
    reveal_strlit("mp4");
    assert("mp4"@ =~= seq!['m', 'p', '4']);
    if ends_with(name, "mp4"@) {
        lemma_suffix_tail(name, "mp4"@);
    }
    reveal_strlit("webm");
    assert("webm"@ =~= seq!['w', 'e', 'b', 'm']);
    if ends_with(name, "webm"@) {
        lemma_suffix_tail(name, "webm"@);
    }
    reveal_strlit("mov");
    assert("mov"@ =~= seq!['m', 'o', 'v']);
    if ends_with(name, "mov"@) {
        lemma_suffix_tail(name, "mov"@);
    }
    reveal_strlit(".m3u8");
    assert(".m3u8"@ =~= seq!['.', 'm', '3', 'u', '8']);
    if ends_with(name, ".m3u8"@) {
        lemma_suffix_tail(name, ".m3u8"@);
    }
    reveal_strlit(".ts");
    assert(".ts"@ =~= seq!['.', 't', 's']);
    if ends_with(name, ".ts"@) {
        lemma_suffix_tail(name, ".ts"@);
    }
}

} // verus!
