use std::path::PathBuf;
use raolv::common::media::{new_image_target, new_video_target, removal_target, RemovalError};
use raolv::db::arcs::{arc_media_refs, build_where, page_start, purge_step, PurgeEvent, PurgeStep};
use raolv::db::new_record_key;
use raolv::db::users::{is_email_account, is_token_shaped, may_resend_activation, reset_username};
use raolv::i18n::loader::{
    detect, is_real_locale, is_supported_code, locale_from_path, menu_langs, path_locale, supported_locales,
};
use raolv::models::arc::{pick_home_arcs, Arc, ArcType};
use raolv::models::page::{page_links, PageInfo};

fn arc(id: &str, t: ArcType) -> Arc {
    Arc {
        id: id.to_string(),
        title: format!("title {id}"),
        arc_type: t,
        body: None,
        summary: None,
        thumbnail: None,
        media_url: None,
        author_id: None,
        author_name: None,
        topics: None,
        created_at: "2024-01-01".to_string(),
        view_count: 0,
    }
}

#[test]
fn page_info_clamps_and_flags() {
    let p = PageInfo::new(25, 2, 10);
    assert_eq!((p.current_page, p.total_pages, p.total_count, p.has_previous, p.has_next), (2, 3, 25, true, true));
    let p = PageInfo::new(25, 9, 10);
    assert_eq!((p.current_page, p.total_pages, p.has_previous, p.has_next), (3, 3, true, false));
    let p = PageInfo::new(0, 5, 10);
    assert_eq!((p.current_page, p.total_pages, p.has_previous, p.has_next), (1, 1, false, false));
    let p = PageInfo::new(30, 0, 10);
    assert_eq!((p.current_page, p.total_pages), (1, 3));
    let p = PageInfo::new(0, 1, 0);
    assert_eq!((p.current_page, p.total_pages), (1, 1));
}

#[test]
fn page_links_pick_the_separator() {
    let p = PageInfo::new(30, 2, 10);
    assert_eq!(page_links("/en/arcs", &p), ("/en/arcs?page=1".to_string(), "/en/arcs?page=3".to_string()));
    assert_eq!(page_links("/en/arcs?q=cat", &p), ("/en/arcs?q=cat&page=1".to_string(), "/en/arcs?q=cat&page=3".to_string()));
    let first = PageInfo::new(30, 1, 10);
    assert_eq!(page_links("/x", &first).0, "/x?page=1");
}

#[test]
fn home_sections_take_three_of_each_kind_in_order() {
    let all = vec![
        arc("v1", ArcType::Video),
        arc("a1", ArcType::Article),
        arc("v2", ArcType::Video),
        arc("p1", ArcType::Photo),
        arc("v3", ArcType::Video),
        arc("v4", ArcType::Video),
        arc("a2", ArcType::Article),
    ];
    let (v, a, p) = pick_home_arcs(all);
    let ids = |xs: &Vec<Arc>| xs.iter().map(|x| x.id.clone()).collect::<Vec<_>>();
    assert_eq!(ids(&v), vec!["v1", "v2", "v3"]);
    assert_eq!(ids(&a), vec!["a1", "a2"]);
    assert_eq!(ids(&p), vec!["p1"]);
    assert_eq!(ArcType::Video.as_str(), "video");
    assert_eq!(ArcType::Article.as_str(), "article");
    assert_eq!(ArcType::Photo.as_str(), "photo");
}

#[test]
fn listing_filters() {
    let (c, p) = build_where(None, None);
    assert_eq!(c, "");
    assert!(p.is_empty());
    let (c, p) = build_where(Some("video"), None);
    assert_eq!(c, " WHERE arc_type = $arc_type");
    assert_eq!(p, vec![("arc_type", "video".to_string())]);
    let (c, p) = build_where(Some("photo"), Some("cat"));
    assert_eq!(c, " WHERE arc_type = $arc_type AND (title ~ $search OR body ~ $search OR topics ~ $search)");
    assert_eq!(p, vec![("arc_type", "photo".to_string()), ("search", "cat".to_string())]);
    let (c, p) = build_where(None, Some("cat"));
    assert_eq!(c, " WHERE (title ~ $search OR body ~ $search OR topics ~ $search)");
    assert_eq!(p, vec![("search", "cat".to_string())]);
    let (c, _) = build_where(None, Some(""));
    assert_eq!(c, "");
    assert_eq!(page_start(1, 12), 0);
    assert_eq!(page_start(3, 12), 24);
}

#[test]
fn media_references_of_an_item() {
    let mut a = arc("x", ArcType::Article);
    a.media_url = Some("/media/aaaaaaaaaaaaaaaaaaaaaaaaaaaaaaaa/index.m3u8".to_string());
    a.body = Some("see /media/bbbbbbbbbbbbbbbbbbbbbbbbbbbbbbbb.png and /media/short".to_string());
    assert_eq!(
        arc_media_refs(&a),
        vec![
            "/media/aaaaaaaaaaaaaaaaaaaaaaaaaaaaaaaa/index.m3u8".to_string(),
            "/media/bbbbbbbbbbbbbbbbbbbbbbbbbbbbbbbb".to_string(),
        ]
    );
    a.media_url = Some(String::new());
    a.body = None;
    assert!(arc_media_refs(&a).is_empty());
}

#[test]
fn token_and_account_shapes() {
    assert!(is_token_shaped(&"aB3".repeat(21).chars().chain("f".chars()).collect::<String>()));
    assert!(!is_token_shaped(&"a".repeat(63)));
    assert!(!is_token_shaped(&"g".repeat(64)));
    assert!(is_email_account("a@b.c"));
    assert!(!is_email_account("alice"));
    let k = new_record_key();
    assert_eq!(k.len(), 32);
    assert!(k.chars().all(|c| c.is_ascii_digit() || ('a'..='f').contains(&c)));
    assert_ne!(k, new_record_key());
}

#[test]
fn locales() {
    assert_eq!(supported_locales(), vec!["en", "zh"]);
    assert!(is_supported_code("zh"));
    assert!(!is_supported_code("fr"));
    assert_eq!(menu_langs("zh"), vec!["zh", "en"]);
    assert_eq!(menu_langs("en"), vec!["en", "zh"]);
    assert_eq!(menu_langs("fr"), vec!["en", "zh"]);
    assert_eq!(path_locale("/zh/arcs"), Some("zh".to_string()));
    assert_eq!(path_locale("/fr/arcs"), None);
    assert_eq!(path_locale("/"), None);
    assert!(is_real_locale("en-US"));
    assert!(!is_real_locale("favicon.svg"));
}

#[test]
fn new_media_targets() {
    let t = new_image_target("png");
    assert_eq!(t.file_name.len(), 32 + 4);
    assert!(t.file_name.ends_with(".png"));
    assert_eq!(t.url, format!("/media/{}", t.file_name));
    let v = new_video_target("mp4");
    assert_eq!(v.dir.len(), 32);
    assert!(v.dir.chars().all(|c| c.is_ascii_digit() || ('a'..='f').contains(&c)));
    assert_eq!(v.original, "original.mp4");
    assert_eq!(v.url, format!("/media/{}/hls/playlist.m3u8", v.dir));
}

#[test]
fn upload_removal_targets() {
    assert_eq!(removal_target("/media/abc.png"), Ok(PathBuf::from("data/media/abc.png")));
    assert_eq!(removal_target("/media/key/hls/playlist.m3u8"), Ok(PathBuf::from("data/media/key")));
    assert_eq!(removal_target("/media/key/original.mp4"), Ok(PathBuf::from("data/media/key")));
    assert_eq!(removal_target("/media/key"), Ok(PathBuf::from("data/media/key")));
    assert_eq!(removal_target("/media/key/hls"), Ok(PathBuf::from("data/media/key")));
    assert_eq!(removal_target("/media/.hidden"), Ok(PathBuf::from("data/media/.hidden")));
    assert_eq!(removal_target("/img/x.png"), Err(RemovalError::NotMedia));
    assert_eq!(removal_target("/media/"), Err(RemovalError::Malformed));
    assert_eq!(removal_target("/media/a/.."), Err(RemovalError::Malformed));
    assert_eq!(removal_target("/media/./x.png"), Ok(PathBuf::from("data/media/x.png")));
}

#[test]
fn request_locale_detection() {
    assert_eq!(detect(Some("zh-CN"), None), ("zh".to_string(), false));
    assert_eq!(detect(Some("fr"), Some("zh;q=0.9, en;q=0.5")), ("zh".to_string(), true));
    assert_eq!(detect(None, None), ("en".to_string(), false));
    assert_eq!(detect(Some("!!"), Some("fr")), ("en".to_string(), false));
    assert_eq!(locale_from_path("/zh/arcs", Some("en"), None), ("zh".to_string(), false));
    assert_eq!(locale_from_path("/", Some("zh"), None), ("zh".to_string(), false));
    assert_eq!(locale_from_path("/favicon.svg", None, Some("en-GB")), ("en".to_string(), true));
}

#[test]
fn reset_tokens_and_resends() {
    assert_eq!(reset_username(Some(10), Some("al".to_string()), 9), Some("al".to_string()));
    assert_eq!(reset_username(Some(10), Some("al".to_string()), 10), None);
    assert_eq!(reset_username(None, Some("al".to_string()), 0), None);
    assert!(may_resend_activation(0));
    assert!(!may_resend_activation(1));
}

#[test]
fn page_start_wraps_like_a_signed_cast() {
    assert_eq!(page_start(2, u64::MAX), -1);
    assert_eq!(page_start(2, 1u64 << 63), i64::MIN);
    assert_eq!(page_start(2, (1u64 << 63) - 1), i64::MAX);
}

#[test]
fn purge_removes_only_unused_media() {
    assert!(matches!(purge_step(PurgeEvent::Start), PurgeStep::FindArc));
    match purge_step(PurgeEvent::ArcFound(None)) {
        PurgeStep::Fail(m) => assert_eq!(m, "内容不存在"),
        _ => panic!("a missing item fails"),
    }
    let mut a = arc("x", ArcType::Video);
    a.media_url = Some("/media/aaaaaaaaaaaaaaaaaaaaaaaaaaaaaaaa/hls/playlist.m3u8".to_string());
    a.body = Some("/media/bbbbbbbbbbbbbbbbbbbbbbbbbbbbbbbb.png".to_string());
    let refs = match purge_step(PurgeEvent::ArcFound(Some(a))) {
        PurgeStep::Delete(refs) => refs,
        _ => panic!("the record is deleted next"),
    };
    assert_eq!(refs.len(), 2);
    match purge_step(PurgeEvent::Deleted(refs.clone(), Err("db down".to_string()))) {
        PurgeStep::Fail(m) => assert_eq!(m, "db down"),
        _ => panic!("a failed delete fails"),
    }
    assert!(matches!(purge_step(PurgeEvent::Deleted(refs.clone(), Ok(()))), PurgeStep::CheckUse(_, 0)));
    assert!(matches!(purge_step(PurgeEvent::Checked(refs.clone(), 0, Ok(true))), PurgeStep::CheckUse(_, 1)));
    assert!(matches!(purge_step(PurgeEvent::Checked(refs.clone(), 1, Ok(false))), PurgeStep::RemoveMedia(_, 1)));
    assert!(matches!(purge_step(PurgeEvent::Removed(refs.clone(), 1)), PurgeStep::Done));
    assert!(matches!(purge_step(PurgeEvent::Checked(refs.clone(), 1, Ok(true))), PurgeStep::Done));
    assert!(matches!(purge_step(PurgeEvent::Deleted(Vec::new(), Ok(()))), PurgeStep::Done));
}
