use raolv::i18n::loader::{normalize_locale_path, swap_locale};

#[test]
fn second_switch_replaces_first() {
    let links = ["/", "/about?a=1", "/zh/sign-in?next=/x", "/en-GB/users/7", "/arcs/3"];
    for link in links {
        for first in ["en", "zh"] {
            for second in ["en", "zh"] {
                assert_eq!(
                    swap_locale(&swap_locale(link, first), second),
                    swap_locale(link, second)
                );
            }
        }
    }
    assert_eq!(swap_locale(&swap_locale("/about?a=1", "zh"), "en"), "/en/about?a=1");
}

#[test]
fn rewritten_path_needs_no_second_rewrite() {
    for path in ["/zh-CN/arcs", "/zh-Hans", "/EN/sign-in", "/fr/about", "/en-US/x/y"] {
        let rewritten = normalize_locale_path(path).expect("a rewrite");
        assert_eq!(normalize_locale_path(&rewritten), None);
    }
    assert_eq!(normalize_locale_path("/zh-CN/arcs"), Some("/zh/arcs".to_string()));
}
