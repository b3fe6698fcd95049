use cyberdesk::memory::{is_favorite, is_recordable, record_visit, toggle_favorite, update_title};

#[test]
fn only_real_pages_are_recordable() {
    assert!(is_recordable("https://one.example/"));
    assert!(!is_recordable(""));
    assert!(!is_recordable("about:blank"));
    assert!(!is_recordable("cyberdesk://settings/"));
    assert!(is_recordable("about:blank#x"));
}

#[test]
fn internal_and_blank_urls_are_not_favoritable() {
    assert!(toggle_favorite("", "empty").is_none());
    assert!(toggle_favorite("about:blank", "blank").is_none());
    assert!(toggle_favorite("cyberdesk://settings/", "settings").is_none());
    let e = toggle_favorite("https://two.example/", "Two").unwrap();
    assert_eq!((e.url.as_str(), e.title.as_str()), ("https://two.example/", "Two"));
    assert!(!is_favorite("cyberdesk://x/", true));
    assert!(is_favorite("https://x/", true));
    assert!(!is_favorite("https://x/", false));
}

#[test]
fn visits_and_titles_skip_internal_pages_and_empty_titles() {
    assert!(record_visit("https://a/", "").is_some());
    assert!(record_visit("about:blank", "x").is_none());
    assert!(update_title("https://a/", "").is_none());
    let e = update_title("https://a/", "A").unwrap();
    assert_eq!(e.title, "A");
    assert!(update_title("cyberdesk://x/", "A").is_none());
}
