use cyberdesk::store::{like_escape, like_pattern, SessionSlot, Suggestion, HISTORY_CAP};

#[test]
fn like_escape_makes_wildcards_literal() {
    assert_eq!(like_escape("50%_off\\now"), "50\\%\\_off\\\\now");
    assert_eq!(like_escape("plain"), "plain");
    assert_eq!(like_escape(""), "");
}

#[test]
fn search_pattern_is_trimmed_lowercased_and_escaped() {
    assert_eq!(like_pattern("  Rust_Lang ").as_deref(), Some("%rust\\_lang%"));
    assert_eq!(like_pattern("ÄÖ").as_deref(), Some("%äö%"));
    assert_eq!(like_pattern("   "), None);
    assert_eq!(like_pattern(""), None);
}

#[test]
fn rows_copy_field_for_field() {
    let s = SessionSlot { position: 2, url: "https://a/".into(), width_units: 2, active: true, tor: true };
    let d = s.duplicate();
    assert_eq!((d.position, d.url.as_str(), d.width_units, d.active, d.tor), (2, "https://a/", 2, true, true));
    let g = Suggestion { url: "u".into(), title: "t".into(), favorite: true };
    assert!(g.favorite);
    assert_eq!(HISTORY_CAP, 10_000);
}
