use cyberdesk::browser::{
    classify_input_for, clear_slot_identity, common_screen_for, fallback_seed, fresh_seed_hex,
    hex_of, identity_age_ms, init_identity_seed, modifier_flags, persist_current_identity,
    rotate_global_identity, rotate_slot_identity, rotation_epoch, scheme_of, search_url_for,
    should_harden, slot_effective_seed, urlencode,
};
use cyberdesk::settings::{
    persisted_identity_born, persisted_identity_seed, Settings, KEY_ROTATE_NEW_CIRCUIT,
    KEY_ROTATE_ON_RESTART,
};
use cyberdesk::tor::TorState;

#[test]
fn fresh_seed_is_hex_and_unique() {
    let a = fresh_seed_hex(7, 11);
    let b = fresh_seed_hex(7, 11);
    assert_eq!(a.len(), 32, "16 bytes -> 32 hex chars");
    assert!(a.chars().all(|c| c.is_ascii_hexdigit() && !c.is_ascii_uppercase()));
    assert_ne!(a, b, "two rotations must yield different seeds");
}

#[test]
fn screen_reports_the_preset_when_viewport_fits() {
    assert_eq!(common_screen_for((1920, 1080), (800, 1000)), (1920, 1080));
    assert_eq!(common_screen_for((1280, 720), (600, 700)), (1280, 720));
    assert_eq!(common_screen_for((1600, 900), (1500, 850)), (1600, 900));
}

#[test]
fn screen_never_contradicts_the_viewport() {
    assert_eq!(common_screen_for((1920, 1080), (2000, 1300)), (2560, 1440));
    assert_eq!(common_screen_for((1280, 720), (600, 1000)), (1920, 1080));
    for &(vw, vh) in &[(3000u32, 1600u32), (5000, 2000), (1000, 1000)] {
        let (sw, sh) = common_screen_for((1920, 1080), (vw, vh));
        assert!(sw >= vw && sh >= vh, "reported {sw}x{sh} must contain viewport {vw}x{vh}");
    }
}

#[test]
fn screen_falls_back_to_real_size_past_the_ladder() {
    assert_eq!(common_screen_for((1920, 1080), (5000, 3000)), (5000, 3000));
}

#[test]
fn each_engine_routes_to_its_own_host() {
    let cases = [
        ("duckduckgo", "https://duckduckgo.com/?q="),
        ("bing", "https://www.bing.com/search?q="),
        ("startpage", "https://www.startpage.com/sp/search?query="),
        ("brave", "https://search.brave.com/search?q="),
        ("google", "https://www.google.com/search?q="),
    ];
    for (engine, prefix) in cases {
        let url = search_url_for(engine, "rust borrow checker");
        assert!(url.starts_with(prefix), "{engine} must search on its own host, got {url}");
    }
}

#[test]
fn non_google_engines_never_touch_google() {
    for engine in ["duckduckgo", "bing", "startpage", "brave"] {
        let url = search_url_for(engine, "how to test a search engine");
        assert!(!url.contains("google"), "{engine} search leaked toward google: {url}");
    }
}

#[test]
fn unknown_engine_falls_back_to_duckduckgo() {
    assert!(search_url_for("", "x").starts_with("https://duckduckgo.com/?q="));
    assert!(search_url_for("altavista", "x").starts_with("https://duckduckgo.com/?q="));
}

#[test]
fn query_vs_url_classification() {
    assert!(classify_input_for("duckduckgo", "rust borrow checker")
        .starts_with("https://duckduckgo.com/?q="));
    assert_eq!(classify_input_for("duckduckgo", "example.com"), "https://example.com");
    assert_eq!(classify_input_for("duckduckgo", "http://example.com/a"), "http://example.com/a");
    assert_eq!(classify_input_for("duckduckgo", "cyberdesk://start/"), "cyberdesk://start/");
    assert_eq!(classify_input_for("duckduckgo", "localhost:8080"), "https://localhost:8080");
    assert!(classify_input_for("duckduckgo", "what is web 2.0")
        .starts_with("https://duckduckgo.com/?q="));
    assert_eq!(classify_input_for("duckduckgo", "  "), "about:blank");
}

#[test]
fn queries_are_urlencoded() {
    assert_eq!(search_url_for("duckduckgo", "a b&c=d?"), "https://duckduckgo.com/?q=a+b%26c%3Dd%3F");
}

#[test]
fn urlencode_escapes_each_utf8_byte_in_upper_case_hex() {
    assert_eq!(urlencode("Az09-_.~"), "Az09-_.~");
    assert_eq!(urlencode("ä"), "%C3%A4");
    assert_eq!(urlencode(" /"), "+%2F");
    assert_eq!(urlencode(""), "");
}

#[test]
fn classification_edge_cases() {
    assert_eq!(classify_input_for("bing", " localhost "), "https://localhost");
    assert_eq!(classify_input_for("bing", "localhost/x"), "https://localhost/x");
    assert_eq!(classify_input_for("bing", "a\u{3000}b.c"), "https://www.bing.com/search?q=a%E3%80%80b.c");
    assert_eq!(classify_input_for("brave", "plain words"), "https://search.brave.com/search?q=plain+words");
}

#[test]
fn scheme_hint_and_hardening_targets() {
    assert_eq!(scheme_of("https://a"), "https");
    assert_eq!(scheme_of("http://a"), "http");
    assert_eq!(scheme_of("ftp://a"), "other");
    assert!(should_harden("https://example.com/"));
    assert!(!should_harden(""));
    assert!(!should_harden("cyberdesk://settings/"));
    assert!(!should_harden("chrome-extension://x/"));
    assert!(!should_harden("devtools://devtools/"));
}

#[test]
fn modifier_flags_set_one_bit_per_key() {
    assert_eq!(modifier_flags(false, false, false), 0);
    assert_eq!(modifier_flags(true, false, false), 2);
    assert_eq!(modifier_flags(false, true, false), 4);
    assert_eq!(modifier_flags(false, false, true), 8);
    assert_eq!(modifier_flags(true, true, true), 14);
}

#[test]
fn hex_and_fallback_seed_bytes() {
    assert_eq!(hex_of(&[0x00, 0x9f, 0xff]), "009fff");
    let b = fallback_seed(0x0403_0201, 0);
    assert_eq!(b[0], 0x01 ^ 158);
    assert_eq!(b[1], 0x02 ^ ((31 + 158) % 256) as u8);
    assert_eq!(b[4], 0x01 ^ ((4 * 31 + 158) % 256) as u8);
}

#[test]
fn global_rotation_reseeds_every_window_and_persists_a_stable_identity() {
    let mut s = Settings::new();
    cyberdesk::settings::set(&mut s, KEY_ROTATE_ON_RESTART, false).unwrap();
    cyberdesk::settings::set(&mut s, KEY_ROTATE_NEW_CIRCUIT, true).unwrap();
    let mut tor = TorState::new();
    let mut id = init_identity_seed(&mut s, "aaaa", 1000);
    assert_eq!(slot_effective_seed(&id, 0), "aaaa");
    assert_eq!(persisted_identity_seed(&s).as_deref(), Some("aaaa"));
    assert_eq!(persisted_identity_born(&s), Some(1000));
    rotate_slot_identity(&mut id, 1, "bbbb".to_string(), &s, true, &mut tor);
    assert_eq!(slot_effective_seed(&id, 1), "bbbb");
    assert_eq!(slot_effective_seed(&id, 0), "aaaa");
    assert_eq!(cyberdesk::tor::status(&tor), 0);
    rotate_global_identity(&mut id, "cccc".to_string(), 5000, &mut s, &mut tor);
    for i in 0..4 {
        assert_eq!(slot_effective_seed(&id, i), "cccc");
    }
    assert_eq!(rotation_epoch(&id), 1);
    assert_eq!(identity_age_ms(&id, 7000), 2000);
    assert_eq!(identity_age_ms(&id, 10), 0);
    assert_eq!(persisted_identity_seed(&s).as_deref(), Some("cccc"));
    assert_eq!(persisted_identity_born(&s), Some(5000));
    // The next launch restores the same identity.
    let mut s2 = Settings::new();
    cyberdesk::settings::set(&mut s2, KEY_ROTATE_ON_RESTART, false).unwrap();
    persist_current_identity(&id, &mut s2);
    let id2 = init_identity_seed(&mut s2, "dddd", 9000);
    assert_eq!(slot_effective_seed(&id2, 2), "cccc");
    assert_eq!(identity_age_ms(&id2, 9000), 4000);
}

#[test]
fn rotation_on_restart_takes_the_fresh_seed_and_slot_reuse_clears_overrides() {
    let mut s = Settings::new();
    let mut tor = TorState::new();
    let mut id = init_identity_seed(&mut s, "ffff", 42);
    assert_eq!(persisted_identity_seed(&s), None);
    rotate_slot_identity(&mut id, 3, "eeee".to_string(), &s, true, &mut tor);
    assert_eq!(slot_effective_seed(&id, 3), "eeee");
    clear_slot_identity(&mut id, 3);
    assert_eq!(slot_effective_seed(&id, 3), "ffff");
    // A window id past the last slot changes nothing.
    rotate_slot_identity(&mut id, 9, "9999".to_string(), &s, true, &mut tor);
    assert_eq!(slot_effective_seed(&id, 9), "ffff");
}
