use cyberdesk::harden::Level;
use cyberdesk::settings::{
    boot_level, engine_id, engine_name, glow_intensity_percent, hardening_level, init,
    level_code, level_from_code, persisted_identity_born, persisted_identity_seed,
    rotate_interval_min, screen_code, screen_dims, screen_name, screen_preset_dims,
    screen_preset_name, search_engine, set_glow_intensity, set_rotate_interval,
    set_screen_preset, set_search_engine, snapshot_json, store_identity_born,
    store_identity_seed, tor_default, tor_enabled, Settings, DEFAULT_ENGINE,
};

#[test]
fn persisted_red_or_strict_boots_as_yellow_never_the_locked_bunker() {
    assert_eq!(boot_level(Level::Red), Level::Yellow);
    assert_eq!(boot_level(Level::parse("strict").unwrap()), Level::Yellow);
    assert_eq!(boot_level(Level::parse("red").unwrap()), Level::Yellow);
    assert_eq!(boot_level(Level::Yellow), Level::Yellow);
    assert_eq!(boot_level(Level::Green), Level::Green);
    assert_eq!(boot_level(Level::Custom), Level::Custom);
    assert_eq!(boot_level(Level::Off), Level::Off);
}

#[test]
fn engine_allowlist_round_trips_and_default_is_duckduckgo() {
    for name in ["google", "duckduckgo", "bing", "startpage", "brave"] {
        assert_eq!(engine_name(engine_id(name).unwrap()), name);
    }
    assert_eq!(engine_id("altavista"), None);
    assert_eq!(engine_id(""), None);
    assert_eq!(engine_name(DEFAULT_ENGINE), "duckduckgo");
    assert_eq!(engine_name(250), "duckduckgo");
}

fn rows(pairs: &[(&str, &str)]) -> Vec<(String, String)> {
    pairs.iter().map(|(k, v)| (k.to_string(), v.to_string())).collect()
}

#[test]
fn init_reads_the_store_with_defaults_and_bounds() {
    let s = init(Vec::new(), 130);
    assert!(s.feather_edges && s.animated_background && s.stay_foreground);
    assert_eq!(glow_intensity_percent(&s), 130);
    assert_eq!(search_engine(&s), "duckduckgo");
    assert!(tor_enabled(&s) && !tor_default(&s));
    assert_eq!(hardening_level(&s), Level::Green);
    assert_eq!(screen_preset_name(&s), "1920x1080");
    assert_eq!(rotate_interval_min(&s), 15);

    let s = init(
        rows(&[
            ("feather_edges", "false"),
            ("glow_intensity", "999"),
            ("search_engine", "brave"),
            ("tor_default", "true"),
            ("hardening_level", "strict"),
            ("screen_preset", "1280x720"),
            ("rotate_interval_min", "0"),
            ("stay_foreground", "yes"),
        ]),
        10,
    );
    assert!(!s.feather_edges);
    assert!(!s.stay_foreground);
    assert_eq!(glow_intensity_percent(&s), 220);
    assert_eq!(search_engine(&s), "brave");
    assert!(tor_default(&s));
    assert_eq!(hardening_level(&s), Level::Yellow);
    assert_eq!(screen_preset_dims(&s), (1280, 720));
    assert_eq!(rotate_interval_min(&s), 1);

    let s = init(rows(&[("glow_intensity", "abc"), ("search_engine", "altavista")]), 10);
    assert_eq!(glow_intensity_percent(&s), 50);
    assert_eq!(search_engine(&s), "duckduckgo");
}

#[test]
fn setters_validate_persist_and_reply() {
    let mut s = Settings::new();
    assert_eq!(cyberdesk::settings::set(&mut s, "tor_enabled", false).unwrap(), "{\"ok\":true,\"key\":\"tor_enabled\",\"value\":false}");
    assert!(!tor_enabled(&s));
    assert_eq!(cyberdesk::settings::set(&mut s, "bogus", true).unwrap_err(), "unknown setting key: bogus");
    assert_eq!(
        set_glow_intensity(&mut s, 500).unwrap(),
        "{\"ok\":true,\"key\":\"glow_intensity\",\"value\":220}"
    );
    assert_eq!(set_glow_intensity(&mut s, -5).unwrap(), "{\"ok\":true,\"key\":\"glow_intensity\",\"value\":50}");
    assert_eq!(set_search_engine(&mut s, "bing").unwrap(), "{\"ok\":true,\"key\":\"search_engine\",\"value\":\"bing\"}");
    assert_eq!(set_search_engine(&mut s, "yahoo").unwrap_err(), "unknown search engine: yahoo");
    assert_eq!(search_engine(&s), "bing");
    assert_eq!(set_screen_preset(&mut s, "1600x900").unwrap(), "{\"ok\":true,\"key\":\"screen_preset\",\"value\":\"1600x900\"}");
    assert_eq!(set_screen_preset(&mut s, "800x600").unwrap_err(), "unknown screen preset: 800x600");
    assert_eq!(set_rotate_interval(&mut s, 1000).unwrap(), "{\"ok\":true,\"key\":\"rotate_interval_min\",\"value\":180}");
    let writes = s.rows.take_writes();
    assert_eq!(
        writes,
        rows(&[
            ("tor_enabled", "false"),
            ("glow_intensity", "220"),
            ("glow_intensity", "50"),
            ("search_engine", "bing"),
            ("screen_preset", "1600x900"),
            ("rotate_interval_min", "180"),
        ])
    );
    assert!(s.rows.take_writes().is_empty());
}

#[test]
fn identity_rows_read_back_what_was_written() {
    let mut s = Settings::new();
    assert_eq!(persisted_identity_seed(&s), None);
    store_identity_seed(&mut s, "00ff");
    store_identity_born(&mut s, 1_700_000_000_000);
    assert_eq!(persisted_identity_seed(&s).as_deref(), Some("00ff"));
    assert_eq!(persisted_identity_born(&s), Some(1_700_000_000_000));
    let s = init(rows(&[("identity_seed_born", "not a number")]), 100);
    assert_eq!(persisted_identity_born(&s), None);
}

#[test]
fn snapshot_lists_every_setting_in_order() {
    let s = Settings::new();
    assert_eq!(
        snapshot_json(&s, "{\"canvas\":true}"),
        "{\"feather_edges\":true,\"animated_background\":true,\"stay_foreground\":true,\"glow_intensity\":115,\"search_engine\":\"duckduckgo\",\"tor_enabled\":true,\"tor_default\":false,\"fp_preset\":\"green\",\"fp_custom\":{\"canvas\":true},\"screen_preset\":\"1920x1080\",\"rotate_on_restart\":true,\"rotate_auto\":false,\"rotate_new_circuit\":false,\"rotate_interval_min\":15}"
    );
}

#[test]
fn codes_and_presets_round_trip() {
    for l in [Level::Off, Level::Green, Level::Yellow, Level::Red, Level::Custom] {
        assert_eq!(level_from_code(level_code(l)), l);
    }
    assert_eq!(level_from_code(77), Level::Green);
    for name in ["1280x720", "1600x900", "1920x1080"] {
        assert_eq!(screen_name(screen_code(name).unwrap()), name);
    }
    assert_eq!(screen_code("1x1"), None);
    assert_eq!(screen_dims(9), (1920, 1080));
}
