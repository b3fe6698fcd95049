use cyberdesk::settings::{seed_defaults, Rows};

fn seeded(pairs: &[(&str, &str)], migrated: bool) -> Rows {
    let mut rows = Rows::from_loaded(pairs.iter().map(|(k, v)| (k.to_string(), v.to_string())).collect());
    seed_defaults(&mut rows, migrated);
    rows
}

#[test]
fn fresh_store_defaults_to_duckduckgo() {
    let rows = seeded(&[], false);
    assert_eq!(rows.get("search_engine").as_deref(), Some("duckduckgo"));
    assert_eq!(rows.get("feather_edges").as_deref(), Some("true"));
    assert_eq!(rows.get("animated_background").as_deref(), Some("true"));
    assert_eq!(rows.get("tor_enabled").as_deref(), Some("true"));
    assert_eq!(rows.get("tor_default").as_deref(), Some("false"));
    assert_eq!(rows.get("hardening_level").as_deref(), Some("standard"));
}

#[test]
fn seeded_google_row_migrates_to_duckduckgo() {
    let rows = seeded(&[("search_engine", "google")], false);
    assert_eq!(rows.get("search_engine").as_deref(), Some("duckduckgo"));
}

#[test]
fn explicit_google_choice_survives_reopen() {
    let rows = seeded(&[("search_engine", "google")], true);
    assert_eq!(rows.get("search_engine").as_deref(), Some("google"));
}

#[test]
fn non_google_choice_is_untouched_by_migration() {
    let rows = seeded(&[("search_engine", "bing")], false);
    assert_eq!(rows.get("search_engine").as_deref(), Some("bing"));
}

#[test]
fn background_toggle_keeps_its_former_value_and_present_rows_stay() {
    let mut rows = seeded(&[("deep_field", "false"), ("stay_foreground", "false"), ("glow_intensity", "90")], true);
    assert_eq!(rows.get("animated_background").as_deref(), Some("false"));
    assert_eq!(rows.get("stay_foreground").as_deref(), Some("false"));
    assert_eq!(rows.get("glow_intensity").as_deref(), Some("90"));
    let writes = rows.take_writes();
    assert!(writes.iter().all(|(k, _)| k != "stay_foreground" && k != "glow_intensity"));
}
