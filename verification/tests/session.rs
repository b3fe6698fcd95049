use cyberdesk::session::{persist_url, plan_restore, save, take_saved_session, SavedSession};
use cyberdesk::store::SessionSlot;

fn slot(url: &str, units: u32, active: bool) -> SessionSlot {
    SessionSlot { position: 0, url: url.into(), width_units: units as i64, active, tor: false }
}

#[test]
fn persist_url_keeps_web_pages_drops_internal_and_blank() {
    assert_eq!(persist_url("https://a.example/"), "https://a.example/");
    assert_eq!(persist_url(""), "");
    assert_eq!(persist_url("about:blank"), "");
    assert_eq!(persist_url("cyberdesk://command/"), "");
}

#[test]
fn plan_restore_fits_all_when_they_fit() {
    let saved = vec![slot("https://a/", 1, false), slot("https://b/", 1, true), slot("", 1, false)];
    let plan = plan_restore(&saved, 4, 4);
    assert_eq!(plan.slots.len(), 3);
    assert!(plan.overflow.is_empty());
    assert_eq!(plan.active, 1);
    assert_eq!(plan.slots[0].url.as_deref(), Some("https://a/"));
    assert_eq!(plan.slots[2].url, None);
}

#[test]
fn plan_restore_overflows_from_the_left_by_units() {
    let saved = vec![slot("https://wide/", 2, true), slot("https://b/", 1, false), slot("https://c/", 1, false)];
    let plan = plan_restore(&saved, 2, 4);
    assert_eq!(plan.slots.len(), 1);
    assert_eq!(plan.slots[0].width_units, 2);
    assert_eq!(plan.active, 0);
    assert_eq!(plan.overflow.len(), 2);
    assert_eq!(plan.overflow[0].url, "https://b/");
}

#[test]
fn plan_restore_respects_both_unit_cap_and_max_slots() {
    let saved = vec![
        slot("https://a/", 1, false),
        slot("https://b/", 1, false),
        slot("https://c/", 1, false),
        slot("https://d/", 1, false),
    ];
    let plan = plan_restore(&saved, 4, 2);
    assert_eq!(plan.slots.len(), 2);
    assert_eq!(plan.overflow.len(), 2);
}

#[test]
fn plan_restore_active_falls_back_when_active_overflowed() {
    let saved = vec![slot("https://a/", 1, false), slot("https://b/", 1, true)];
    let plan = plan_restore(&saved, 1, 4);
    assert_eq!(plan.slots.len(), 1);
    assert_eq!(plan.active, 0);
    assert_eq!(plan.overflow.len(), 1);
    assert!(plan.overflow[0].active);
}

#[test]
fn plan_restore_forces_one_slot_when_nothing_fits() {
    let saved = vec![slot("https://wide/", 2, true)];
    let plan = plan_restore(&saved, 1, 4);
    assert_eq!(plan.slots.len(), 1);
    assert_eq!(plan.slots[0].url, None);
    assert_eq!(plan.active, 0);
    assert_eq!(plan.overflow.len(), 1);
}

#[test]
fn plan_restore_clamps_widths_and_keeps_every_saved_slot() {
    let saved = vec![slot("https://a/", 0, false), slot("https://b/", 7, false), slot("https://c/", 1, false)];
    let plan = plan_restore(&saved, 3, 4);
    assert_eq!(plan.slots.iter().map(|s| s.width_units).collect::<Vec<_>>(), [1, 2]);
    assert_eq!(plan.slots.len() + plan.overflow.len(), saved.len());
    assert_eq!(plan.overflow[0].url, "https://c/");
}

fn saved_row(pos: i64, url: &str) -> SessionSlot {
    SessionSlot { position: pos, url: url.to_string(), width_units: 1, active: pos == 0, tor: false }
}

#[test]
fn quit_and_save_restores_exactly_once() {
    let mut store = SavedSession { flag: false, rows: Vec::new() };
    // A plain quit saved nothing.
    assert!(take_saved_session(&mut store).is_none());
    let rows = vec![saved_row(0, "https://a.example/"), saved_row(1, "")];
    save(&mut store, &rows, true);
    assert!(store.flag);
    let got = take_saved_session(&mut store).unwrap();
    assert_eq!(got.iter().map(|r| r.url.as_str()).collect::<Vec<_>>(), vec!["https://a.example/", ""]);
    assert!(!store.flag);
    assert!(store.rows.is_empty());
    // The second launch boots the default layout.
    assert!(take_saved_session(&mut store).is_none());
}

#[test]
fn failed_or_empty_saves_restore_nothing() {
    let mut store = SavedSession { flag: false, rows: vec![saved_row(0, "https://old.example/")] };
    save(&mut store, &vec![saved_row(0, "https://new.example/")], false);
    assert!(!store.flag);
    assert_eq!(store.rows.len(), 1);
    assert_eq!(store.rows[0].url, "https://old.example/");
    assert!(take_saved_session(&mut store).is_none());
    save(&mut store, &Vec::new(), true);
    assert!(store.flag);
    assert!(take_saved_session(&mut store).is_none());
    assert!(!store.flag);
}

#[test]
fn save_quit_session_restores_once_then_defaults() {
    let mut s = SavedSession { flag: false, rows: Vec::new() };
    assert!(take_saved_session(&mut s).is_none(), "nothing saved yet → default boot");

    let rows = vec![
        SessionSlot { position: 0, url: "https://a.example/".into(), width_units: 1, active: true, tor: false },
        SessionSlot { position: 1, url: String::new(), width_units: 2, active: false, tor: true },
    ];
    save(&mut s, &rows, true);

    let got = take_saved_session(&mut s).expect("a Quit & Save session restores");
    assert_eq!(got.len(), 2);
    assert_eq!(got[0].url, "https://a.example/");
    assert!(got[0].active && !got[0].tor, "clearnet active slot round-trips");
    assert_eq!(got[1].width_units, 2);
    assert!(got[1].tor && got[1].url.is_empty(), "Tor slot stays Tor, no URL on disk");

    // One-shot: consumed after the first restore.
    assert!(take_saved_session(&mut s).is_none(), "restore is consumed → default next time");
    // And the rows are purged — no saved URL lingers past the restore.
    assert!(s.rows.is_empty(), "consumed rows are deleted, not left behind");
}

#[test]
fn latest_save_replaces_the_previous_session() {
    let mut s = SavedSession { flag: false, rows: Vec::new() };
    save(
        &mut s,
        &vec![SessionSlot { position: 0, url: "https://old.example/".into(), width_units: 1, active: true, tor: false }],
        true,
    );
    save(
        &mut s,
        &vec![
            SessionSlot { position: 0, url: String::new(), width_units: 1, active: false, tor: true },
            SessionSlot { position: 1, url: "https://new.example/".into(), width_units: 1, active: true, tor: false },
        ],
        true,
    );
    let got = take_saved_session(&mut s).expect("restorable");
    assert_eq!(got.len(), 2, "a save replaces — no leftover row from the old save");
    assert_eq!(got[1].url, "https://new.example/");
}

#[test]
fn a_slot_that_does_not_fit_stops_the_taking() {
    let saved = vec![slot("https://wide/", 2, true), slot("https://b/", 1, false)];
    let plan = plan_restore(&saved, 1, 4);
    assert_eq!(plan.slots.len(), 1);
    assert_eq!(plan.slots[0].width_units, 1);
    assert_eq!(plan.slots[0].url, None);
    assert_eq!(plan.active, 0);
    assert_eq!(plan.overflow.len(), 2);
    assert_eq!(plan.overflow[1].url, "https://b/");
}
