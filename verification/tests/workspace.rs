use cyberdesk::store::SessionSlot;
use cyberdesk::workspace::{plan_default, plan_restore, slot_max, DropOutcome, Workspace};

fn row(pos: i64, url: &str, width: i64, active: bool, tor: bool) -> SessionSlot {
    SessionSlot { position: pos, url: url.into(), width_units: width, active, tor }
}

#[test]
fn add_insert_and_close_keep_a_valid_workspace() {
    let mut w = Workspace::new();
    assert_eq!(w.order_ids(), vec![0]);
    assert_eq!(w.add_slot(4, 4), Some(1));
    assert_eq!(w.order_ids(), vec![0, 1]);
    assert_eq!(w.active_slot(), 1);
    assert!(w.set_active(0));
    assert_eq!(w.add_slot(4, 4), Some(2));
    assert_eq!(w.order_ids(), vec![0, 2, 1]);
    // Unit budget: three units used, capacity 3 refuses another.
    assert_eq!(w.add_slot(4, 3), None);
    // Count cap.
    assert_eq!(w.add_slot(3, 8), None);
    assert_eq!(w.insert_slot_at(99), Some(3));
    assert_eq!(w.order_ids(), vec![0, 2, 1, 3]);
    assert_eq!(w.insert_slot_at(0), None);
    // Closing the active last window promotes the new last.
    assert_eq!(w.close_slot_at(3), Some(3));
    assert_eq!(w.active_slot(), 1);
    // Closing a non-active window keeps the active one.
    assert_eq!(w.close_slot_at(0), Some(0));
    assert_eq!(w.order_ids(), vec![2, 1]);
    assert_eq!(w.active_slot(), 1);
    assert_eq!(w.close_slot_at(7), None);
    assert_eq!(w.close_slot_at(1), Some(1));
    assert_eq!(w.active_slot(), 2);
    // The last window never closes.
    assert_eq!(w.close_slot_at(0), None);
    assert_eq!(w.order_ids(), vec![2]);
}

#[test]
fn cycling_focus_and_swapping() {
    let mut w = Workspace::new();
    w.add_slot(4, 4);
    w.add_slot(4, 4);
    assert_eq!(w.order_ids(), vec![0, 1, 2]);
    assert_eq!(w.active_slot(), 2);
    w.cycle_active(true);
    assert_eq!(w.active_slot(), 0);
    w.cycle_active(false);
    assert_eq!(w.active_slot(), 2);
    assert!(w.focus_slot_position(2));
    assert_eq!(w.active_slot(), 1);
    assert!(!w.focus_slot_position(9));
    w.swap_active(-1);
    assert_eq!(w.order_ids(), vec![1, 0, 2]);
    w.swap_active(-1);
    assert_eq!(w.order_ids(), vec![1, 0, 2]);
    assert_eq!(w.active_position(), 0);
}

#[test]
fn widths_toggle_within_capacity_and_reflow_closes_from_the_right() {
    let mut w = Workspace::new();
    w.add_slot(4, 4);
    w.add_slot(4, 4);
    assert!(w.toggle_active_width(4, false));
    assert_eq!(w.total_units(), 4);
    assert!(!w.toggle_active_width(4, true));
    assert!(w.toggle_active_width(4, false));
    assert_eq!(w.total_units(), 3);
    assert!(!w.toggle_active_width(3, false));
    assert!(w.toggle_active_width(4, false));
    // Now [0,1,2(2 units)], total 4; a frame of 2 units keeps [0,1].
    let closed = w.reflow_slots(2);
    assert_eq!(closed, vec![2]);
    assert_eq!(w.order_ids(), vec![0, 1]);
    assert_eq!(w.active_slot(), 1);
    assert_eq!(w.width_units(2), 1);
    // A lone double on a one-unit frame shrinks.
    let mut v = Workspace::new();
    assert!(v.toggle_active_width(2, false));
    assert_eq!(v.reflow_slots(0), Vec::<usize>::new());
    assert_eq!(v.total_units(), 1);
}

#[test]
fn saved_rows_never_hold_tor_or_internal_urls() {
    let mut w = Workspace::new();
    w.add_slot(4, 4);
    w.add_slot(4, 4);
    let urls = vec![
        "https://a.example/".to_string(),
        "https://secret.onion/".to_string(),
        "cyberdesk://start/".to_string(),
        String::new(),
    ];
    let tor = vec![false, true, false, false];
    let rows = w.session_rows(&urls, &tor);
    assert_eq!(rows.len(), 3);
    assert_eq!(rows[0].url, "https://a.example/");
    assert_eq!(rows[1].url, "");
    assert!(rows[1].tor);
    assert_eq!(rows[2].url, "");
    assert!(rows[2].active);
    assert_eq!(rows[2].position, 2);
}

#[test]
fn restore_replays_a_saved_session_with_fresh_ids() {
    let rows = vec![
        row(0, "https://a/", 2, false, false),
        row(1, "https://b/", 1, true, true),
        row(2, "cyberdesk://start/", 1, false, false),
        row(3, "https://d/", 1, false, false),
    ];
    let (w, plan) = plan_restore(&rows, 4, 4, true);
    assert_eq!(w.order_ids(), vec![0, 1, 2]);
    assert_eq!(w.active_slot(), 1);
    assert_eq!(w.width_units(0), 2);
    assert_eq!(plan.len(), 3);
    assert_eq!(plan[0].url.as_deref(), Some("https://a/"));
    assert!(plan[1].tor && plan[1].url.is_none());
    assert!(plan[2].url.is_none());
    // A double that no longer fits comes back single; planning then stops.
    let rows = vec![row(0, "https://a/", 1, false, false), row(1, "https://b/", 2, true, false), row(2, "https://c/", 1, false, false)];
    let (w, plan) = plan_restore(&rows, 4, 2, false);
    assert_eq!(w.order_ids(), vec![0, 1]);
    assert_eq!(w.width_units(1), 1);
    assert_eq!(plan.len(), 2);
    assert_eq!(w.active_slot(), 1);
    // Nothing saved: the first launch's layout.
    let (w, plan) = plan_restore(&Vec::new(), 4, 4, true);
    assert_eq!(w.order_ids(), vec![0, 1]);
    assert!(plan[1].tor && !plan[0].tor);
}

#[test]
fn default_layout_and_slot_max() {
    let (w, plan) = plan_default(4, 1, true);
    assert_eq!(w.order_ids(), vec![0]);
    assert_eq!(plan.len(), 1);
    let (_, plan) = plan_default(4, 8, false);
    assert!(!plan[1].tor);
    assert_eq!(slot_max(0), 1);
    assert_eq!(slot_max(3), 3);
    assert_eq!(slot_max(99), 4);
}

#[test]
fn dropped_favourite_opens_in_a_gutter_or_replaces_a_page() {
    let mut w = Workspace::new();
    assert!(w.drag_has_room(4, 4));
    assert_eq!(w.drop_favorite(4, 4, Some(0), Some(0)), DropOutcome::Opened(1));
    assert_eq!(w.order_ids(), vec![1, 0]);
    assert_eq!(w.active_slot(), 1);
    // Past the end of the row the new window goes last.
    assert_eq!(w.drop_favorite(4, 4, Some(9), None), DropOutcome::Opened(2));
    assert_eq!(w.order_ids(), vec![1, 0, 2]);
    // No gutter picked: nothing.
    assert_eq!(w.drop_favorite(4, 4, None, Some(0)), DropOutcome::Nothing);
    // Full by count or by units: the window under the pointer loads it.
    assert!(!w.drag_has_room(3, 8));
    assert_eq!(w.drop_favorite(3, 8, Some(0), Some(0)), DropOutcome::Navigate(0));
    assert!(!w.drag_has_room(4, 3));
    assert_eq!(w.drop_favorite(4, 3, Some(0), None), DropOutcome::Nothing);
    assert_eq!(w.order_ids(), vec![1, 0, 2]);
}

#[test]
fn onion_switch_respawns_only_a_clearnet_window() {
    let w = Workspace::new();
    assert_eq!(w.tor_switch(0, false), cyberdesk::workspace::TorSwitch::Respawn);
    assert_eq!(w.tor_switch(0, true), cyberdesk::workspace::TorSwitch::LoadInPlace);
    assert_eq!(w.tor_switch(3, false), cyberdesk::workspace::TorSwitch::Nothing);
}

#[test]
fn red_transition_fires_on_the_rising_edge_only() {
    let (g, r, y) = (cyberdesk::harden::Level::Green, cyberdesk::harden::Level::Red, cyberdesk::harden::Level::Yellow);
    assert_eq!(cyberdesk::harden::red_edge(&vec![g, y], 0), (0, false));
    assert_eq!(cyberdesk::harden::red_edge(&vec![g, r], 0), (1, true));
    assert_eq!(cyberdesk::harden::red_edge(&vec![r, r], 1), (2, true));
    assert_eq!(cyberdesk::harden::red_edge(&vec![r, g], 2), (1, false));
    assert_eq!(cyberdesk::harden::red_edge(&vec![r, g], 1), (1, false));
}

#[test]
fn closing_by_id_finds_the_window_where_it_now_sits() {
    let mut w = Workspace::new();
    assert_eq!(w.add_slot(4, 4), Some(1));
    assert_eq!(w.add_slot(4, 4), Some(2));
    assert_eq!(w.order_ids(), vec![0, 1, 2]);
    assert_eq!(w.close_slot_id(7), None);
    assert_eq!(w.close_slot_id(1), Some(1));
    assert_eq!(w.order_ids(), vec![0, 2]);
    assert_eq!(w.active_slot(), 2);
    assert_eq!(w.close_slot_id(2), Some(2));
    assert_eq!(w.active_slot(), 0);
    // The last window refuses to close.
    assert_eq!(w.close_slot_id(0), None);
    assert_eq!(w.order_ids(), vec![0]);
}
