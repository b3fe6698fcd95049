use cyberdesk::browser::{
    set_slot_screen, set_slot_tor, slot_effective_screen_code, slot_is_tor, slot_screen_dims,
    slot_screen_override, SlotModes,
};
use cyberdesk::browser::{rotation_tick, RotationTick};
use cyberdesk::clock::local_utc_offset_minutes;
use cyberdesk::logging::default_filter;
use cyberdesk::settings::{set_rotate_interval, Settings, KEY_ROTATE_AUTO};
use cyberdesk::theme::hex_rgb;
use cyberdesk::workspace::{OpenOutcome, Workspace};

#[test]
fn default_filter_follows_the_tor_trace_switch() {
    let info = default_filter(None);
    assert!(info.starts_with("info,cyberdesk=debug,arti_client=info,tor_dirmgr=info"));
    assert!(info.ends_with(",tor_memquota=info"));
    assert_eq!(info.matches('=').count(), 11);
    assert_eq!(default_filter(Some("")), info);
    assert_eq!(default_filter(Some("0")), info);
    assert!(default_filter(Some("trace")).ends_with("tor_memquota=trace"));
    assert!(default_filter(Some("2")).contains("tor_proto=trace"));
    assert!(default_filter(Some("yes")).contains("tor_netdoc=debug"));
}

#[test]
fn rotation_timer_fires_after_the_interval() {
    let mut s = Settings::new();
    assert!(matches!(rotation_tick(&s, 1_000_000), RotationTick::Idle));
    cyberdesk::settings::set(&mut s, KEY_ROTATE_AUTO, true).unwrap();
    set_rotate_interval(&mut s, 2).unwrap();
    assert!(matches!(rotation_tick(&s, 119), RotationTick::Wait));
    assert!(matches!(rotation_tick(&s, 120), RotationTick::Rotate));
}

#[test]
fn colour_tokens_read_as_channels() {
    assert_eq!(hex_rgb("#009FE3"), (0x00, 0x9F, 0xE3));
    assert_eq!(hex_rgb("##ff8000"), (0xff, 0x80, 0x00));
    assert_eq!(hex_rgb("+12"), (0, 0, 0x12));
    assert_eq!(hex_rgb("#GG0000"), (0, 0, 0));
    assert_eq!(hex_rgb(""), (0, 0, 0));
    assert_eq!(hex_rgb("#1FFFFFFFF"), (0, 0, 0));
    assert_eq!(hex_rgb("#FFFFFFFF"), (0xff, 0xff, 0xff));
}

#[test]
fn utc_offset_uses_the_bias_in_force() {
    assert_eq!(local_utc_offset_minutes(2, -60, 0, -60), 120);
    assert_eq!(local_utc_offset_minutes(1, -60, 0, -60), 60);
    assert_eq!(local_utc_offset_minutes(0, 300, 0, -60), -300);
}

#[test]
fn links_from_tor_windows_stay_on_tor() {
    let mut w = Workspace::new();
    match w.open_in_new_slot(0, true, 4, 4) {
        OpenOutcome::NewWindow { id, tor } => {
            assert_eq!(id, 1);
            assert!(tor);
        }
        _ => panic!("expected a new window"),
    }
    assert_eq!(w.order_ids(), vec![0, 1]);
    // No room: a clearnet link opens in place, a Tor link from clearnet
    // switches the source to Tor.
    assert!(matches!(w.open_in_new_slot_mode(0, false, false, 2, 4), OpenOutcome::InPlace));
    assert!(matches!(w.open_in_new_slot_mode(0, true, false, 2, 4), OpenOutcome::SwitchSourceToTor));
    assert!(matches!(w.open_in_new_slot(0, true, 2, 4), OpenOutcome::InPlace));
    assert_eq!(w.order_ids(), vec![0, 1]);
    // A link from window 0 goes right of it.
    assert!(matches!(w.open_in_new_slot_mode(0, false, false, 4, 4), OpenOutcome::NewWindow { id: 2, tor: false }));
    assert_eq!(w.order_ids(), vec![0, 2, 1]);
}

#[test]
fn tor_toggle_respects_the_engine_switch() {
    let w = Workspace::new();
    assert_eq!(w.tor_toggle(0, false, true), Some(true));
    assert_eq!(w.tor_toggle(0, false, false), None);
    assert_eq!(w.tor_toggle(0, true, false), Some(false));
    assert_eq!(w.tor_toggle(3, false, true), None);
}

#[test]
fn per_window_modes_read_back_what_was_set() {
    let s = Settings::new();
    let mut m = SlotModes::new();
    assert!(!slot_is_tor(&m, 1));
    set_slot_tor(&mut m, 1, true);
    assert!(slot_is_tor(&m, 1));
    assert!(!slot_is_tor(&m, 0));
    set_slot_tor(&mut m, 9, true);
    assert!(!slot_is_tor(&m, 9));
    assert_eq!(slot_screen_override(&m, 2), None);
    assert_eq!(slot_effective_screen_code(&m, 2, &s), 2);
    set_slot_screen(&mut m, 2, Some(0));
    assert_eq!(slot_screen_override(&m, 2), Some(0));
    assert_eq!(slot_effective_screen_code(&m, 2, &s), 0);
    assert_eq!(slot_screen_dims(&m, 2, (800, 600), &s), (1280, 720));
    assert_eq!(slot_screen_dims(&m, 3, (800, 600), &s), (1920, 1080));
    set_slot_screen(&mut m, 2, None);
    assert_eq!(slot_screen_override(&m, 2), None);
}
