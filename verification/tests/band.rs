use cyberdesk::band::{band_tick, BandEffects, BandInput, BandState, BAND_FADE_LINGER_MS, BAR_HIDE_HYSTERESIS_MS};
use cyberdesk::keys::Overlay;
use cyberdesk::respawn::{respawn_list, Inheritance, PendingChanges};

fn idle(now: u64) -> BandInput {
    BandInput { dragging: false, hot: None, over_band: false, over_launcher: false, typing: false, now }
}

fn closed() -> BandState {
    BandState { overlay: Overlay::Closed, engaged: None, hide_at: None, off_at: None }
}

#[test]
fn hovering_a_band_segment_opens_the_band() {
    let (st, fx) = band_tick(closed(), BandInput { hot: Some(2), ..idle(1000) });
    assert_eq!(st, BandState { overlay: Overlay::Command, engaged: Some(2), hide_at: None, off_at: None });
    assert!(fx.opened);
    assert_eq!(fx.engaged, Some(2));
    assert!(fx.push_frame);
    // Moving to another window's segment re-binds without reopening.
    let (st2, fx2) = band_tick(st, BandInput { hot: Some(3), ..idle(1010) });
    assert_eq!(st2.engaged, Some(3));
    assert!(!fx2.opened);
}

#[test]
fn band_hides_after_the_grace_period_then_lingers() {
    let open = BandState { overlay: Overlay::Command, engaged: Some(1), hide_at: None, off_at: None };
    let (s1, f1) = band_tick(open, idle(1000));
    assert_eq!(s1.hide_at, Some(1000 + BAR_HIDE_HYSTERESIS_MS));
    assert!(!f1.disengaged);
    let (s2, f2) = band_tick(s1, idle(1100));
    assert_eq!(s2, s1);
    assert!(!f2.disengaged);
    let (s3, f3) = band_tick(s2, idle(1250));
    assert!(f3.disengaged);
    assert_eq!(s3, BandState { overlay: Overlay::Command, engaged: None, hide_at: None, off_at: Some(1250 + BAND_FADE_LINGER_MS) });
    let (s4, f4) = band_tick(s3, idle(1400));
    assert_eq!(s4, s3);
    assert!(!f4.closed);
    let (s5, f5) = band_tick(s4, idle(1550));
    assert_eq!(s5, closed());
    assert!(f5.closed);
}

#[test]
fn typing_keeps_the_band() {
    let leaving = BandState { overlay: Overlay::Command, engaged: Some(1), hide_at: Some(900), off_at: None };
    let (st, fx) = band_tick(leaving, BandInput { typing: true, ..idle(5000) });
    assert_eq!(st.hide_at, None);
    assert!(!fx.disengaged);
    let (st, fx) = band_tick(leaving, BandInput { over_launcher: true, ..idle(5000) });
    assert_eq!(st.engaged, Some(1));
    assert!(!fx.disengaged);
}

#[test]
fn drag_and_other_overlays_freeze_the_band() {
    let leaving = BandState { overlay: Overlay::Command, engaged: Some(1), hide_at: Some(900), off_at: None };
    let none = BandEffects { opened: false, engaged: None, disengaged: false, push_frame: false, closed: false };
    assert_eq!(band_tick(leaving, BandInput { dragging: true, ..idle(5000) }), (leaving, none));
    let settings = BandState { overlay: Overlay::Settings, ..closed() };
    assert_eq!(band_tick(settings, BandInput { hot: Some(1), ..idle(5000) }), (settings, none));
    let lock = BandState { overlay: Overlay::Lock, ..closed() };
    assert_eq!(band_tick(lock, BandInput { hot: Some(1), ..idle(5000) }), (lock, none));
}

fn inheritance() -> Inheritance {
    Inheritance {
        order: vec![0, 2, 1],
        inherits_hardening: vec![true, false, true],
        inherits_screen: vec![false, true, true],
    }
}

#[test]
fn respawn_lists_each_window_once() {
    let p = PendingChanges {
        slot_hardening: vec![2],
        slot_screen: vec![2, 1],
        global_hardening: true,
        global_screen: false,
    };
    assert_eq!(respawn_list(&p, &inheritance()), vec![2, 1, 0]);
}

#[test]
fn global_change_respawns_only_inheriting_windows() {
    let p = PendingChanges { slot_hardening: vec![], slot_screen: vec![], global_hardening: true, global_screen: false };
    assert_eq!(respawn_list(&p, &inheritance()), vec![0, 1]);
    let p = PendingChanges { slot_hardening: vec![], slot_screen: vec![], global_hardening: false, global_screen: true };
    assert_eq!(respawn_list(&p, &inheritance()), vec![2, 1]);
    let p = PendingChanges { slot_hardening: vec![], slot_screen: vec![], global_hardening: false, global_screen: false };
    assert_eq!(respawn_list(&p, &inheritance()), Vec::<usize>::new());
}

#[test]
fn settings_card_toggles_and_drops_the_band() {
    let engaged = BandState { overlay: Overlay::Command, engaged: Some(1), hide_at: Some(10), off_at: None };
    let open = cyberdesk::band::toggle_settings(engaged, false);
    assert_eq!(open.state, BandState { overlay: Overlay::Settings, engaged: None, hide_at: None, off_at: None });
    assert!(open.opened && !open.closed && !open.cancel_capture);
    let shut = cyberdesk::band::toggle_settings(open.state, true);
    assert_eq!(shut.state, closed());
    assert!(shut.closed && shut.cancel_capture);
    // Escape closes only the panel that is open.
    assert_eq!(cyberdesk::band::close_settings(open.state).state, closed());
    assert_eq!(cyberdesk::band::close_info(open.state).state, open.state);
    assert!(!cyberdesk::band::close_info(open.state).closed);
}

#[test]
fn info_panel_toggles() {
    let open = cyberdesk::band::toggle_info(closed());
    assert_eq!(open.state.overlay, Overlay::Info);
    assert!(open.opened);
    let shut = cyberdesk::band::toggle_info(open.state);
    assert_eq!(shut.state, closed());
    assert!(shut.closed && !shut.cancel_capture);
    // From the settings card the info panel takes over.
    let settings = BandState { overlay: Overlay::Settings, ..closed() };
    assert_eq!(cyberdesk::band::toggle_info(settings).state.overlay, Overlay::Info);
}
