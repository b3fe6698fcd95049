use cyberdesk::browser::{init_identity_seed, SettingValue, SlotModes};
use cyberdesk::harden::Level;
use cyberdesk::ipc::{favorite_reply, finish_new_identity, handle_request, tor_status_reply, Answer, HostState, NavStep, Request};
use cyberdesk::logging::LogQuery;
use cyberdesk::settings::init;
use cyberdesk::tor::TorState;
use cyberdesk::workspace::Workspace;

fn host() -> HostState {
    let mut settings = init(Vec::new(), 115);
    let identity = init_identity_seed(&mut settings, "abcd", 1);
    HostState {
        settings,
        identity,
        workspace: Workspace::new(),
        modes: SlotModes::new(),
        tor: TorState::new(),
        fp_custom: "{}".to_string(),
        pending_global_screen: false,
        pending_slot_screen: Vec::new(),
        pending_tor_toggles: Vec::new(),
        pending_closes: Vec::new(),
        pending_quit: None,
        pending_drag: None,
        open_settings: false,
        frame_state: "{}".to_string(),
        hud_state: "{\"level\":\"yellow\"}".to_string(),
        pending_navigations: Vec::new(),
        overlay_close: false,
        pending_steps: Vec::new(),
        bar_typing: false,
        mf_wide: false,
        mf_relayout: false,
        pending_slot_hardening: Vec::new(),
    }
}

fn req(cmd: &str) -> Request {
    Request {
        cmd: cmd.to_string(),
        slot: None,
        key: None,
        value: None,
        input: None,
        url: None,
        title: None,
        level: None,
        confirm: None,
        active: None,
        tab: None,
        log: LogQuery::default(),
    }
}

fn reply(a: Answer) -> Result<String, (i32, String)> {
    match a {
        Answer::Reply(r) => r,
        _ => panic!("expected a reply"),
    }
}

#[test]
fn bad_json_and_unknown_commands_are_refused() {
    let mut h = host();
    assert_eq!(reply(handle_request(&mut h, Err("EOF".to_string()))), Err((1, "bad request json: EOF".to_string())));
    assert_eq!(reply(handle_request(&mut h, Ok(req("frobnicate")))), Err((4, "unknown cmd: frobnicate".to_string())));
}

#[test]
fn missing_fields_are_code_two() {
    let mut h = host();
    assert_eq!(reply(handle_request(&mut h, Ok(req("navigate")))), Err((2, "missing 'input'".to_string())));
    assert_eq!(reply(handle_request(&mut h, Ok(req("toggle_favorite")))), Err((2, "missing 'url'".to_string())));
    assert_eq!(reply(handle_request(&mut h, Ok(req("set_setting")))), Err((2, "missing 'key'".to_string())));
    assert_eq!(reply(handle_request(&mut h, Ok(req("set_slot_screen")))), Err((2, "missing 'value'".to_string())));
    let bad = Request { value: Some(SettingValue::Text("640x480".into())), ..req("set_slot_screen") };
    assert_eq!(reply(handle_request(&mut h, Ok(bad))), Err((2, "unknown screen preset: 640x480".to_string())));
}

#[test]
fn settings_and_navigation_replies() {
    let mut h = host();
    let s = reply(handle_request(&mut h, Ok(req("get_settings")))).unwrap();
    assert!(s.starts_with("{\"feather_edges\":"));
    let nav = Request { input: Some("rust verus".into()), ..req("navigate") };
    let r = reply(handle_request(&mut h, Ok(nav))).unwrap();
    assert_eq!(r, "{\"ok\":true,\"url\":\"https://duckduckgo.com/?q=rust+verus\"}");
    let set = Request {
        key: Some("screen_preset".into()),
        value: Some(SettingValue::Text("1280x720".into())),
        ..req("set_setting")
    };
    assert!(reply(handle_request(&mut h, Ok(set))).is_ok());
    assert!(h.pending_global_screen);
}

#[test]
fn queued_commands_reach_the_host() {
    let mut h = host();
    let ok = Ok("{\"ok\":true}".to_string());
    assert_eq!(reply(handle_request(&mut h, Ok(Request { slot: Some(2), ..req("toggle_tor") }))), ok);
    assert_eq!(reply(handle_request(&mut h, Ok(Request { slot: Some(99), ..req("close_slot") }))), ok);
    assert_eq!(reply(handle_request(&mut h, Ok(req("quit_save")))), ok);
    assert_eq!(h.pending_tor_toggles, vec![2]);
    assert_eq!(h.pending_closes, vec![3]);
    assert_eq!(h.pending_quit, Some(true));
    let screen = Request { value: Some(SettingValue::Text("1600x900".into())), ..req("set_slot_screen") };
    assert_eq!(reply(handle_request(&mut h, Ok(screen))), ok);
    assert_eq!(h.pending_slot_screen, vec![0]);
    let got = reply(handle_request(&mut h, Ok(req("get_slot_screen")))).unwrap();
    assert_eq!(got, "{\"value\":\"1600x900\",\"inherited\":false}");
}

#[test]
fn store_commands_say_what_to_fetch() {
    let mut h = host();
    assert!(matches!(handle_request(&mut h, Ok(req("query_suggestions"))), Answer::Suggestions(s) if s.is_empty()));
    let fav = Request { url: Some("https://a.example/".into()), title: Some("A".into()), ..req("toggle_favorite") };
    match handle_request(&mut h, Ok(fav)) {
        Answer::ToggleFavorite(Some(e)) => assert_eq!((e.url.as_str(), e.title.as_str()), ("https://a.example/", "A")),
        _ => panic!("expected a favourite toggle"),
    }
    let internal = Request { url: Some("cyberdesk://settings/".into()), ..req("toggle_favorite") };
    assert!(matches!(handle_request(&mut h, Ok(internal)), Answer::ToggleFavorite(None)));
    assert!(matches!(handle_request(&mut h, Ok(req("get_residue_footprint"))), Answer::Footprint));
    assert_eq!(favorite_reply(true), "{\"favorite\":true}");
}

#[test]
fn navigation_is_queued_and_closes_the_overlay() {
    let mut h = host();
    let nav = Request { input: Some("example.org".into()), slot: Some(1), ..req("navigate") };
    let r = reply(handle_request(&mut h, Ok(nav))).unwrap();
    assert_eq!(r, "{\"ok\":true,\"url\":\"https://example.org\"}");
    assert_eq!(h.pending_navigations, vec![(1, "https://example.org".to_string())]);
    assert!(h.overlay_close);
    let ok = Ok("{\"ok\":true}".to_string());
    assert_eq!(reply(handle_request(&mut h, Ok(req("go_back")))), ok);
    assert_eq!(reply(handle_request(&mut h, Ok(Request { slot: Some(2), ..req("go_forward") }))), ok);
    assert_eq!(reply(handle_request(&mut h, Ok(req("reload")))), ok);
    assert_eq!(h.pending_steps, vec![(0, NavStep::Back), (2, NavStep::Forward), (0, NavStep::Reload)]);
    assert!(matches!(handle_request(&mut h, Ok(Request { slot: Some(3), ..req("get_nav_state") })), Answer::NavState(3)));
    assert!(matches!(handle_request(&mut h, Ok(req("get_frame"))), Answer::Frame));
}

#[test]
fn band_and_viewer_state_commands() {
    let mut h = host();
    let ok = Ok("{\"ok\":true}".to_string());
    assert_eq!(reply(handle_request(&mut h, Ok(Request { active: Some(true), ..req("bar_typing") }))), ok);
    assert!(h.bar_typing);
    assert_eq!(reply(handle_request(&mut h, Ok(req("bar_typing")))), ok);
    assert!(!h.bar_typing);
    assert_eq!(reply(handle_request(&mut h, Ok(Request { tab: Some("term".into()), ..req("mf_tab") }))), ok);
    assert!(h.mf_wide && h.mf_relayout);
    h.mf_relayout = false;
    assert_eq!(reply(handle_request(&mut h, Ok(Request { tab: Some("term".into()), ..req("mf_tab") }))), ok);
    assert!(h.mf_wide && !h.mf_relayout);
    assert_eq!(reply(handle_request(&mut h, Ok(Request { tab: Some("logs".into()), ..req("mf_tab") }))), ok);
    assert!(!h.mf_wide && h.mf_relayout);
    assert_eq!(reply(handle_request(&mut h, Ok(req("get_hud_state")))), Ok("{\"level\":\"yellow\"}".to_string()));
    assert!(matches!(handle_request(&mut h, Ok(req("get_info_items"))), Answer::InfoItems));
}

#[test]
fn tor_status_and_new_identity() {
    let mut h = host();
    match handle_request(&mut h, Ok(req("tor_status"))) {
        Answer::TorStatus(st, reason) => {
            assert_eq!(st, 0);
            assert!(reason.is_empty());
            assert_eq!(tor_status_reply(st, &reason, "1.2.3"), "{\"reason\":\"\",\"status\":0,\"version\":\"1.2.3\"}");
        }
        _ => panic!("expected the Tor status"),
    }
    assert!(matches!(handle_request(&mut h, Ok(Request { slot: Some(2), ..req("new_identity") })), Answer::NewIdentity(2)));
    assert_eq!(finish_new_identity(&mut h, 2, "beef".to_string()), "{\"ok\":true}");
    assert_eq!(h.pending_slot_hardening, vec![2]);
}

#[test]
fn hardening_requests_check_their_fields() {
    let mut h = host();
    assert_eq!(reply(handle_request(&mut h, Ok(req("set_hardening")))), Err((2, "missing 'level'".to_string())));
    assert_eq!(reply(handle_request(&mut h, Ok(req("set_slot_hardening")))), Err((2, "missing 'level'".to_string())));
    let bad = Request { level: Some("purple".into()), ..req("set_slot_hardening") };
    assert_eq!(reply(handle_request(&mut h, Ok(bad))), Err((2, "bad level: purple".to_string())));
    let strict = Request { level: Some("strict".into()), confirm: Some(true), slot: Some(1), ..req("set_slot_hardening") };
    assert!(matches!(handle_request(&mut h, Ok(strict)), Answer::SetSlotHardening(1, Some(Level::Red), true)));
    let inherit = Request { level: Some("inherit".into()), ..req("set_slot_hardening") };
    assert!(matches!(handle_request(&mut h, Ok(inherit)), Answer::SetSlotHardening(0, None, false)));
    let custom = Request { level: Some("custom".into()), ..req("set_slot_hardening") };
    assert!(matches!(handle_request(&mut h, Ok(custom)), Answer::SetSlotHardening(0, Some(Level::Custom), false)));
    let global = Request { level: Some("off".into()), ..req("set_hardening") };
    assert!(matches!(handle_request(&mut h, Ok(global)), Answer::SetHardening(l, false) if l == "off"));
    assert!(matches!(handle_request(&mut h, Ok(req("get_slot_hardening"))), Answer::SlotHardening(0)));
}

#[test]
fn refused_requests_leave_the_state_alone() {
    let mut h = host();
    let bad_value = Request { key: Some("tor_enabled".into()), value: Some(SettingValue::Int(3)), ..req("set_setting") };
    assert_eq!(reply(handle_request(&mut h, Ok(bad_value))).unwrap_err().0, 2);
    assert!(h.pending_navigations.is_empty() && !h.overlay_close && !h.pending_global_screen);
    assert_eq!(reply(handle_request(&mut h, Ok(req("navigate")))).unwrap_err().0, 2);
    assert!(h.pending_navigations.is_empty() && !h.overlay_close);
}
