use cyberdesk::keys::{key_event, route_key, vk_of, Key, KeyAction, KeyEvent, Overlay};
use cyberdesk::keys::{VK_1, VK_BACK, VK_D, VK_ESCAPE, VK_LEFT, VK_R, VK_RETURN, VK_RIGHT, VK_T, VK_TAB, VK_V, VK_W};

fn press(vk: i32) -> KeyEvent {
    KeyEvent { pressed: true, vk, f5: false, ctrl: false, shift: false, alt: false, has_text: false }
}

fn ctrl(vk: i32) -> KeyEvent {
    KeyEvent { ctrl: true, ..press(vk) }
}

fn ctrl_shift(vk: i32) -> KeyEvent {
    KeyEvent { shift: true, ..ctrl(vk) }
}

#[test]
fn window_shortcuts_are_kept_by_the_shell() {
    let c = Overlay::Closed;
    assert_eq!(route_key(ctrl(VK_T), c, false, false), KeyAction::AddSlot);
    assert_eq!(route_key(ctrl(VK_W), c, false, false), KeyAction::CloseActive);
    assert_eq!(route_key(ctrl(VK_TAB), c, false, false), KeyAction::Cycle(true));
    assert_eq!(route_key(ctrl_shift(VK_TAB), c, false, false), KeyAction::Cycle(false));
    assert_eq!(route_key(ctrl_shift(VK_LEFT), c, false, false), KeyAction::Swap(-1));
    assert_eq!(route_key(ctrl_shift(VK_RIGHT), c, false, false), KeyAction::Swap(1));
    assert_eq!(route_key(ctrl_shift(VK_D), c, false, false), KeyAction::ToggleWidth);
    assert_eq!(route_key(ctrl(VK_D), c, false, false), KeyAction::ToggleFavorite);
    assert_eq!(route_key(ctrl(VK_1), c, false, false), KeyAction::Focus(1));
    assert_eq!(route_key(ctrl(VK_1 + 3), c, false, false), KeyAction::Focus(4));
    assert_eq!(route_key(ctrl(VK_1 + 4), c, false, false), KeyAction::PageKeyDown);
}

#[test]
fn ctrl_d_belongs_to_the_page_while_the_band_is_open() {
    assert_eq!(route_key(ctrl(VK_D), Overlay::Command, false, false), KeyAction::PageKeyDown);
}

#[test]
fn escape_closes_what_is_in_front_then_quits() {
    let esc = press(VK_ESCAPE);
    assert_eq!(route_key(esc, Overlay::Command, false, false), KeyAction::Disengage);
    assert_eq!(route_key(esc, Overlay::Settings, false, false), KeyAction::CloseSettings);
    assert_eq!(route_key(esc, Overlay::Info, false, false), KeyAction::CloseInfo);
    assert_eq!(route_key(esc, Overlay::Closed, false, false), KeyAction::Quit);
    assert_eq!(route_key(esc, Overlay::Closed, true, false), KeyAction::CancelDrag);
    assert_eq!(route_key(esc, Overlay::Lock, false, false), KeyAction::VaultHold);
}

#[test]
fn secret_capture_swallows_every_key() {
    let c = Overlay::Settings;
    assert_eq!(route_key(press(VK_BACK), c, false, true), KeyAction::VaultBackspace);
    assert_eq!(route_key(press(VK_RETURN), c, false, true), KeyAction::VaultSubmit);
    assert_eq!(route_key(press(VK_ESCAPE), c, false, true), KeyAction::VaultEscape);
    assert_eq!(route_key(ctrl(VK_V), c, false, true), KeyAction::VaultPaste);
    let typed = KeyEvent { has_text: true, ..press(0x41) };
    assert_eq!(route_key(typed, c, false, true), KeyAction::VaultText);
    assert_eq!(route_key(ctrl(VK_T), c, false, true), KeyAction::VaultHold);
    let released = KeyEvent { pressed: false, ..typed };
    assert_eq!(route_key(released, c, false, true), KeyAction::VaultHold);
    // The lock screen without a capture keeps the key and does nothing.
    assert_eq!(route_key(typed, Overlay::Lock, false, false), KeyAction::VaultHold);
}

#[test]
fn drag_holds_keys() {
    assert_eq!(route_key(ctrl(VK_T), Overlay::Closed, true, false), KeyAction::DragHold);
}

#[test]
fn navigation_shortcuts_only_with_nothing_in_front() {
    let f5 = KeyEvent { f5: true, ..press(0) };
    assert_eq!(route_key(f5, Overlay::Closed, false, false), KeyAction::Reload);
    assert_eq!(route_key(f5, Overlay::Command, false, false), KeyAction::PageKeyDown);
    assert_eq!(route_key(ctrl(VK_R), Overlay::Closed, false, false), KeyAction::Reload);
    assert_eq!(route_key(ctrl_shift(VK_R), Overlay::Closed, false, false), KeyAction::ReloadIgnoreCache);
    let alt_left = KeyEvent { alt: true, ..press(VK_LEFT) };
    let alt_right = KeyEvent { alt: true, ..press(VK_RIGHT) };
    assert_eq!(route_key(alt_left, Overlay::Closed, false, false), KeyAction::Back);
    assert_eq!(route_key(alt_right, Overlay::Closed, false, false), KeyAction::Forward);
    assert_eq!(route_key(alt_left, Overlay::Info, false, false), KeyAction::PageKeyDown);
}

#[test]
fn plain_keys_reach_the_page() {
    assert_eq!(route_key(press(0x41), Overlay::Closed, false, false), KeyAction::PageKeyDown);
    let up = KeyEvent { pressed: false, ..press(0x41) };
    assert_eq!(route_key(up, Overlay::Closed, false, false), KeyAction::PageKeyUp);
}

#[test]
fn physical_keys_map_to_their_codes() {
    assert_eq!(vk_of(Key::KeyA), 0x41);
    assert_eq!(vk_of(Key::KeyZ), 0x5A);
    assert_eq!(vk_of(Key::Digit0), 0x30);
    assert_eq!(vk_of(Key::Digit9), 0x39);
    assert_eq!(vk_of(Key::Enter), VK_RETURN);
    assert_eq!(vk_of(Key::NumpadEnter), VK_RETURN);
    assert_eq!(vk_of(Key::Escape), VK_ESCAPE);
    assert_eq!(vk_of(Key::ArrowLeft), VK_LEFT);
    assert_eq!(vk_of(Key::Delete), 0x2E);
    assert_eq!(vk_of(Key::F5), 0);
    assert_eq!(vk_of(Key::Other), 0);
    let e = key_event(Key::F5, true, false, false, false, false);
    assert!(e.f5 && e.vk == 0);
    assert_eq!(route_key(e, Overlay::Closed, false, false), KeyAction::Reload);
    let t = key_event(Key::KeyT, true, true, false, false, true);
    assert_eq!(route_key(t, Overlay::Closed, false, false), KeyAction::AddSlot);
    let typed = key_event(Key::KeyT, true, false, false, false, true);
    assert_eq!(route_key(typed, Overlay::Lock, false, true), KeyAction::VaultText);
}
