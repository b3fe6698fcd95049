//! The shell's keyboard routing: which key events the host keeps for
//! itself (the secret-capture screen, a favourite drag, the window and
//! navigation shortcuts, Escape) and which reach the page in front.
//!
//! Keys are identified by their Windows virtual-key codes, mapped from the
//! physical keys the shell knows; F5, which has no code in that map, is
//! flagged on its own.

use vstd::prelude::*;

verus! {

/// Virtual-key codes of the keys the shell reacts to.
pub const VK_BACK: i32 = 0x08;
pub const VK_TAB: i32 = 0x09;
pub const VK_RETURN: i32 = 0x0D;
pub const VK_ESCAPE: i32 = 0x1B;
pub const VK_LEFT: i32 = 0x25;
pub const VK_RIGHT: i32 = 0x27;
pub const VK_1: i32 = 0x31;
pub const VK_4: i32 = 0x34;
pub const VK_D: i32 = 0x44;
pub const VK_L: i32 = 0x4C;
pub const VK_R: i32 = 0x52;
pub const VK_T: i32 = 0x54;
pub const VK_V: i32 = 0x56;
pub const VK_W: i32 = 0x57;

/// What is in front of the windows.
#[derive(Debug, Clone, Copy, PartialEq, Eq, Structural)]
pub enum Overlay {
    Closed,
    Command,
    Settings,
    Info,
    Lock,
}

/// One key event: pressed or released, its virtual-key code (`f5` for the
/// F5 key), the modifiers held, and whether it carries text.
#[derive(Debug, Clone, Copy)]
pub struct KeyEvent {
    pub pressed: bool,
    pub vk: i32,
    pub f5: bool,
    pub ctrl: bool,
    pub shift: bool,
    pub alt: bool,
    pub has_text: bool,
}

/// A physical key, by its position on the keyboard.
#[derive(Debug, Clone, Copy, PartialEq, Eq, Structural)]
pub enum Key {
    KeyA,
    KeyB,
    KeyC,
    KeyD,
    KeyE,
    KeyF,
    KeyG,
    KeyH,
    KeyI,
    KeyJ,
    KeyK,
    KeyL,
    KeyM,
    KeyN,
    KeyO,
    KeyP,
    KeyQ,
    KeyR,
    KeyS,
    KeyT,
    KeyU,
    KeyV,
    KeyW,
    KeyX,
    KeyY,
    KeyZ,
    Digit0,
    Digit1,
    Digit2,
    Digit3,
    Digit4,
    Digit5,
    Digit6,
    Digit7,
    Digit8,
    Digit9,
    Enter,
    NumpadEnter,
    Backspace,
    Tab,
    Space,
    Delete,
    Home,
    End,
    PageUp,
    PageDown,
    ArrowLeft,
    ArrowUp,
    ArrowRight,
    ArrowDown,
    Escape,
    F5,
    Other,
}

/// The virtual-key code of `k` (0 for keys without one).
pub open spec fn vk_code(k: Key) -> i32 {
    match k {
        Key::KeyA => 0x41,
        Key::KeyB => 0x42,
        Key::KeyC => 0x43,
        Key::KeyD => 0x44,
        Key::KeyE => 0x45,
        Key::KeyF => 0x46,
        Key::KeyG => 0x47,
        Key::KeyH => 0x48,
        Key::KeyI => 0x49,
        Key::KeyJ => 0x4A,
        Key::KeyK => 0x4B,
        Key::KeyL => 0x4C,
        Key::KeyM => 0x4D,
        Key::KeyN => 0x4E,
        Key::KeyO => 0x4F,
        Key::KeyP => 0x50,
        Key::KeyQ => 0x51,
        Key::KeyR => 0x52,
        Key::KeyS => 0x53,
        Key::KeyT => 0x54,
        Key::KeyU => 0x55,
        Key::KeyV => 0x56,
        Key::KeyW => 0x57,
        Key::KeyX => 0x58,
        Key::KeyY => 0x59,
        Key::KeyZ => 0x5A,
        Key::Digit0 => 0x30,
        Key::Digit1 => 0x31,
        Key::Digit2 => 0x32,
        Key::Digit3 => 0x33,
        Key::Digit4 => 0x34,
        Key::Digit5 => 0x35,
        Key::Digit6 => 0x36,
        Key::Digit7 => 0x37,
        Key::Digit8 => 0x38,
        Key::Digit9 => 0x39,
        Key::Enter => 0x0D,
        Key::NumpadEnter => 0x0D,
        Key::Backspace => 0x08,
        Key::Tab => 0x09,
        Key::Space => 0x20,
        Key::Delete => 0x2E,
        Key::Home => 0x24,
        Key::End => 0x23,
        Key::PageUp => 0x21,
        Key::PageDown => 0x22,
        Key::ArrowLeft => 0x25,
        Key::ArrowUp => 0x26,
        Key::ArrowRight => 0x27,
        Key::ArrowDown => 0x28,
        Key::Escape => 0x1B,
        _ => 0,
    }
}

/// The virtual-key code of `k`, as [`vk_code`].
pub fn vk_of(k: Key) -> (vk: i32)
    ensures
        vk == vk_code(k),
{
    match k {
        Key::KeyA => 0x41,
        Key::KeyB => 0x42,
        Key::KeyC => 0x43,
        Key::KeyD => 0x44,
        Key::KeyE => 0x45,
        Key::KeyF => 0x46,
        Key::KeyG => 0x47,
        Key::KeyH => 0x48,
        Key::KeyI => 0x49,
        Key::KeyJ => 0x4A,
        Key::KeyK => 0x4B,
        Key::KeyL => 0x4C,
        Key::KeyM => 0x4D,
        Key::KeyN => 0x4E,
        Key::KeyO => 0x4F,
        Key::KeyP => 0x50,
        Key::KeyQ => 0x51,
        Key::KeyR => 0x52,
        Key::KeyS => 0x53,
        Key::KeyT => 0x54,
        Key::KeyU => 0x55,
        Key::KeyV => 0x56,
        Key::KeyW => 0x57,
        Key::KeyX => 0x58,
        Key::KeyY => 0x59,
        Key::KeyZ => 0x5A,
        Key::Digit0 => 0x30,
        Key::Digit1 => 0x31,
        Key::Digit2 => 0x32,
        Key::Digit3 => 0x33,
        Key::Digit4 => 0x34,
        Key::Digit5 => 0x35,
        Key::Digit6 => 0x36,
        Key::Digit7 => 0x37,
        Key::Digit8 => 0x38,
        Key::Digit9 => 0x39,
        Key::Enter => 0x0D,
        Key::NumpadEnter => 0x0D,
        Key::Backspace => 0x08,
        Key::Tab => 0x09,
        Key::Space => 0x20,
        Key::Delete => 0x2E,
        Key::Home => 0x24,
        Key::End => 0x23,
        Key::PageUp => 0x21,
        Key::PageDown => 0x22,
        Key::ArrowLeft => 0x25,
        Key::ArrowUp => 0x26,
        Key::ArrowRight => 0x27,
        Key::ArrowDown => 0x28,
        Key::Escape => 0x1B,
        _ => 0,
    }
}

/// The key event for a press (or release) of `k` with these modifiers.
pub fn key_event(k: Key, pressed: bool, ctrl: bool, shift: bool, alt: bool, has_text: bool) -> (e: KeyEvent)
    ensures
        e == (KeyEvent { pressed, vk: vk_code(k), f5: k == Key::F5, ctrl, shift, alt, has_text }),
{
    KeyEvent { pressed, vk: vk_of(k), f5: k == Key::F5, ctrl, shift, alt, has_text }
}

/// Routing by virtual-key code tells the mapped keys apart: two keys share
/// a non-zero code only when both are Enter keys.
pub proof fn law_codes_tell_keys_apart(a: Key, b: Key)
    requires
        vk_code(a) == vk_code(b),
        vk_code(a) != 0,
    ensures
        a == b || ((a == Key::Enter || a == Key::NumpadEnter) && (b == Key::Enter || b == Key::NumpadEnter)),
{
}

/// What the shell does with a key event.
#[derive(Debug, Clone, Copy, PartialEq, Eq, Structural)]
pub enum KeyAction {
    /// Secret capture: delete the last character.
    VaultBackspace,
    /// Secret capture: submit the entry.
    VaultSubmit,
    /// Secret capture: clear the entry or step back.
    VaultEscape,
    /// Secret capture: append the clipboard text.
    VaultPaste,
    /// Secret capture: append the event's text.
    VaultText,
    /// Secret capture (or the lock screen) keeps the key and does nothing
    /// with it.
    VaultHold,
    /// Cancel the favourite drag.
    CancelDrag,
    /// A favourite drag keeps the key and does nothing with it.
    DragHold,
    /// Reveal the active window's address capsule.
    RevealCapsule,
    /// Toggle the current page's favourite.
    ToggleFavorite,
    /// Add a window.
    AddSlot,
    /// Close the active window.
    CloseActive,
    /// Cycle the active window (forward when true).
    Cycle(bool),
    /// Swap the active window with its neighbour (`-1` left, `1` right).
    Swap(i32),
    /// Toggle the active window's width.
    ToggleWidth,
    /// Focus the window at this 1-based position.
    Focus(usize),
    /// Close the command band.
    Disengage,
    /// Close the settings page.
    CloseSettings,
    /// Close the info page.
    CloseInfo,
    /// Quit the shell.
    Quit,
    /// Escape on the lock screen: nothing happens.
    Ignore,
    /// Reload the active window.
    Reload,
    /// Reload the active window bypassing its cache.
    ReloadIgnoreCache,
    /// Go back in the active window.
    Back,
    /// Go forward in the active window.
    Forward,
    /// Hand the key press (and its text) to the page in front.
    PageKeyDown,
    /// Hand the key release to the page in front.
    PageKeyUp,
}

/// The routing rules, in the order the shell applies them.
pub open spec fn routed(e: KeyEvent, overlay: Overlay, dragging: bool, capturing: bool) -> KeyAction {
    if overlay == Overlay::Lock || capturing {
        if e.pressed && capturing {
            if e.vk == VK_BACK {
                KeyAction::VaultBackspace
            } else if e.vk == VK_RETURN {
                KeyAction::VaultSubmit
            } else if e.vk == VK_ESCAPE {
                KeyAction::VaultEscape
            } else if e.ctrl && e.vk == VK_V {
                KeyAction::VaultPaste
            } else if !e.ctrl && e.has_text {
                KeyAction::VaultText
            } else {
                KeyAction::VaultHold
            }
        } else {
            KeyAction::VaultHold
        }
    } else if dragging {
        if e.vk == VK_ESCAPE && e.pressed {
            KeyAction::CancelDrag
        } else {
            KeyAction::DragHold
        }
    } else if e.pressed && e.ctrl && e.vk == VK_L {
        KeyAction::RevealCapsule
    } else if e.pressed && e.ctrl && !e.shift && e.vk == VK_D && overlay == Overlay::Closed {
        KeyAction::ToggleFavorite
    } else if e.pressed && e.ctrl && e.vk == VK_T {
        KeyAction::AddSlot
    } else if e.pressed && e.ctrl && e.vk == VK_W {
        KeyAction::CloseActive
    } else if e.pressed && e.ctrl && e.vk == VK_TAB {
        KeyAction::Cycle(!e.shift)
    } else if e.pressed && e.ctrl && e.shift && e.vk == VK_LEFT {
        KeyAction::Swap(-1i32)
    } else if e.pressed && e.ctrl && e.shift && e.vk == VK_RIGHT {
        KeyAction::Swap(1i32)
    } else if e.pressed && e.ctrl && e.shift && e.vk == VK_D {
        KeyAction::ToggleWidth
    } else if e.pressed && e.ctrl && VK_1 <= e.vk <= VK_4 {
        KeyAction::Focus((e.vk - VK_1 + 1) as usize)
    } else if e.vk == VK_ESCAPE && e.pressed {
        match overlay {
            Overlay::Command => KeyAction::Disengage,
            Overlay::Settings => KeyAction::CloseSettings,
            Overlay::Info => KeyAction::CloseInfo,
            Overlay::Closed => KeyAction::Quit,
            Overlay::Lock => KeyAction::Ignore,
        }
    } else if e.pressed && overlay == Overlay::Closed && e.f5 {
        KeyAction::Reload
    } else if e.pressed && overlay == Overlay::Closed && e.ctrl && e.vk == VK_R {
        if e.shift {
            KeyAction::ReloadIgnoreCache
        } else {
            KeyAction::Reload
        }
    } else if e.pressed && overlay == Overlay::Closed && e.alt && e.vk == VK_LEFT {
        KeyAction::Back
    } else if e.pressed && overlay == Overlay::Closed && e.alt && e.vk == VK_RIGHT {
        KeyAction::Forward
    } else if e.pressed {
        KeyAction::PageKeyDown
    } else {
        KeyAction::PageKeyUp
    }
}

/// Route one key event, given what is in front, whether a favourite drag is
/// in progress, and whether a secret is being captured.
pub fn route_key(e: KeyEvent, overlay: Overlay, dragging: bool, capturing: bool) -> (a: KeyAction)
    ensures
        a == routed(e, overlay, dragging, capturing),
{
    if overlay == Overlay::Lock || capturing {
        if e.pressed && capturing {
            if e.vk == VK_BACK {
                KeyAction::VaultBackspace
            } else if e.vk == VK_RETURN {
                KeyAction::VaultSubmit
            } else if e.vk == VK_ESCAPE {
                KeyAction::VaultEscape
            } else if e.ctrl && e.vk == VK_V {
                KeyAction::VaultPaste
            } else if !e.ctrl && e.has_text {
                KeyAction::VaultText
            } else {
                KeyAction::VaultHold
            }
        } else {
            KeyAction::VaultHold
        }
    } else if dragging {
        if e.vk == VK_ESCAPE && e.pressed {
            KeyAction::CancelDrag
        } else {
            KeyAction::DragHold
        }
    } else if e.pressed && e.ctrl && e.vk == VK_L {
        KeyAction::RevealCapsule
    } else if e.pressed && e.ctrl && !e.shift && e.vk == VK_D && overlay == Overlay::Closed {
        KeyAction::ToggleFavorite
    } else if e.pressed && e.ctrl && e.vk == VK_T {
        KeyAction::AddSlot
    } else if e.pressed && e.ctrl && e.vk == VK_W {
        KeyAction::CloseActive
    } else if e.pressed && e.ctrl && e.vk == VK_TAB {
        KeyAction::Cycle(!e.shift)
    } else if e.pressed && e.ctrl && e.shift && e.vk == VK_LEFT {
        KeyAction::Swap(-1i32)
    } else if e.pressed && e.ctrl && e.shift && e.vk == VK_RIGHT {
        KeyAction::Swap(1i32)
    } else if e.pressed && e.ctrl && e.shift && e.vk == VK_D {
        KeyAction::ToggleWidth
    } else if e.pressed && e.ctrl && VK_1 <= e.vk && e.vk <= VK_4 {
        KeyAction::Focus((e.vk - VK_1 + 1) as usize)
    } else if e.vk == VK_ESCAPE && e.pressed {
        match overlay {
            Overlay::Command => KeyAction::Disengage,
            Overlay::Settings => KeyAction::CloseSettings,
            Overlay::Info => KeyAction::CloseInfo,
            Overlay::Closed => KeyAction::Quit,
            Overlay::Lock => KeyAction::Ignore,
        }
    } else if e.pressed && overlay == Overlay::Closed && e.f5 {
        KeyAction::Reload
    } else if e.pressed && overlay == Overlay::Closed && e.ctrl && e.vk == VK_R {
        if e.shift {
            KeyAction::ReloadIgnoreCache
        } else {
            KeyAction::Reload
        }
    } else if e.pressed && overlay == Overlay::Closed && e.alt && e.vk == VK_LEFT {
        KeyAction::Back
    } else if e.pressed && overlay == Overlay::Closed && e.alt && e.vk == VK_RIGHT {
        KeyAction::Forward
    } else if e.pressed {
        KeyAction::PageKeyDown
    } else {
        KeyAction::PageKeyUp
    }
}

/// Outside the lock screen, secret capture and a drag, the shell keeps its
/// own shortcuts, whatever the page in front: Ctrl+L reveals the address
/// capsule, Ctrl+T adds a window, Ctrl+W closes the active one, Ctrl+Tab
/// (with Shift: backwards) cycles, Ctrl+Shift+Left/Right swaps, Ctrl+Shift+D
/// toggles the width and Ctrl+1..4 focuses a window by position; Ctrl+D
/// toggles the favourite with nothing in front and belongs to the page while
/// an overlay is open. With nothing in front F5 and Ctrl+R reload
/// (Ctrl+Shift+R bypassing the cache) and Alt+Left/Right go back and
/// forward. None of these reaches a page.
pub proof fn law_shell_shortcuts(e: KeyEvent, overlay: Overlay, dragging: bool, capturing: bool)
    requires
        overlay != Overlay::Lock,
        !capturing,
        !dragging,
        e.pressed,
    ensures
        e.ctrl && e.vk == 0x4C ==> routed(e, overlay, dragging, capturing) == KeyAction::RevealCapsule,
        e.ctrl && e.vk == 0x54 ==> routed(e, overlay, dragging, capturing) == KeyAction::AddSlot,
        e.ctrl && e.vk == 0x57 ==> routed(e, overlay, dragging, capturing) == KeyAction::CloseActive,
        e.ctrl && e.vk == 0x09 ==> routed(e, overlay, dragging, capturing) == KeyAction::Cycle(!e.shift),
        e.ctrl && e.shift && e.vk == 0x25 ==> routed(e, overlay, dragging, capturing) == KeyAction::Swap(-1i32),
        e.ctrl && e.shift && e.vk == 0x27 ==> routed(e, overlay, dragging, capturing) == KeyAction::Swap(1i32),
        e.ctrl && e.shift && e.vk == 0x44 ==> routed(e, overlay, dragging, capturing) == KeyAction::ToggleWidth,
        e.ctrl && !e.shift && e.vk == 0x44 && overlay == Overlay::Closed
            ==> routed(e, overlay, dragging, capturing) == KeyAction::ToggleFavorite,
        e.ctrl && !e.shift && e.vk == 0x44 && overlay != Overlay::Closed && !e.f5
            ==> routed(e, overlay, dragging, capturing) == KeyAction::PageKeyDown,
        e.ctrl && 0x31 <= e.vk <= 0x34
            ==> routed(e, overlay, dragging, capturing) == KeyAction::Focus((e.vk - 0x30) as usize),
        overlay == Overlay::Closed && e.f5 && e.vk == 0 ==> routed(e, overlay, dragging, capturing) == KeyAction::Reload,
        overlay == Overlay::Closed && e.ctrl && !e.f5 && e.vk == 0x52
            ==> routed(e, overlay, dragging, capturing) == (if e.shift {
                KeyAction::ReloadIgnoreCache
            } else {
                KeyAction::Reload
            }),
        overlay == Overlay::Closed && e.alt && !e.ctrl && !e.f5 && e.vk == 0x25
            ==> routed(e, overlay, dragging, capturing) == KeyAction::Back,
        overlay == Overlay::Closed && e.alt && !e.ctrl && !e.f5 && e.vk == 0x27
            ==> routed(e, overlay, dragging, capturing) == KeyAction::Forward,
{
}

/// The actions that hand a key to a page.
pub open spec fn reaches_page(a: KeyAction) -> bool {
    a == KeyAction::PageKeyDown || a == KeyAction::PageKeyUp
}

/// While a secret is captured, or the lock screen is up, no keystroke ever
/// reaches a page, and Escape never quits the shell.
pub proof fn law_secret_capture_keeps_every_key(e: KeyEvent, overlay: Overlay, dragging: bool, capturing: bool)
    requires
        capturing || overlay == Overlay::Lock,
    ensures
        !reaches_page(routed(e, overlay, dragging, capturing)),
        routed(e, overlay, dragging, capturing) != KeyAction::Quit,
{
}

/// A favourite drag swallows every key; Escape cancels it.
pub proof fn law_drag_swallows_keys(e: KeyEvent, overlay: Overlay)
    requires
        overlay != Overlay::Lock,
    ensures
        routed(e, overlay, true, false) == (if e.vk == VK_ESCAPE && e.pressed {
            KeyAction::CancelDrag
        } else {
            KeyAction::DragHold
        }),
{
}

/// Escape quits the shell only when nothing is in front of the windows:
/// with an overlay open it closes that overlay instead.
pub proof fn law_escape_closes_the_overlay_first(e: KeyEvent, overlay: Overlay, dragging: bool, capturing: bool)
    requires
        routed(e, overlay, dragging, capturing) == KeyAction::Quit,
    ensures
        overlay == Overlay::Closed,
        !dragging,
        !capturing,
{
}

} // verus!
