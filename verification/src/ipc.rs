//! The internal pages' requests: a decoded request in, a JSON reply (or an
//! error code and message) out.
//!
//! Error codes: 1 for a request that is not valid JSON, 2 for a missing or
//! mistyped field, 3 for a value the setting refuses, 4 for an unknown
//! command. Commands that act on a window's page (load, back, forward,
//! reload) or on the shell (close, quit, respawn) are queued in the host
//! state for the shell to carry out. A few commands need what only the
//! application holds (the history store, the log ring, the disk, the pages'
//! navigation state, the hardening configuration, a fresh random seed); for
//! those the answer says what to fetch, and the reply is built from it by
//! the functions here.

use vstd::prelude::*;
use crate::browser::{
    request_error, set_setting, setting_set, slot_screen_choice, slot_screen_reply, slot_screen_text,
    target_slot, Identity, SettingValue, SlotModes,
};
use crate::logging::LogQuery;
use crate::memory::{recordable, PageEntry};
use crate::settings::Settings;
use crate::text::{decimal, push_decimal, push_str, str_eq};
use crate::harden::{level_of_word, Level};
use crate::tor::TorState;
use crate::workspace::Workspace;

verus! {

broadcast use vstd::string::group_string_axioms;

/// One decoded request: its command and the fields the commands read (each
/// `None` when absent or of the wrong JSON type; `value` keeps its type).
pub struct Request {
    pub cmd: String,
    pub slot: Option<u64>,
    pub key: Option<String>,
    pub value: Option<SettingValue>,
    pub input: Option<String>,
    pub url: Option<String>,
    pub title: Option<String>,
    /// A hardening level word.
    pub level: Option<String>,
    /// The confirmation a weakening hardening change needs.
    pub confirm: Option<bool>,
    /// Whether the user is typing in the band.
    pub active: Option<bool>,
    /// The log viewer's active tab.
    pub tab: Option<String>,
    /// The log viewer's filter and position.
    pub log: LogQuery,
}

/// A history step queued for a window's page.
#[derive(Debug, Clone, Copy, PartialEq, Eq, Structural)]
pub enum NavStep {
    Back,
    Forward,
    Reload,
}

/// The host state the requests read and change.
pub struct HostState {
    pub settings: Settings,
    pub identity: Identity,
    pub workspace: Workspace,
    pub modes: SlotModes,
    pub tor: TorState,
    /// The custom hardening flags, as their JSON object.
    pub fp_custom: String,
    /// The global reported screen changed.
    pub pending_global_screen: bool,
    /// Windows whose own reported screen changed.
    pub pending_slot_screen: Vec<usize>,
    /// Windows whose Tor mode is to flip.
    pub pending_tor_toggles: Vec<usize>,
    /// Windows to close.
    pub pending_closes: Vec<usize>,
    /// A quit, saving the session when `true`.
    pub pending_quit: Option<bool>,
    /// A favourite drag the page started: its URL and title.
    pub pending_drag: Option<(String, String)>,
    /// The settings card is to open.
    pub open_settings: bool,
    /// The command band's cached frame state (JSON).
    pub frame_state: String,
    /// The HUD strip's cached state (JSON).
    pub hud_state: String,
    /// Addresses to load, by window.
    pub pending_navigations: Vec<(usize, String)>,
    /// The open overlay is to close.
    pub overlay_close: bool,
    /// History steps to take, by window.
    pub pending_steps: Vec<(usize, NavStep)>,
    /// The user is typing in the band.
    pub bar_typing: bool,
    /// The log viewer's terminal tab is shown (its zone is wide).
    pub mf_wide: bool,
    /// The frame is to be laid out again.
    pub mf_relayout: bool,
    /// Windows to respawn under a new hardening config or identity.
    pub pending_slot_hardening: Vec<usize>,
}

/// The host state as values.
#[verifier::ext_equal]
pub struct HostView {
    pub settings: Settings,
    pub identity: Identity,
    pub workspace: Workspace,
    pub modes: SlotModes,
    pub tor: TorState,
    pub fp_custom: Seq<char>,
    pub pending_global_screen: bool,
    pub pending_slot_screen: Seq<usize>,
    pub pending_tor_toggles: Seq<usize>,
    pub pending_closes: Seq<usize>,
    pub pending_quit: Option<bool>,
    pub pending_drag: Option<(Seq<char>, Seq<char>)>,
    pub open_settings: bool,
    pub frame_state: Seq<char>,
    pub hud_state: Seq<char>,
    pub pending_navigations: Seq<(usize, Seq<char>)>,
    pub overlay_close: bool,
    pub pending_steps: Seq<(usize, NavStep)>,
    pub bar_typing: bool,
    pub mf_wide: bool,
    pub mf_relayout: bool,
    pub pending_slot_hardening: Seq<usize>,
}

/// Queued loads as values.
pub open spec fn navigation_views(v: Seq<(usize, String)>) -> Seq<(usize, Seq<char>)> {
    v.map_values(|p: (usize, String)| (p.0, p.1@))
}

impl View for HostState {
    type V = HostView;

    open spec fn view(&self) -> HostView {
        HostView {
            settings: self.settings,
            identity: self.identity,
            workspace: self.workspace,
            modes: self.modes,
            tor: self.tor,
            fp_custom: self.fp_custom@,
            pending_global_screen: self.pending_global_screen,
            pending_slot_screen: self.pending_slot_screen@,
            pending_tor_toggles: self.pending_tor_toggles@,
            pending_closes: self.pending_closes@,
            pending_quit: self.pending_quit,
            pending_drag: match self.pending_drag {
                Some((u, t)) => Some((u@, t@)),
                None => None,
            },
            open_settings: self.open_settings,
            frame_state: self.frame_state@,
            hud_state: self.hud_state@,
            pending_navigations: navigation_views(self.pending_navigations@),
            overlay_close: self.overlay_close,
            pending_steps: self.pending_steps@,
            bar_typing: self.bar_typing,
            mf_wide: self.mf_wide,
            mf_relayout: self.mf_relayout,
            pending_slot_hardening: self.pending_slot_hardening@,
        }
    }
}

impl HostState {
    /// The parts the requests rely on are well formed.
    pub open spec fn wf(&self) -> bool {
        &&& self.workspace.wf()
        &&& self.modes.wf()
        &&& self.identity.wf()
        &&& self.tor.wf()
    }
}

/// What answering a request comes to.
pub enum Answer {
    /// The reply: JSON text, or an error code and message.
    Reply(Result<String, (i32, String)>),
    /// Look up the palette suggestions for this input in the store and
    /// reply with [`crate::browser::suggestions_json`].
    Suggestions(String),
    /// Toggle this page's favourite in the store (nothing for internal or
    /// blank pages, which are never favourites) and reply with
    /// [`favorite_reply`] of the new state.
    ToggleFavorite(Option<PageEntry>),
    /// Reply with the log records this query selects.
    LogLines(LogQuery),
    /// Reply with the browsing-cache footprint.
    Footprint,
    /// Reply with the cached frame state, its Tor status brought up to date.
    Frame,
    /// Reply with [`crate::browser::nav_state_json`] of this window's page.
    NavState(usize),
    /// Reply with the update-awareness items.
    InfoItems,
    /// Reply with [`tor_status_reply`] of this status and failure reason and
    /// the Tor engine's version.
    TorStatus(u8, String),
    /// Mint a fresh seed and finish with [`finish_new_identity`] for this
    /// window.
    NewIdentity(usize),
    /// Apply the global hardening level (the word given) under the
    /// confirmation given, with the request's per-vector flags.
    SetHardening(String, bool),
    /// Reply with this window's hardening state.
    SlotHardening(usize),
    /// Apply this window's hardening override (`None`: inherit the global)
    /// under the confirmation given, with the request's per-vector flags for
    /// a custom level.
    SetSlotHardening(usize, Option<Level>, bool),
}

/// The `tor_status` reply: the engine's status code, its failure reason,
/// and its version, as a JSON object with its keys in order.
pub open spec fn tor_status_text(status: u8, reason: Seq<char>, version: Seq<char>) -> Seq<char> {
    "{\"reason\":"@ + crate::json::quoted(reason) + ",\"status\":"@ + decimal(status as nat)
        + ",\"version\":"@ + crate::json::quoted(version) + "}"@
}

/// The `tor_status` reply (see [`tor_status_text`]).
pub fn tor_status_reply(status: u8, reason: &str, version: &str) -> (r: String)
    ensures
        r@ == tor_status_text(status, reason@, version@),
{
    let mut r = String::from_str("{\"reason\":");
    crate::json::push_json_string(&mut r, reason);
    push_str(&mut r, ",\"status\":");
    push_decimal(&mut r, status as u64);
    push_str(&mut r, ",\"version\":");
    crate::json::push_json_string(&mut r, version);
    push_str(&mut r, "}");
    r
}

/// Finish a `new_identity` request for window `slot` with the `fresh` seed
/// the shell minted: the window gets its own fresh seed (and, when the
/// settings ask for new circuits and the window is on Tor, the Tor identity
/// moves on), the window is queued for a respawn, and the reply is the
/// plain success.
pub fn finish_new_identity(host: &mut HostState, slot: usize, fresh: String) -> (r: String)
    requires
        old(host).wf(),
        slot < crate::slots::MAX_SLOTS,
    ensures
        final(host).wf(),
        r@ == ok_text(),
        final(host)@ == (HostView {
            identity: final(host)@.identity,
            tor: final(host)@.tor,
            pending_slot_hardening: old(host)@.pending_slot_hardening.push(slot),
            ..old(host)@
        }),
        final(host).identity.own(slot as int) == Some(fresh@),
        forall|j: int| j != slot ==> #[trigger] final(host).identity.own(j) == old(host).identity.own(j),
        final(host).identity.global() == old(host).identity.global(),
        final(host).identity.born() == old(host).identity.born(),
        final(host).identity.epoch() == old(host).identity.epoch(),
        final(host).tor.epoch() == (if old(host).settings.rotate_new_circuit && old(host).modes.tor(slot as int) {
            ((old(host).tor.epoch() + 1) % 0x1_0000_0000_0000_0000) as u64
        } else {
            old(host).tor.epoch()
        }),
        final(host).tor.status_code() == old(host).tor.status_code(),
        final(host).tor.reason() == old(host).tor.reason(),
{
    let on_tor = crate::browser::slot_is_tor(&host.modes, slot);
    crate::browser::rotate_slot_identity(&mut host.identity, slot, fresh, &host.settings, on_tor, &mut host.tor);
    proof {
        TorState::lemma_wf_same_status(old(host).tor, host.tor);
    }
    host.pending_slot_hardening.push(slot);
    String::from_str("{\"ok\":true}")
}

/// The plain success reply.
pub open spec fn ok_text() -> Seq<char> {
    "{\"ok\":true}"@
}

/// The reply to a favourite toggle whose new state is `favorite`.
pub open spec fn favorite_text(favorite: bool) -> Seq<char> {
    "{\"favorite\":"@ + crate::json::json_bool(favorite) + "}"@
}

/// The reply to a favourite toggle whose new state is `favorite`.
pub fn favorite_reply(favorite: bool) -> (r: String)
    ensures
        r@ == favorite_text(favorite),
{
    let mut r = String::from_str("{\"favorite\":");
    crate::json::push_json_bool(&mut r, favorite);
    push_str(&mut r, "}");
    r
}

/// An optional text as its view.
pub open spec fn opt_text(o: Option<String>) -> Option<Seq<char>> {
    match o {
        Some(t) => Some(t@),
        None => None,
    }
}

/// The answer is the reply `r` and the state did not change.
pub open spec fn replied(pre: HostView, post: HostView, a: Answer, r: Result<String, (i32, String)>) -> bool {
    a matches Answer::Reply(x) && x == r && post == pre
}

/// The answer is `Reply(Ok(t))` with `t` the text `text`.
pub open spec fn replied_ok(a: Answer, text: Seq<char>) -> bool {
    a matches Answer::Reply(Ok(t)) && t@ == text
}

/// The answer is `Reply` of an error with this code and message.
pub open spec fn replied_err(a: Answer, code: i32, msg: Seq<char>) -> bool {
    a matches Answer::Reply(r) && request_error(r, code, msg)
}

/// The commands the internal pages send.
#[derive(Debug, Clone, Copy, PartialEq, Eq, Structural)]
pub enum Command {
    GetSettings,
    SetSetting,
    GetFrame,
    GetNavState,
    Navigate,
    GoBack,
    GoForward,
    Reload,
    QuerySuggestions,
    ToggleFavorite,
    DragStart,
    BarTyping,
    GetInfoItems,
    ToggleTor,
    CloseSlot,
    SetHardening,
    SetSlotScreen,
    GetSlotScreen,
    GetSlotHardening,
    SetSlotHardening,
    Quit,
    QuitSave,
    TorStatus,
    TorNewCircuit,
    NewIdentity,
    GetLogLines,
    GetHudState,
    OpenSettings,
    MfTab,
    GetResidueFootprint,
    /// Any other command word.
    Unknown,
}

/// The command a request's command word names.
pub open spec fn command_of(w: Seq<char>) -> Command {
    if w == "get_settings"@ {
        Command::GetSettings
    } else if w == "set_setting"@ {
        Command::SetSetting
    } else if w == "get_frame"@ {
        Command::GetFrame
    } else if w == "get_nav_state"@ {
        Command::GetNavState
    } else if w == "navigate"@ {
        Command::Navigate
    } else if w == "go_back"@ {
        Command::GoBack
    } else if w == "go_forward"@ {
        Command::GoForward
    } else if w == "reload"@ {
        Command::Reload
    } else if w == "query_suggestions"@ {
        Command::QuerySuggestions
    } else if w == "toggle_favorite"@ {
        Command::ToggleFavorite
    } else if w == "drag_start"@ {
        Command::DragStart
    } else if w == "bar_typing"@ {
        Command::BarTyping
    } else if w == "get_info_items"@ {
        Command::GetInfoItems
    } else if w == "toggle_tor"@ {
        Command::ToggleTor
    } else if w == "close_slot"@ {
        Command::CloseSlot
    } else if w == "set_hardening"@ {
        Command::SetHardening
    } else if w == "set_slot_screen"@ {
        Command::SetSlotScreen
    } else if w == "get_slot_screen"@ {
        Command::GetSlotScreen
    } else if w == "get_slot_hardening"@ {
        Command::GetSlotHardening
    } else if w == "set_slot_hardening"@ {
        Command::SetSlotHardening
    } else if w == "quit"@ {
        Command::Quit
    } else if w == "quit_save"@ {
        Command::QuitSave
    } else if w == "tor_status"@ {
        Command::TorStatus
    } else if w == "tor_new_circuit"@ {
        Command::TorNewCircuit
    } else if w == "new_identity"@ {
        Command::NewIdentity
    } else if w == "get_log_lines"@ {
        Command::GetLogLines
    } else if w == "get_hud_state"@ {
        Command::GetHudState
    } else if w == "open_settings"@ {
        Command::OpenSettings
    } else if w == "mf_tab"@ {
        Command::MfTab
    } else if w == "get_residue_footprint"@ {
        Command::GetResidueFootprint
    } else {
        Command::Unknown
    }
}

/// The command a request's command word names (see [`command_of`]).
pub fn command(w: &str) -> (c: Command)
    ensures
        c == command_of(w@),
{
    if str_eq(w, "get_settings") {
        Command::GetSettings
    } else if str_eq(w, "set_setting") {
        Command::SetSetting
    } else if str_eq(w, "get_frame") {
        Command::GetFrame
    } else if str_eq(w, "get_nav_state") {
        Command::GetNavState
    } else if str_eq(w, "navigate") {
        Command::Navigate
    } else if str_eq(w, "go_back") {
        Command::GoBack
    } else if str_eq(w, "go_forward") {
        Command::GoForward
    } else if str_eq(w, "reload") {
        Command::Reload
    } else if str_eq(w, "query_suggestions") {
        Command::QuerySuggestions
    } else if str_eq(w, "toggle_favorite") {
        Command::ToggleFavorite
    } else if str_eq(w, "drag_start") {
        Command::DragStart
    } else if str_eq(w, "bar_typing") {
        Command::BarTyping
    } else if str_eq(w, "get_info_items") {
        Command::GetInfoItems
    } else if str_eq(w, "toggle_tor") {
        Command::ToggleTor
    } else if str_eq(w, "close_slot") {
        Command::CloseSlot
    } else if str_eq(w, "set_hardening") {
        Command::SetHardening
    } else if str_eq(w, "set_slot_screen") {
        Command::SetSlotScreen
    } else if str_eq(w, "get_slot_screen") {
        Command::GetSlotScreen
    } else if str_eq(w, "get_slot_hardening") {
        Command::GetSlotHardening
    } else if str_eq(w, "set_slot_hardening") {
        Command::SetSlotHardening
    } else if str_eq(w, "quit") {
        Command::Quit
    } else if str_eq(w, "quit_save") {
        Command::QuitSave
    } else if str_eq(w, "tor_status") {
        Command::TorStatus
    } else if str_eq(w, "tor_new_circuit") {
        Command::TorNewCircuit
    } else if str_eq(w, "new_identity") {
        Command::NewIdentity
    } else if str_eq(w, "get_log_lines") {
        Command::GetLogLines
    } else if str_eq(w, "get_hud_state") {
        Command::GetHudState
    } else if str_eq(w, "open_settings") {
        Command::OpenSettings
    } else if str_eq(w, "mf_tab") {
        Command::MfTab
    } else if str_eq(w, "get_residue_footprint") {
        Command::GetResidueFootprint
    } else {
        Command::Unknown
    }
}

/// A history step `step` for window `slot` was queued and answered with
/// the plain success.
pub open spec fn stepped(pre: HostView, post: HostView, a: Answer, slot: usize, step: NavStep) -> bool {
    replied_ok(a, ok_text()) && post == (HostView { pending_steps: pre.pending_steps.push((slot, step)), ..pre })
}

/// What answering `req` from state `pre` does: the state afterwards `post`
/// and the answer `a`, command by command (`parsed` is the request, or the
/// parser's message when the text was not valid JSON).
pub open spec fn answered(pre: HostView, post: HostView, parsed: Result<Request, String>, a: Answer) -> bool {
    match parsed {
        Err(e) => post == pre && replied_err(a, 1, "bad request json: "@ + e@),
        Ok(req) => {
            let cmd = req.cmd@;
            let slot = match req.slot {
                Some(n) => if n < crate::slots::MAX_SLOTS - 1 { n as int } else { crate::slots::MAX_SLOTS - 1 },
                None => pre.workspace.active() as int,
            };
            match command_of(cmd) {
                Command::GetSettings => {
                    post == pre && replied_ok(a, crate::settings::snapshot(pre.settings, pre.fp_custom))
                },
                Command::SetSetting => {
                    (a matches Answer::Reply(r) && setting_set(
                        pre.settings,
                        post.settings,
                        pre.identity,
                        opt_text(req.key),
                        req.value,
                        pre.pending_global_screen,
                        post.pending_global_screen,
                        r,
                    )) && post == (HostView {
                        settings: post.settings,
                        pending_global_screen: post.pending_global_screen,
                        ..pre
                    })
                },
                Command::Navigate => {
                    match req.input {
                        None => post == pre && replied_err(a, 2, "missing 'input'"@),
                        Some(i) => {
                            let url = crate::browser::classified(
                                crate::settings::engine_word(pre.settings.search_engine),
                                i@,
                            );
                            replied_ok(a, crate::browser::navigate_text(url)) && post == (HostView {
                                pending_navigations: pre.pending_navigations.push((slot as usize, url)),
                                overlay_close: true,
                                ..pre
                            })
                        },
                    }
                },
                Command::GetFrame => {
                    post == pre && a is Frame
                },
                Command::GetNavState => {
                    post == pre && a == Answer::NavState(slot as usize)
                },
                Command::GoBack => stepped(pre, post, a, slot as usize, NavStep::Back),
                Command::GoForward => stepped(pre, post, a, slot as usize, NavStep::Forward),
                Command::Reload => {
                    stepped(pre, post, a, slot as usize, NavStep::Reload)
                },
                Command::BarTyping => {
                    replied_ok(a, ok_text()) && post == (HostView { bar_typing: req.active == Some(true), ..pre })
                },
                Command::MfTab => {
                    let wide = req.tab matches Some(t) && t@ == "term"@;
                    replied_ok(a, ok_text()) && post == (HostView {
                        mf_wide: wide,
                        mf_relayout: pre.mf_relayout || pre.mf_wide != wide,
                        ..pre
                    })
                },
                Command::GetInfoItems => {
                    post == pre && a is InfoItems
                },
                Command::TorStatus => {
                    post == pre && (a matches Answer::TorStatus(st, reason) && st == pre.tor.status_code()
                        && reason@ == pre.tor.reason())
                },
                Command::NewIdentity => {
                    post == pre && a == Answer::NewIdentity(slot as usize)
                },
                Command::GetHudState => {
                    post == pre && replied_ok(a, pre.hud_state)
                },
                Command::SetHardening => {
                    post == pre && match req.level {
                        None => replied_err(a, 2, "missing 'level'"@),
                        Some(l) => a matches Answer::SetHardening(w, c) && w@ == l@ && c == (req.confirm == Some(true)),
                    }
                },
                Command::GetSlotHardening => {
                    post == pre && a == Answer::SlotHardening(slot as usize)
                },
                Command::SetSlotHardening => {
                    post == pre && match req.level {
                        None => replied_err(a, 2, "missing 'level'"@),
                        Some(l) => {
                            let confirm = req.confirm == Some(true);
                            if l@ == "inherit"@ {
                                a == Answer::SetSlotHardening(slot as usize, None, confirm)
                            } else if l@ == "custom"@ {
                                a == Answer::SetSlotHardening(slot as usize, Some(Level::Custom), confirm)
                            } else {
                                match level_of_word(l@) {
                                    Some(v) => a == Answer::SetSlotHardening(slot as usize, Some(v), confirm),
                                    None => replied_err(a, 2, "bad level: "@ + l@),
                                }
                            }
                        },
                    }
                },
                Command::QuerySuggestions => {
                    post == pre && (a matches Answer::Suggestions(i) && i@ == (match req.input {
                        Some(t) => t@,
                        None => Seq::<char>::empty(),
                    }))
                },
                Command::ToggleFavorite => {
                    post == pre && match req.url {
                        None => replied_err(a, 2, "missing 'url'"@),
                        Some(u) => a matches Answer::ToggleFavorite(e) && (match e {
                            Some(x) => recordable(u@) && x.url@ == u@ && x.title@ == (match req.title {
                                Some(t) => t@,
                                None => Seq::<char>::empty(),
                            }),
                            None => !recordable(u@),
                        }),
                    }
                },
                Command::DragStart => {
                    match req.url {
                        None => post == pre && replied_err(a, 2, "missing 'url'"@),
                        Some(u) => replied_ok(a, ok_text()) && post == (HostView {
                            pending_drag: Some((u@, match req.title {
                                Some(t) => t@,
                                None => Seq::<char>::empty(),
                            })),
                            ..pre
                        }),
                    }
                },
                Command::ToggleTor => {
                    replied_ok(a, ok_text()) && post == (HostView {
                        pending_tor_toggles: pre.pending_tor_toggles.push(slot as usize),
                        ..pre
                    })
                },
                Command::CloseSlot => {
                    replied_ok(a, ok_text()) && post == (HostView {
                        pending_closes: pre.pending_closes.push(slot as usize),
                        ..pre
                    })
                },
                Command::Quit => replied_ok(a, ok_text()) && post == (HostView { pending_quit: Some(false), ..pre }),
                Command::QuitSave => {
                    replied_ok(a, ok_text()) && post == (HostView { pending_quit: Some(true), ..pre })
                },
                Command::OpenSettings => {
                    replied_ok(a, ok_text()) && post == (HostView { open_settings: true, ..pre })
                },
                Command::TorNewCircuit => {
                    replied_ok(a, ok_text()) && post == (HostView { tor: post.tor, ..pre })
                        && post.tor.epoch() == (pre.tor.epoch() + 1) % 0x1_0000_0000_0000_0000
                        && post.tor.status_code() == pre.tor.status_code()
                        && post.tor.reason() == pre.tor.reason()
                },
                Command::SetSlotScreen => {
                    match req.value {
                        Some(SettingValue::Text(v)) => if v@ != "inherit"@ && crate::settings::screen_of_word(v@) is None {
                            post == pre && replied_err(a, 2, "unknown screen preset: "@ + v@)
                        } else {
                            replied_ok(a, ok_text()) && post == (HostView {
                                modes: post.modes,
                                pending_slot_screen: pre.pending_slot_screen.push(slot as usize),
                                ..pre
                            }) && post.modes.wf() && post.modes.screen(slot) == (if v@ == "inherit"@ {
                                None
                            } else {
                                crate::settings::screen_of_word(v@)
                            }) && (forall|j: int| j != slot ==> #[trigger] post.modes.screen(j) == pre.modes.screen(j))
                                && (forall|j: int| #[trigger] post.modes.tor(j) == pre.modes.tor(j))
                        },
                        _ => post == pre && replied_err(a, 2, "missing 'value'"@),
                    }
                },
                Command::GetSlotScreen => {
                    post == pre && replied_ok(a, slot_screen_text(pre.modes.screen(slot), pre.settings.screen_preset))
                },
                Command::GetLogLines => {
                    post == pre && (a matches Answer::LogLines(q) && q == req.log)
                },
                Command::GetResidueFootprint => {
                    post == pre && a is Footprint
                },
                Command::Unknown => post == pre && replied_err(a, 4, "unknown cmd: "@ + cmd),
            }
        },
    }
}

fn ok_reply() -> (a: Answer)
    ensures
        replied_ok(a, ok_text()),
{
    Answer::Reply(Ok(String::from_str("{\"ok\":true}")))
}

fn error_only(code: i32, msg: &str) -> (a: Answer)
    ensures
        replied_err(a, code, msg@),
{
    Answer::Reply(Err((code, String::from_str(msg))))
}

fn error_reply(code: i32, msg: &str, tail: &str) -> (a: Answer)
    ensures
        replied_err(a, code, msg@ + tail@),
{
    let mut m = String::from_str(msg);
    push_str(&mut m, tail);
    Answer::Reply(Err((code, m)))
}

/// Answer one request (see [`answered`]).
pub fn handle_request(host: &mut HostState, parsed: Result<Request, String>) -> (a: Answer)
    requires
        old(host).wf(),
    ensures
        final(host).wf(),
        answered(old(host)@, final(host)@, parsed, a),
{
    let req = match parsed {
        Err(e) => {
            return error_reply(1, "bad request json: ", e.as_str());
        },
        Ok(r) => r,
    };
    let cmd = req.cmd.as_str();
    let slot = target_slot(req.slot, host.workspace.active_slot());
    match command(cmd) {
        Command::GetSettings => {
            Answer::Reply(Ok(crate::settings::snapshot_json(&host.settings, host.fp_custom.as_str())))
        },
        Command::SetSetting => {
            let key = match &req.key {
                Some(k) => Some(k.as_str()),
                None => None,
            };
            let r = set_setting(&mut host.settings, &host.identity, key, req.value, &mut host.pending_global_screen);
            Answer::Reply(r)
        },
        Command::Navigate => {
            match &req.input {
                None => error_only(2, "missing 'input'"),
                Some(i) => {
                    let url = crate::browser::classify_input_for(crate::settings::search_engine(&host.settings), i.as_str());
                    let reply = crate::browser::navigate_reply(url.as_str());
                    let ghost before = host.pending_navigations@;
                    host.pending_navigations.push((slot, url));
                    proof {
                        assert(navigation_views(host.pending_navigations@) =~= navigation_views(before).push(
                            (slot, host.pending_navigations@.last().1@),
                        ));
                    }
                    host.overlay_close = true;
                    Answer::Reply(Ok(reply))
                },
            }
        },
        Command::GetFrame => {
            Answer::Frame
        },
        Command::GetNavState => {
            Answer::NavState(slot)
        },
        Command::GoBack => {
            host.pending_steps.push((slot, NavStep::Back));
            ok_reply()
        },
        Command::GoForward => {
            host.pending_steps.push((slot, NavStep::Forward));
            ok_reply()
        },
        Command::Reload => {
            host.pending_steps.push((slot, NavStep::Reload));
            ok_reply()
        },
        Command::BarTyping => {
            host.bar_typing = match req.active {
                Some(b) => b,
                None => false,
            };
            ok_reply()
        },
        Command::MfTab => {
            let wide = match &req.tab {
                Some(t) => str_eq(t.as_str(), "term"),
                None => false,
            };
            if host.mf_wide != wide {
                host.mf_relayout = true;
            }
            host.mf_wide = wide;
            ok_reply()
        },
        Command::GetInfoItems => {
            Answer::InfoItems
        },
        Command::TorStatus => {
            Answer::TorStatus(crate::tor::status(&host.tor), crate::tor::fail_reason(&host.tor))
        },
        Command::NewIdentity => {
            Answer::NewIdentity(slot)
        },
        Command::GetHudState => {
            Answer::Reply(Ok(host.hud_state.clone()))
        },
        Command::SetHardening => {
            let confirm = match req.confirm {
                Some(c) => c,
                None => false,
            };
            match req.level {
                None => error_only(2, "missing 'level'"),
                Some(l) => Answer::SetHardening(l, confirm),
            }
        },
        Command::GetSlotHardening => {
            Answer::SlotHardening(slot)
        },
        Command::SetSlotHardening => {
            let confirm = match req.confirm {
                Some(c) => c,
                None => false,
            };
            match &req.level {
                None => error_only(2, "missing 'level'"),
                Some(l) => {
                    if str_eq(l.as_str(), "inherit") {
                        Answer::SetSlotHardening(slot, None, confirm)
                    } else if str_eq(l.as_str(), "custom") {
                        Answer::SetSlotHardening(slot, Some(Level::Custom), confirm)
                    } else {
                        match Level::parse(l.as_str()) {
                            Some(v) => Answer::SetSlotHardening(slot, Some(v), confirm),
                            None => error_reply(2, "bad level: ", l.as_str()),
                        }
                    }
                },
            }
        },
        Command::QuerySuggestions => {
            match req.input {
                Some(t) => Answer::Suggestions(t),
                None => Answer::Suggestions(String::new()),
            }
        },
        Command::ToggleFavorite => {
            match &req.url {
                None => error_only(2, "missing 'url'"),
                Some(u) => {
                    let e = match &req.title {
                        Some(t) => crate::memory::toggle_favorite(u.as_str(), t.as_str()),
                        None => {
                            proof {
                                reveal_strlit("");
                                assert(""@ =~= Seq::<char>::empty());
                            }
                            crate::memory::toggle_favorite(u.as_str(), "")
                        },
                    };
                    Answer::ToggleFavorite(e)
                },
            }
        },
        Command::DragStart => {
            match req.url {
                None => error_only(2, "missing 'url'"),
                Some(u) => {
                    let t = match req.title {
                        Some(t) => t,
                        None => String::new(),
                    };
                    host.pending_drag = Some((u, t));
                    ok_reply()
                },
            }
        },
        Command::ToggleTor => {
            host.pending_tor_toggles.push(slot);
            ok_reply()
        },
        Command::CloseSlot => {
            host.pending_closes.push(slot);
            ok_reply()
        },
        Command::Quit => {
            host.pending_quit = Some(false);
            ok_reply()
        },
        Command::QuitSave => {
            host.pending_quit = Some(true);
            ok_reply()
        },
        Command::OpenSettings => {
            host.open_settings = true;
            ok_reply()
        },
        Command::TorNewCircuit => {
            crate::tor::new_identity(&mut host.tor);
            ok_reply()
        },
        Command::SetSlotScreen => {
            match &req.value {
                Some(SettingValue::Text(v)) => match slot_screen_choice(v.as_str()) {
                    Err(e) => Answer::Reply(Err(e)),
                    Ok(code) => {
                        proof {
                            assert(slot < crate::slots::MAX_SLOTS);
                            assert(code is Some ==> code.unwrap() != crate::browser::SCREEN_INHERIT);
                        }
                        crate::browser::set_slot_screen(&mut host.modes, slot, code);
                        host.pending_slot_screen.push(slot);
                        ok_reply()
                    },
                },
                _ => error_only(2, "missing 'value'"),
            }
        },
        Command::GetSlotScreen => {
            Answer::Reply(Ok(slot_screen_reply(
                crate::browser::slot_screen_override(&host.modes, slot),
                crate::settings::screen_preset_code(&host.settings),
            )))
        },
        Command::GetLogLines => {
            Answer::LogLines(req.log)
        },
        Command::GetResidueFootprint => {
            Answer::Footprint
        },
        Command::Unknown => error_reply(4, "unknown cmd: ", cmd),
    }
}

/// A request refused as not JSON (code 1), for a missing or mistyped field
/// (code 2), or as an unknown command (code 4) changes nothing.
pub proof fn law_refused_requests_change_nothing(pre: HostView, post: HostView, parsed: Result<Request, String>, a: Answer)
    requires
        answered(pre, post, parsed, a),
        a matches Answer::Reply(Err((c, _))) && (c == 1 || c == 2 || c == 4),
    ensures
        post == pre,
{
}

} // verus!
