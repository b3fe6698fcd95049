//! The floating command band's reveal and hide rules, run once per frame.
//!
//! Hovering the gap above a window engages that window's band; leaving it
//! starts a short grace period, after which the band disengages unless the
//! pointer came back, is over the band or the favourites launcher, or the
//! user is typing in it. After a disengage the band stays composited for a
//! fade-out linger, then closes. A favourite drag freezes all of it.
//!
//! The pointer tests (which band segment is hot, whether the pointer is over
//! the engaged band or the launcher) are geometry the caller has done; the
//! times are milliseconds on the caller's monotonic clock.

use vstd::prelude::*;
use crate::keys::Overlay;

verus! {

/// Grace period, in milliseconds, after the pointer leaves the engaged band
/// before the band disengages.
pub const BAR_HIDE_HYSTERESIS_MS: u64 = 250;

/// How long, in milliseconds, a disengaged band stays composited so its
/// fade-out completes.
pub const BAND_FADE_LINGER_MS: u64 = 300;

/// The band's state between frames.
#[derive(Debug, Clone, Copy, PartialEq, Eq, Structural)]
pub struct BandState {
    /// What is in front of the windows.
    pub overlay: Overlay,
    /// The window whose band is engaged.
    pub engaged: Option<usize>,
    /// When the band disengages unless the pointer returns.
    pub hide_at: Option<u64>,
    /// When a disengaged band stops being composited.
    pub off_at: Option<u64>,
}

/// What the pointer and the keyboard are doing this frame.
#[derive(Debug, Clone, Copy)]
pub struct BandInput {
    /// A favourite drag is in progress.
    pub dragging: bool,
    /// The window whose band segment the pointer is over.
    pub hot: Option<usize>,
    /// The pointer is over the engaged window's band column.
    pub over_band: bool,
    /// The pointer is over the favourites launcher.
    pub over_launcher: bool,
    /// The user is typing in the band.
    pub typing: bool,
    /// The clock, in milliseconds.
    pub now: u64,
}

/// What the shell does this frame, besides adopting the new state.
#[derive(Debug, Clone, Copy, PartialEq, Eq, Structural)]
pub struct BandEffects {
    /// The band opened: show the command page, focus the band.
    pub opened: bool,
    /// This window's band was engaged.
    pub engaged: Option<usize>,
    /// The band disengaged.
    pub disengaged: bool,
    /// Push the band's frame state to the page.
    pub push_frame: bool,
    /// The linger ended: the band closed, focus returns to the active window.
    pub closed: bool,
}

/// Nothing to do.
pub open spec fn no_effects() -> BandEffects {
    BandEffects { opened: false, engaged: None, disengaged: false, push_frame: false, closed: false }
}

/// Engaging window `s`: the band binds to it and opens if it was not open.
pub open spec fn engaged_to(s: usize) -> BandState {
    BandState { overlay: Overlay::Command, engaged: Some(s), hide_at: None, off_at: None }
}

/// The effects of engaging window `s` from `st`.
pub open spec fn engage_effects(st: BandState, s: usize) -> BandEffects {
    BandEffects {
        opened: st.overlay != Overlay::Command,
        engaged: Some(s),
        disengaged: false,
        push_frame: true,
        closed: false,
    }
}

/// The rules for one frame before the linger check.
pub open spec fn band_step(st: BandState, inp: BandInput) -> (BandState, BandEffects) {
    match st.overlay {
        Overlay::Closed => match inp.hot {
            Some(s) => (engaged_to(s), engage_effects(st, s)),
            None => (st, no_effects()),
        },
        Overlay::Command => {
            let pushed = BandEffects { push_frame: true, ..no_effects() };
            match inp.hot {
                Some(s) => if st.engaged == Some(s) {
                    (BandState { hide_at: None, off_at: None, ..st }, pushed)
                } else {
                    (engaged_to(s), engage_effects(st, s))
                },
                None => if inp.over_band || inp.over_launcher || inp.typing {
                    (BandState { hide_at: None, off_at: None, ..st }, pushed)
                } else if st.engaged is Some {
                    match st.hide_at {
                        None => (BandState { hide_at: Some((inp.now + BAR_HIDE_HYSTERESIS_MS) as u64), ..st }, pushed),
                        Some(d) => if inp.now >= d {
                            (
                                BandState {
                                    engaged: None,
                                    hide_at: None,
                                    off_at: Some((inp.now + BAND_FADE_LINGER_MS) as u64),
                                    ..st
                                },
                                BandEffects { disengaged: true, ..pushed },
                            )
                        } else {
                            (st, pushed)
                        },
                    }
                } else {
                    (st, pushed)
                },
            }
        },
        _ => (st, no_effects()),
    }
}

/// Whether the fade-out linger of state `st` has ended at `now`.
pub open spec fn linger_over(st: BandState, now: u64) -> bool {
    &&& st.overlay == Overlay::Command
    &&& st.engaged is None
    &&& st.off_at matches Some(d) && now >= d
}

/// One frame of the band: the drag freeze, the rules, then the linger check.
pub open spec fn band_next(st: BandState, inp: BandInput) -> (BandState, BandEffects) {
    if inp.dragging {
        (st, no_effects())
    } else {
        let (s1, e1) = band_step(st, inp);
        if linger_over(s1, inp.now) {
            (BandState { off_at: None, overlay: Overlay::Closed, ..s1 }, BandEffects { closed: true, ..e1 })
        } else {
            (s1, e1)
        }
    }
}

/// The clocks this module adds to stay representable.
pub open spec fn clock_fits(now: u64) -> bool {
    now + BAND_FADE_LINGER_MS <= u64::MAX
}

fn engage(st: BandState, s: usize) -> (r: (BandState, BandEffects))
    ensures
        r == (engaged_to(s), engage_effects(st, s)),
{
    (
        BandState { overlay: Overlay::Command, engaged: Some(s), hide_at: None, off_at: None },
        BandEffects {
            opened: st.overlay != Overlay::Command,
            engaged: Some(s),
            disengaged: false,
            push_frame: true,
            closed: false,
        },
    )
}

/// Run one frame of the band from state `st` with this frame's input.
pub fn band_tick(st: BandState, inp: BandInput) -> (r: (BandState, BandEffects))
    requires
        clock_fits(inp.now),
    ensures
        r == band_next(st, inp),
{
    let none = BandEffects { opened: false, engaged: None, disengaged: false, push_frame: false, closed: false };
    if inp.dragging {
        return (st, none);
    }
    let pushed = BandEffects { push_frame: true, ..none };
    let (s1, e1) = match st.overlay {
        Overlay::Closed => match inp.hot {
            Some(s) => engage(st, s),
            None => (st, none),
        },
        Overlay::Command => match inp.hot {
            Some(s) => if st.engaged == Some(s) {
                (BandState { hide_at: None, off_at: None, ..st }, pushed)
            } else {
                engage(st, s)
            },
            None => if inp.over_band || inp.over_launcher || inp.typing {
                (BandState { hide_at: None, off_at: None, ..st }, pushed)
            } else if st.engaged.is_some() {
                match st.hide_at {
                    None => (BandState { hide_at: Some(inp.now + BAR_HIDE_HYSTERESIS_MS), ..st }, pushed),
                    Some(d) => if inp.now >= d {
                        (
                            BandState {
                                engaged: None,
                                hide_at: None,
                                off_at: Some(inp.now + BAND_FADE_LINGER_MS),
                                ..st
                            },
                            BandEffects { disengaged: true, ..pushed },
                        )
                    } else {
                        (st, pushed)
                    },
                }
            } else {
                (st, pushed)
            },
        },
        _ => (st, none),
    };
    let over = s1.overlay == Overlay::Command && s1.engaged.is_none() && match s1.off_at {
        Some(d) => inp.now >= d,
        None => false,
    };
    if over {
        (BandState { off_at: None, overlay: Overlay::Closed, ..s1 }, BandEffects { closed: true, ..e1 })
    } else {
        (s1, e1)
    }
}

/// A favourite drag freezes the band: nothing changes and nothing happens.
pub proof fn law_drag_freezes_the_band(st: BandState, inp: BandInput)
    requires
        inp.dragging,
    ensures
        band_next(st, inp) == (st, no_effects()),
{
}

/// The band never disengages while the pointer is on it, on the launcher,
/// or the user is typing in it.
pub proof fn law_band_stays_while_used(st: BandState, inp: BandInput)
    requires
        inp.over_band || inp.over_launcher || inp.typing,
    ensures
        !band_next(st, inp).1.disengaged,
{
}

/// Hysteresis: a band disengages only on a frame at or after a hide
/// deadline set on an earlier frame; the first frame the pointer is away
/// only sets that deadline, the grace period ahead.
pub proof fn law_disengage_waits_for_the_grace_period(st: BandState, inp: BandInput)
    ensures
        band_next(st, inp).1.disengaged ==> (st.hide_at matches Some(d) && inp.now >= d),
        (!inp.dragging && st.overlay == Overlay::Command && st.engaged is Some && st.hide_at is None
            && inp.hot is None && !inp.over_band && !inp.over_launcher && !inp.typing)
            ==> band_next(st, inp).0.hide_at == Some((inp.now + BAR_HIDE_HYSTERESIS_MS) as u64)
                && !band_next(st, inp).1.disengaged,
{
}

/// A band closes only after its fade-out linger: never on the frame it
/// disengages, and only once nothing is engaged.
pub proof fn law_close_follows_the_linger(st: BandState, inp: BandInput)
    requires
        clock_fits(inp.now),
    ensures
        band_next(st, inp).1.closed ==> !band_next(st, inp).1.disengaged,
        band_next(st, inp).1.closed ==> st.overlay == Overlay::Command && st.engaged is None
            && (st.off_at matches Some(d) && inp.now >= d),
{
}

/// With the band closed or open, a hot band segment engages its window and
/// leaves the band open on it.
pub proof fn law_hot_band_engages(st: BandState, inp: BandInput, s: usize)
    requires
        !inp.dragging,
        inp.hot == Some(s),
        st.overlay == Overlay::Closed || st.overlay == Overlay::Command,
    ensures
        band_next(st, inp).0 == engaged_to(s),
{
}

/// What opening or closing the settings card or the info panel does.
#[derive(Debug, Clone, Copy, PartialEq, Eq, Structural)]
pub struct PanelChange {
    /// The band state afterwards.
    pub state: BandState,
    /// The panel opened: show its page and focus it.
    pub opened: bool,
    /// The panel closed: focus returns to the active window.
    pub closed: bool,
    /// A secret capture begun from the settings card is abandoned.
    pub cancel_capture: bool,
}

/// Toggling panel `panel` (the settings card or the info panel) from `st`:
/// an open panel closes; otherwise it opens, dropping any band state.
pub open spec fn toggled(st: BandState, panel: Overlay, capturing: bool) -> PanelChange {
    if st.overlay == panel {
        PanelChange {
            state: BandState { overlay: Overlay::Closed, ..st },
            opened: false,
            closed: true,
            cancel_capture: panel == Overlay::Settings && capturing,
        }
    } else {
        PanelChange {
            state: BandState { overlay: panel, engaged: None, hide_at: None, off_at: None },
            opened: true,
            closed: false,
            cancel_capture: false,
        }
    }
}

/// Closing panel `panel` from `st` (Escape): only an open panel closes.
pub open spec fn closed_panel(st: BandState, panel: Overlay) -> PanelChange {
    PanelChange {
        state: if st.overlay == panel { BandState { overlay: Overlay::Closed, ..st } } else { st },
        opened: false,
        closed: st.overlay == panel,
        cancel_capture: false,
    }
}

fn toggle(st: BandState, panel: Overlay, capturing: bool) -> (r: PanelChange)
    ensures
        r == toggled(st, panel, capturing),
{
    if st.overlay == panel {
        PanelChange {
            state: BandState { overlay: Overlay::Closed, ..st },
            opened: false,
            closed: true,
            cancel_capture: panel == Overlay::Settings && capturing,
        }
    } else {
        PanelChange {
            state: BandState { overlay: panel, engaged: None, hide_at: None, off_at: None },
            opened: true,
            closed: false,
            cancel_capture: false,
        }
    }
}

fn close(st: BandState, panel: Overlay) -> (r: PanelChange)
    ensures
        r == closed_panel(st, panel),
{
    let open = st.overlay == panel;
    PanelChange {
        state: if open { BandState { overlay: Overlay::Closed, ..st } } else { st },
        opened: false,
        closed: open,
        cancel_capture: false,
    }
}

/// Open the settings card, or close it if open (abandoning a secret capture
/// begun from it).
pub fn toggle_settings(st: BandState, capturing: bool) -> (r: PanelChange)
    ensures
        r == toggled(st, Overlay::Settings, capturing),
{
    toggle(st, Overlay::Settings, capturing)
}

/// Open the info panel, or close it if open.
pub fn toggle_info(st: BandState) -> (r: PanelChange)
    ensures
        r == toggled(st, Overlay::Info, false),
{
    toggle(st, Overlay::Info, false)
}

/// Close the settings card if it is open.
pub fn close_settings(st: BandState) -> (r: PanelChange)
    ensures
        r == closed_panel(st, Overlay::Settings),
{
    close(st, Overlay::Settings)
}

/// Close the info panel if it is open.
pub fn close_info(st: BandState) -> (r: PanelChange)
    ensures
        r == closed_panel(st, Overlay::Info),
{
    close(st, Overlay::Info)
}

/// The settings card, the info panel and the command band exclude one
/// another: opening a panel disengages the band, and toggling the same panel
/// twice from anywhere else ends with everything closed.
pub proof fn law_panels_exclude_the_band(st: BandState, panel: Overlay, capturing: bool)
    requires
        panel == Overlay::Settings || panel == Overlay::Info,
        st.overlay != panel,
    ensures
        toggled(st, panel, capturing).state.engaged is None,
        toggled(st, panel, capturing).state.overlay == panel,
        toggled(toggled(st, panel, capturing).state, panel, capturing).state
            == (BandState { overlay: Overlay::Closed, engaged: None, hide_at: None, off_at: None }),
{
}

} // verus!
