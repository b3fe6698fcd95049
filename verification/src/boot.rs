//! The shell's start-up lock, run once per event-loop pass.
//!
//! The shell boots locked, showing only the lock page once the browser
//! runtime is ready; nothing else is created and no sealed state is read
//! until an unlock (or the first-launch setup) lifts the lock. Lifting it
//! seeds the identity, then restores the windows. A relaunch
//! request ends the pass at once. Once the windows exist, each pass drives
//! them; a quit ends the shell, saving the session first only when asked
//! and only once the windows exist.

use vstd::prelude::*;

verus! {

/// Where the shell is in its start-up.
#[derive(Debug, Clone, Copy, PartialEq, Eq, Structural)]
pub struct Phase {
    /// The start-up lock is on.
    pub locked: bool,
    /// The lock page has been created.
    pub lock_view_started: bool,
    /// The windows have been created.
    pub views_started: bool,
}

/// How a vault worker finished.
#[derive(Debug, Clone, Copy, PartialEq, Eq, Structural)]
pub enum VaultOutcome {
    /// An existing vault was unlocked.
    Unlocked,
    /// The first-launch setup created the vault.
    SetupDone,
    /// Anything else (a failure, a re-wrap of an unlocked session).
    Other,
}

/// What this pass brings.
#[derive(Debug, Clone, Copy)]
pub struct PassInput {
    /// The browser runtime is ready to create views.
    pub context_ready: bool,
    /// The shell window exists.
    pub has_window: bool,
    /// A vault worker's outcome, if one arrived.
    pub outcome: Option<VaultOutcome>,
    /// "Lock now" asked for a cold relaunch.
    pub relaunch: bool,
    /// A quit was asked for, saving the session when `true`.
    pub quit: Option<bool>,
}

/// What the shell does this pass, in this order.
#[derive(Debug, Clone, Copy, PartialEq, Eq, Structural)]
pub struct PassPlan {
    /// Create the lock page and begin capturing the vault secret.
    pub start_lock_view: bool,
    /// The lock lifted: seed the identity and show the settings page.
    pub unlock: bool,
    /// Create the windows (restoring a saved session if there is one).
    pub start_views: bool,
    /// Push the vault's state to the pages.
    pub push_vault_state: bool,
    /// Relaunch the shell cold and end this pass.
    pub relaunch: bool,
    /// Drive the open windows: identity rotation, the HUD, queued requests.
    pub drive_views: bool,
    /// Save the session before quitting.
    pub save_session: bool,
    /// End the shell.
    pub exit: bool,
}

/// The lock page appears once the runtime and the window are ready.
pub open spec fn lock_step(p: Phase, i: PassInput) -> bool {
    p.locked && !p.lock_view_started && i.context_ready && i.has_window
}

/// An unlock or setup outcome while the lock is on.
pub open spec fn lifts(p: Phase, i: PassInput) -> bool {
    p.locked && (i.outcome == Some(VaultOutcome::Unlocked) || i.outcome == Some(VaultOutcome::SetupDone))
}

/// One pass: the next phase and the plan.
pub open spec fn pass(p: Phase, i: PassInput) -> (Phase, PassPlan) {
    let lock_view = lock_step(p, i);
    let p1 = Phase { lock_view_started: p.lock_view_started || lock_view, ..p };
    let lifted = lifts(p1, i);
    let p2 = if lifted {
        Phase { locked: false, views_started: p1.views_started || i.has_window, ..p1 }
    } else {
        p1
    };
    let push = lock_view || i.outcome is Some;
    if i.relaunch {
        (p2, PassPlan {
            start_lock_view: lock_view,
            unlock: lifted,
            start_views: lifted && i.has_window,
            push_vault_state: push,
            relaunch: true,
            drive_views: false,
            save_session: false,
            exit: true,
        })
    } else {
        let boot = !p2.locked && !p2.views_started && i.context_ready && i.has_window;
        let p3 = Phase { views_started: p2.views_started || boot, ..p2 };
        let quitting = (p3.views_started || p3.lock_view_started) && i.quit is Some;
        (p3, PassPlan {
            start_lock_view: lock_view,
            unlock: lifted,
            start_views: (lifted && i.has_window) || boot,
            push_vault_state: push,
            relaunch: false,
            drive_views: p3.views_started,
            save_session: quitting && i.quit == Some(true) && p3.views_started,
            exit: quitting,
        })
    }
}

/// Run one pass from phase `p`.
pub fn plan_pass(p: Phase, i: PassInput) -> (r: (Phase, PassPlan))
    ensures
        r == pass(p, i),
{
    let lock_view = p.locked && !p.lock_view_started && i.context_ready && i.has_window;
    let p1 = Phase { lock_view_started: p.lock_view_started || lock_view, ..p };
    let lifted = p1.locked && match i.outcome {
        Some(VaultOutcome::Unlocked) | Some(VaultOutcome::SetupDone) => true,
        _ => false,
    };
    let p2 = if lifted {
        Phase { locked: false, views_started: p1.views_started || i.has_window, ..p1 }
    } else {
        p1
    };
    let push = lock_view || i.outcome.is_some();
    if i.relaunch {
        return (p2, PassPlan {
            start_lock_view: lock_view,
            unlock: lifted,
            start_views: lifted && i.has_window,
            push_vault_state: push,
            relaunch: true,
            drive_views: false,
            save_session: false,
            exit: true,
        });
    }
    let boot = !p2.locked && !p2.views_started && i.context_ready && i.has_window;
    let p3 = Phase { views_started: p2.views_started || boot, ..p2 };
    let quitting = (p3.views_started || p3.lock_view_started) && i.quit.is_some();
    let save = quitting && match i.quit {
        Some(s) => s,
        None => false,
    } && p3.views_started;
    (p3, PassPlan {
        start_lock_view: lock_view,
        unlock: lifted,
        start_views: (lifted && i.has_window) || boot,
        push_vault_state: push,
        relaunch: false,
        drive_views: p3.views_started,
        save_session: save,
        exit: quitting,
    })
}

/// Windows exist only once the lock is lifted.
pub open spec fn unlocked_first(p: Phase) -> bool {
    p.views_started ==> !p.locked
}

/// The start-up lock holds: no window is created, driven or saved while it
/// is on, every pass keeps windows behind a lifted lock, and only an unlock
/// or setup outcome lifts it.
pub proof fn law_windows_only_after_unlock(p: Phase, i: PassInput)
    requires
        unlocked_first(p),
    ensures
        unlocked_first(pass(p, i).0),
        pass(p, i).1.start_views ==> !pass(p, i).0.locked,
        pass(p, i).1.drive_views ==> !pass(p, i).0.locked,
        pass(p, i).1.save_session ==> !pass(p, i).0.locked,
        p.locked && !pass(p, i).0.locked ==> pass(p, i).1.unlock && (i.outcome == Some(VaultOutcome::Unlocked)
            || i.outcome == Some(VaultOutcome::SetupDone)),
{
}

/// A lifted lock never comes back within a run, and the windows, once
/// created, are never created again.
pub proof fn law_unlock_and_windows_are_one_way(p: Phase, i: PassInput)
    requires
        unlocked_first(p),
    ensures
        !p.locked ==> !pass(p, i).0.locked,
        p.views_started ==> pass(p, i).0.views_started && !pass(p, i).1.start_views,
        p.lock_view_started ==> !pass(p, i).1.start_lock_view,
{
}

/// A quit always ends the shell once anything is on screen, and saves the
/// session only when asked and the windows exist; a relaunch ends the pass
/// without saving.
pub proof fn law_quit_saves_only_when_asked(p: Phase, i: PassInput)
    ensures
        pass(p, i).1.save_session ==> i.quit == Some(true) && pass(p, i).0.views_started,
        !i.relaunch && i.quit is Some && (pass(p, i).0.views_started || pass(p, i).0.lock_view_started)
            ==> pass(p, i).1.exit,
        i.relaunch ==> pass(p, i).1.exit && !pass(p, i).1.save_session && !pass(p, i).1.drive_views,
{
}

} // verus!
