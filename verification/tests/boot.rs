use cyberdesk::boot::{plan_pass, PassInput, Phase, VaultOutcome};

fn start() -> Phase {
    Phase { locked: true, lock_view_started: false, views_started: false }
}

fn ready() -> PassInput {
    PassInput { context_ready: true, has_window: true, outcome: None, relaunch: false, quit: None }
}

#[test]
fn the_lock_page_comes_first_and_nothing_else() {
    let (p, plan) = plan_pass(start(), PassInput { context_ready: false, ..ready() });
    assert_eq!(p, start());
    assert!(!plan.start_lock_view && !plan.start_views && !plan.exit);
    let (p, plan) = plan_pass(start(), ready());
    assert_eq!(p, Phase { locked: true, lock_view_started: true, views_started: false });
    assert!(plan.start_lock_view && plan.push_vault_state);
    assert!(!plan.start_views && !plan.drive_views);
    // A failed unlock keeps the lock on.
    let (p2, plan) = plan_pass(p, PassInput { outcome: Some(VaultOutcome::Other), ..ready() });
    assert_eq!(p2, p);
    assert!(plan.push_vault_state && !plan.unlock && !plan.start_views);
}

#[test]
fn unlocking_lifts_the_lock_then_opens_the_windows() {
    let locked = Phase { locked: true, lock_view_started: true, views_started: false };
    let (p, plan) = plan_pass(locked, PassInput { outcome: Some(VaultOutcome::Unlocked), ..ready() });
    assert_eq!(p, Phase { locked: false, lock_view_started: true, views_started: true });
    assert!(plan.unlock && plan.start_views && plan.drive_views && plan.push_vault_state);
    // Later passes drive the windows without creating them again.
    let (p2, plan) = plan_pass(p, ready());
    assert_eq!(p2, p);
    assert!(!plan.start_views && plan.drive_views);
    // Setup done without a window yet: the lock lifts, the windows come next pass.
    let (p3, plan) = plan_pass(locked, PassInput { outcome: Some(VaultOutcome::SetupDone), has_window: false, ..ready() });
    assert_eq!(p3, Phase { locked: false, lock_view_started: true, views_started: false });
    assert!(plan.unlock && !plan.start_views);
    let (p4, plan) = plan_pass(p3, ready());
    assert!(p4.views_started && plan.start_views);
}

#[test]
fn quitting_saves_only_when_asked_and_only_with_windows() {
    let open = Phase { locked: false, lock_view_started: true, views_started: true };
    let plan = plan_pass(open, PassInput { quit: Some(true), ..ready() }).1;
    assert!(plan.exit && plan.save_session);
    let plan = plan_pass(open, PassInput { quit: Some(false), ..ready() }).1;
    assert!(plan.exit && !plan.save_session);
    let locked = Phase { locked: true, lock_view_started: true, views_started: false };
    let plan = plan_pass(locked, PassInput { quit: Some(true), ..ready() }).1;
    assert!(plan.exit && !plan.save_session);
    // Nothing on screen yet: the quit waits.
    let plan = plan_pass(start(), PassInput { quit: Some(true), context_ready: false, ..ready() }).1;
    assert!(!plan.exit);
    // A relaunch ends the pass without saving.
    let plan = plan_pass(open, PassInput { relaunch: true, quit: Some(true), ..ready() }).1;
    assert!(plan.exit && plan.relaunch && !plan.save_session && !plan.drive_views);
}
