use cyberdesk::degoogle::{context_prefs, disable_features, global_prefs, merge_disable_features, switches};

#[test]
fn merge_into_empty_is_just_ours() {
    assert_eq!(merge_disable_features(""), "OptimizationHints");
    assert_eq!(merge_disable_features("   "), "OptimizationHints");
}

#[test]
fn merge_preserves_existing_and_appends() {
    assert_eq!(merge_disable_features("Foo,Bar"), "Foo,Bar,OptimizationHints");
}

#[test]
fn merge_is_idempotent_and_dedups() {
    assert_eq!(merge_disable_features("OptimizationHints"), "OptimizationHints");
    assert_eq!(merge_disable_features("Foo,OptimizationHints,Bar"), "Foo,OptimizationHints,Bar");
    let once = merge_disable_features("Foo");
    assert_eq!(merge_disable_features(&once), once);
}

#[test]
fn merge_trims_stray_whitespace() {
    assert_eq!(merge_disable_features(" Foo , Bar "), "Foo,Bar,OptimizationHints");
}

#[test]
fn tables_are_populated_and_well_formed() {
    assert!(!switches().is_empty());
    assert!(!context_prefs().is_empty());
    assert!(!global_prefs().is_empty());
    assert!(!disable_features().is_empty());
    for p in context_prefs().iter().chain(global_prefs().iter()) {
        assert!(p.name.contains('.'), "pref name looks malformed: {}", p.name);
        assert!(!p.source.is_empty());
        assert!(!p.closes.is_empty());
    }
    for s in switches() {
        assert!(!s.is_empty() && !s.starts_with('-'), "switch should be bare: {s}");
    }
}

#[test]
fn merge_drops_empty_pieces_between_commas() {
    assert_eq!(merge_disable_features("A,,B,"), "A,B,OptimizationHints");
    assert_eq!(merge_disable_features(" OptimizationHints "), "OptimizationHints");
}
