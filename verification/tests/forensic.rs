use cyberdesk::forensic::{
    footprint_json, human_bytes, is_safe_purge_target, purge_decision, purge_finish, purge_on_launch,
    purge_target_verdict, PurgeOutcome, PurgeStep, CACHE_DIR_NAME,
};
use std::path::{Path, PathBuf};

#[test]
fn human_bytes_reads_naturally() {
    assert_eq!(human_bytes(0), "0 B");
    assert_eq!(human_bytes(512), "512 B");
    assert_eq!(human_bytes(1024), "1.0 KB");
    assert_eq!(human_bytes(79 * 1024 * 1024), "79.0 MB");
    assert_eq!(human_bytes(1024 * 1024 - 1), "1.0 MB");
    assert_eq!(human_bytes(1024 * 1024 * 1024 - 1), "1.0 GB");
    assert_eq!(human_bytes(1500), "1.5 KB");
}

/// The float formatting the readout has always used, as a reference.
fn human_bytes_float(n: u64) -> String {
    const UNITS: [&str; 5] = ["B", "KB", "MB", "GB", "TB"];
    if n < 1024 {
        return format!("{n} B");
    }
    let mut v = n as f64;
    let mut u = 0;
    while v >= 1024.0 && u < UNITS.len() - 1 {
        v /= 1024.0;
        u += 1;
    }
    if u < UNITS.len() - 1 && (v * 10.0).round() / 10.0 >= 1024.0 {
        v /= 1024.0;
        u += 1;
    }
    format!("{v:.1} {}", UNITS[u])
}

#[test]
fn human_bytes_agrees_with_the_float_formatting() {
    let mut probes: Vec<u64> = Vec::new();
    for k in 0..5u32 {
        let base = 1024u64.pow(k);
        for m in [1u64, 2, 3, 5, 10, 999, 1000, 1023, 1024] {
            for d in [0i64, -1, 1, -51, 51, -52, 52] {
                let x = (base * m) as i64 + d;
                if x >= 0 {
                    probes.push(x as u64);
                }
            }
        }
    }
    for n in 0..5000u64 {
        probes.push(n);
        probes.push(n * 97 + 1_048_000);
    }
    probes.push(1280);
    probes.push(1024 * 1024 * 1024 * 1024 * 5000);
    for n in probes {
        assert_eq!(human_bytes(n), human_bytes_float(n), "for {n}");
    }
}

#[test]
fn human_bytes_rounds_a_tie_to_even() {
    // 1280 B is exactly 1.25 KB.
    assert_eq!(human_bytes(1280), "1.2 KB");
    assert_eq!(human_bytes(1024 * 1024 * 1024 * 1024 * 3), "3.0 TB");
}

#[test]
fn safety_guard_accepts_only_the_cache_dir() {
    let exe_dir = PathBuf::from("/tmp/cd34-target/release");
    let good = exe_dir.join(CACHE_DIR_NAME);
    assert!(is_safe_purge_target(&good).0);
    assert!(!is_safe_purge_target(&exe_dir).0);
    assert!(!is_safe_purge_target(&good.with_file_name("cyberdesk-cache-other")).0);
    assert!(!is_safe_purge_target(Path::new(CACHE_DIR_NAME)).0);
    assert!(!is_safe_purge_target(Path::new("/")).0);
}

#[test]
fn guard_verdict_on_reported_parts() {
    assert!(purge_target_verdict(true, Some("cyberdesk-cache"), Some(2)));
    assert!(!purge_target_verdict(false, Some("cyberdesk-cache"), Some(2)));
    assert!(!purge_target_verdict(true, Some("release"), Some(2)));
    assert!(!purge_target_verdict(true, None, Some(2)));
    assert!(!purge_target_verdict(true, Some("cyberdesk-cache"), Some(0)));
    assert!(!purge_target_verdict(true, Some("cyberdesk-cache"), None));
}

fn done(s: PurgeStep) -> PurgeOutcome {
    match s {
        PurgeStep::Done(o) => o,
        PurgeStep::Remove => panic!("expected a finished purge"),
    }
}

#[test]
fn launch_purge_decisions() {
    let off = done(purge_decision(false, Some("/x/cyberdesk-cache"), true, true));
    assert!(!off.ran && !off.cleared && off.found_bytes == 0 && off.error.is_none());

    let unresolved = done(purge_decision(true, None, false, false));
    assert!(unresolved.ran);
    assert_eq!(unresolved.error.as_deref(), Some("could not resolve the browsing-cache path"));

    let refused = done(purge_decision(true, Some("/x/important"), false, true));
    assert!(refused.ran && !refused.cleared);
    assert_eq!(refused.error.as_deref(), Some("refused an unsafe cache path: /x/important"));

    let clean = done(purge_decision(true, Some("/x/cyberdesk-cache"), true, false));
    assert!(clean.ran && !clean.cleared && clean.error.is_none());

    assert!(matches!(purge_decision(true, Some("/x/cyberdesk-cache"), true, true), PurgeStep::Remove));
}

#[test]
fn launch_purge_on_real_paths() {
    let good = PathBuf::from("/tmp/cd34-target/release").join(CACHE_DIR_NAME);
    assert!(matches!(purge_on_launch(true, Some(&good), true).0, PurgeStep::Remove));
    let refused = done(purge_on_launch(true, Some(Path::new("/tmp/keep")), true).0);
    assert_eq!(refused.error.as_deref(), Some("refused an unsafe cache path: /tmp/keep"));
    let off = done(purge_on_launch(false, Some(&good), true).0);
    assert!(!off.ran);
    let unresolved = done(purge_on_launch(true, None, true).0);
    assert_eq!(unresolved.error.as_deref(), Some("could not resolve the browsing-cache path"));
}

#[test]
fn purge_finish_reports_truthfully() {
    let ok = purge_finish(4096, Ok(()), 99);
    assert!(ok.ran && ok.cleared && ok.found_bytes == 4096 && ok.error.is_none());
    let partial = purge_finish(4096, Err("locked".to_string()), 100);
    assert!(partial.ran && !partial.cleared);
    assert_eq!(partial.error.as_deref(), Some("could not fully clear residue: locked"));
    let gone = purge_finish(10, Err("late".to_string()), 0);
    assert!(gone.cleared);
    let d = PurgeOutcome::default();
    assert!(!d.ran && d.error.is_none());
}

#[test]
fn footprint_json_has_the_readout_contract() {
    for (enabled, on_disk, last) in [
        (true, 0u64, PurgeOutcome::default()),
        (
            false,
            79 * 1024 * 1024,
            PurgeOutcome { ran: true, found_bytes: 1500, cleared: false, error: Some("denied \"x\"".to_string()) },
        ),
    ] {
        let j: serde_json::Value = serde_json::from_str(&footprint_json(enabled, on_disk, &last)).unwrap();
        assert!(j.get("enabled").unwrap().is_boolean());
        assert!(j.get("on_disk_bytes").unwrap().is_u64());
        assert!(j.get("on_disk_human").unwrap().is_string());
        let lp = j.get("last_purge").unwrap();
        assert!(lp.get("ran").unwrap().is_boolean());
        assert!(lp.get("found_bytes").unwrap().is_u64());
        assert!(lp.get("found_human").unwrap().is_string());
        assert!(lp.get("cleared").unwrap().is_boolean());
        assert!(lp.get("error").is_some()); // null or a string, but always present
    }
}

#[test]
fn guard_reports_what_the_platform_saw() {
    let good = PathBuf::from("/tmp/cd34-target/release").join(CACHE_DIR_NAME);
    let (safe, f) = is_safe_purge_target(&good);
    assert!(safe);
    assert!(f.absolute);
    assert_eq!(f.file_name.as_deref(), Some(CACHE_DIR_NAME));
    assert!(f.parent_components.unwrap() > 0);
    assert_eq!(f.text, "/tmp/cd34-target/release/cyberdesk-cache");
    let (safe, f) = is_safe_purge_target(Path::new("/"));
    assert!(!safe);
    assert_eq!(f.file_name, None);
    assert_eq!(f.parent_components, None);
    let (step, seen) = purge_on_launch(true, Some(Path::new("/tmp/keep")), true);
    assert!(matches!(step, PurgeStep::Done(_)));
    assert_eq!(seen.unwrap().text, "/tmp/keep");
    assert!(purge_on_launch(false, Some(&good), true).1.is_none());
}
