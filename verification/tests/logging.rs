use cyberdesk::logging::{query, sev_from_name, LogQuery, RingInner};

fn rec(inner: &mut RingInner, sev: u8, target: &str, msg: &str) -> u64 {
    let level = match sev {
        0 => "TRACE",
        1 => "DEBUG",
        2 => "INFO",
        3 => "WARN",
        _ => "ERROR",
    };
    inner.push(1000, level, sev, target.to_string(), msg.to_string())
}

#[test]
fn seq_is_monotonic_and_capacity_evicts_oldest() {
    let mut ring = RingInner::with_cap(3);
    assert_eq!(rec(&mut ring, 2, "cyberdesk", "a"), 0);
    assert_eq!(rec(&mut ring, 2, "cyberdesk", "b"), 1);
    assert_eq!(rec(&mut ring, 2, "cyberdesk", "c"), 2);
    assert_eq!(rec(&mut ring, 2, "cyberdesk", "d"), 3);
    let all = ring.query(&LogQuery::default());
    assert_eq!(all.len(), 3);
    assert_eq!(all.iter().map(|r| r.msg.as_str()).collect::<Vec<_>>(), ["b", "c", "d"]);
    assert_eq!(all[0].seq, 1);
}

#[test]
fn since_seq_returns_only_newer_records() {
    let mut ring = RingInner::with_cap(10);
    for i in 0..5 {
        rec(&mut ring, 2, "cyberdesk", &format!("m{i}"));
    }
    let q = LogQuery { since_seq: Some(2), ..Default::default() };
    let got = ring.query(&q);
    assert_eq!(got.iter().map(|r| r.seq).collect::<Vec<_>>(), [3, 4]);
}

#[test]
fn target_prefix_filters() {
    let mut ring = RingInner::with_cap(10);
    rec(&mut ring, 2, "cyberdesk::tor", "socks bind");
    rec(&mut ring, 2, "tor_dirmgr::bootstrap", "consensus");
    rec(&mut ring, 2, "cyberdesk::app", "frame");
    let arti = ring.query(&LogQuery { target_prefix: Some("tor_".to_string()), ..Default::default() });
    assert_eq!(arti.len(), 1);
    assert_eq!(arti[0].target, "tor_dirmgr::bootstrap");
    let ours =
        ring.query(&LogQuery { target_prefix: Some("cyberdesk::tor".to_string()), ..Default::default() });
    assert_eq!(ours.len(), 1);
    assert_eq!(ours[0].msg, "socks bind");
}

#[test]
fn level_min_uses_severity_rank_not_inverted_level_ord() {
    let mut ring = RingInner::with_cap(10);
    rec(&mut ring, 0, "x", "trace");
    rec(&mut ring, 1, "x", "debug");
    rec(&mut ring, 2, "x", "info");
    rec(&mut ring, 3, "x", "warn");
    rec(&mut ring, 4, "x", "error");
    let q = LogQuery { level_min: Some(2), ..Default::default() };
    let got = ring.query(&q);
    assert_eq!(got.iter().map(|r| r.msg.as_str()).collect::<Vec<_>>(), ["info", "warn", "error"]);
}

#[test]
fn sev_name_mapping() {
    assert_eq!(sev_from_name("info"), Some(2));
    assert_eq!(sev_from_name("DEBUG"), Some(1));
    assert_eq!(sev_from_name("warning"), Some(3));
    assert_eq!(sev_from_name("nonsense"), None);
}

#[test]
fn sev_names_trim_and_fold_case() {
    assert_eq!(sev_from_name("  Error\n"), Some(4));
    assert_eq!(sev_from_name("TRACE"), Some(0));
    assert_eq!(sev_from_name("WaRn"), Some(3));
    assert_eq!(sev_from_name(""), None);
}

#[test]
fn combined_filters_and_zero_capacity() {
    let mut ring = RingInner::with_cap(0);
    rec(&mut ring, 4, "a", "first");
    rec(&mut ring, 4, "a", "second");
    let all = query(&ring, &LogQuery::default());
    assert_eq!(all.len(), 1);
    assert_eq!(all[0].seq, 1);

    let mut ring = RingInner::with_cap(10);
    rec(&mut ring, 1, "cyberdesk::tor", "low");
    rec(&mut ring, 3, "cyberdesk::tor", "high");
    rec(&mut ring, 3, "other", "elsewhere");
    let q = LogQuery { target_prefix: Some("cyberdesk".into()), level_min: Some(2), since_seq: Some(0) };
    let got = query(&ring, &q);
    assert_eq!(got.len(), 1);
    assert_eq!(got[0].msg, "high");
    assert_eq!(got[0].level, "WARN");
}
