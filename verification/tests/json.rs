use cyberdesk::browser::{navigate_reply, suggestions_json};
use cyberdesk::store::Suggestion;
use cyberdesk::forensic::{footprint_json, PurgeOutcome};
use cyberdesk::json::json_string;
use cyberdesk::logging::{records_json, LogQuery, RingInner};

#[test]
fn strings_escape_like_serde_json() {
    let mut samples: Vec<String> = vec![
        String::new(),
        "plain".into(),
        "quote \" and backslash \\".into(),
        "tab\tnew\nline\rreturn".into(),
        "bell\u{7}del\u{7f}".into(),
        "ünïcödé ✓ 𝄞".into(),
        "slash / stays".into(),
    ];
    for c in 0u32..0x80 {
        samples.push(char::from_u32(c).unwrap().to_string());
    }
    for s in samples {
        assert_eq!(json_string(&s), serde_json::to_string(&s).unwrap(), "for {s:?}");
    }
}

#[test]
fn footprint_reads_back_as_the_same_json() {
    let lp = PurgeOutcome {
        ran: true,
        found_bytes: 79 * 1024 * 1024,
        cleared: false,
        error: Some("could not fully clear residue: \"locked\"".into()),
    };
    let text = footprint_json(true, 1500, &lp);
    let v: serde_json::Value = serde_json::from_str(&text).unwrap();
    assert_eq!(v["enabled"], serde_json::Value::Bool(true));
    assert_eq!(v["on_disk_bytes"].as_u64(), Some(1500));
    assert_eq!(v["on_disk_human"].as_str(), Some("1.5 KB"));
    assert_eq!(v["last_purge"]["found_human"].as_str(), Some("79.0 MB"));
    assert_eq!(v["last_purge"]["error"].as_str(), Some("could not fully clear residue: \"locked\""));
    // Same text as the JSON writer gives for the same value.
    assert_eq!(serde_json::to_string(&v).unwrap(), text);
    let none = footprint_json(false, 0, &PurgeOutcome::default());
    let v: serde_json::Value = serde_json::from_str(&none).unwrap();
    assert!(v["last_purge"]["error"].is_null());
    assert_eq!(serde_json::to_string(&v).unwrap(), none);
}

#[test]
fn log_rows_read_back_as_the_same_json() {
    let mut ring = RingInner::with_cap(4);
    ring.push(17, "INFO", 2, "cyberdesk::tor".into(), "socks \"bind\"".into());
    ring.push(18, "WARN", 3, "x".into(), "line\nbreak".into());
    let text = records_json(&ring.query(&LogQuery::default()));
    let v: serde_json::Value = serde_json::from_str(&text).unwrap();
    assert_eq!(v[0]["seq"].as_u64(), Some(0));
    assert_eq!(v[1]["msg"].as_str(), Some("line\nbreak"));
    assert_eq!(serde_json::to_string(&v).unwrap(), text);
    assert_eq!(records_json(&Vec::new()), "[]");
}

#[test]
fn replies_read_back_as_the_same_json() {
    let n = navigate_reply("https://example.com/?q=\"x\"");
    let v: serde_json::Value = serde_json::from_str(&n).unwrap();
    assert_eq!(v["url"].as_str(), Some("https://example.com/?q=\"x\""));
    assert_eq!(serde_json::to_string(&v).unwrap(), n);
    let ss = vec![
        Suggestion { url: "https://a/".into(), title: "A \"quoted\" title".into(), favorite: true },
        Suggestion { url: "https://b/".into(), title: String::new(), favorite: false },
    ];
    let t = suggestions_json(&ss);
    let v: serde_json::Value = serde_json::from_str(&t).unwrap();
    assert_eq!(v[0]["favorite"], serde_json::Value::Bool(true));
    assert_eq!(serde_json::to_string(&v).unwrap(), t);
    assert_eq!(suggestions_json(&Vec::new()), "[]");
}
