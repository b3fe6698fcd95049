use cyberdesk::browser::nav_state_json;

#[test]
fn nav_state_carries_the_window_state() {
    let got = nav_state_json("https://x.example/a", "T \"q\"", true, false, true, true);
    assert_eq!(
        got,
        r#"{"can_back":true,"can_forward":false,"favorite":true,"loading":true,"scheme":"https","title":"T \"q\"","url":"https://x.example/a"}"#
    );
    let v: serde_json::Value = serde_json::from_str(&got).unwrap();
    assert_eq!(v["title"], "T \"q\"");
    assert_eq!(v["scheme"], "https");
}

#[test]
fn nav_state_never_stars_internal_pages() {
    let got = nav_state_json("cyberdesk://settings/", "Settings", false, false, false, true);
    let v: serde_json::Value = serde_json::from_str(&got).unwrap();
    assert_eq!(v["favorite"], false);
    assert_eq!(v["scheme"], "other");
    let got = nav_state_json("http://plain.example/", "", false, true, false, false);
    let v: serde_json::Value = serde_json::from_str(&got).unwrap();
    assert_eq!(v["favorite"], false);
    assert_eq!(v["scheme"], "http");
    assert_eq!(v["can_forward"], true);
}

fn args(list: &[&str]) -> Vec<String> {
    list.iter().map(|s| s.to_string()).collect()
}

#[test]
fn render_process_reads_the_first_seed_switch() {
    let f = cyberdesk::browser::render_seed_arg;
    assert_eq!(f(&args(&["renderer", "--type=renderer", "--cyberdesk-fp-seed=0a1b", "--cyberdesk-fp-seed=ffff"])), Some("0a1b".to_string()));
    // An empty value means no seed was handed over; a later switch is not consulted.
    assert_eq!(f(&args(&["--cyberdesk-fp-seed=", "--cyberdesk-fp-seed=ffff"])), None);
    assert_eq!(f(&args(&["renderer", "--cyberdesk-fp-seedx=1"])), None);
    assert_eq!(f(&args(&[])), None);
}
