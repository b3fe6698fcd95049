use cyberdesk::memory::{query_suggestions, rank_history, HistoryRow, PageEntry};

const NOW: i64 = 1_000_000;

fn row(url: &str, visits: i64, age: i64) -> HistoryRow {
    HistoryRow { url: url.to_string(), title: url.to_uppercase(), visit_count: visits, last_visit: NOW - age }
}

fn rows() -> Vec<HistoryRow> {
    vec![
        row("a", 1, 10),        // 1 x 100
        row("b", 2, 4_000),     // 2 x 80
        row("c", 10, 3_000_000), // 10 x 20
        row("d", 2, 5_000),     // 2 x 80, older than b
        row("e", 1, 10),        // 1 x 100, same as a
    ]
}

#[test]
fn history_ranks_by_frecency_then_recency_then_row() {
    assert_eq!(rank_history(&rows(), NOW, 10), vec![2, 1, 3, 0, 4]);
    assert_eq!(rank_history(&rows(), NOW, 3), vec![2, 1, 3]);
    assert_eq!(rank_history(&rows(), NOW, 0), Vec::<usize>::new());
    assert_eq!(rank_history(&Vec::new(), NOW, 5), Vec::<usize>::new());
}

#[test]
fn recency_buckets_weigh_visits() {
    // One visit within the hour (100) beats one visit a day old (80) ...
    let r = vec![row("old", 1, 86_400), row("new", 1, 3_599)];
    assert_eq!(rank_history(&r, NOW, 2), vec![1, 0]);
    // ... but two visits a week old (2 x 60) beat one within the hour.
    let r = vec![row("now", 1, 0), row("week", 2, 604_799)];
    assert_eq!(rank_history(&r, NOW, 2), vec![1, 0]);
    // Thirty days and older weigh 40 and 20.
    let r = vec![row("month", 1, 2_592_000), row("weeks", 1, 2_591_999)];
    assert_eq!(rank_history(&r, NOW, 2), vec![1, 0]);
}

fn fav(url: &str) -> PageEntry {
    PageEntry { url: url.to_string(), title: format!("{url} title") }
}

#[test]
fn favourites_come_first_then_history() {
    let favs = vec![fav("f1"), fav("f2")];
    let out = query_suggestions(&favs, &rows(), NOW, 4);
    let got: Vec<(&str, &str, bool)> = out.iter().map(|s| (s.url.as_str(), s.title.as_str(), s.favorite)).collect();
    assert_eq!(got, vec![("f1", "f1 title", true), ("f2", "f2 title", true), ("c", "C", false), ("b", "B", false)]);
}

#[test]
fn the_limit_caps_favourites_too() {
    let favs = vec![fav("f1"), fav("f2")];
    let out = query_suggestions(&favs, &rows(), NOW, 1);
    assert_eq!(out.len(), 1);
    assert_eq!(out[0].url, "f1");
    assert!(query_suggestions(&favs, &rows(), NOW, 0).is_empty());
    let all = query_suggestions(&Vec::new(), &rows(), NOW, 99);
    let urls: Vec<&str> = all.iter().map(|s| s.url.as_str()).collect();
    assert_eq!(urls, vec!["c", "b", "d", "a", "e"]);
}
