//! History and favourites: which URLs may ever be recorded, and how the
//! command palette orders what matched a search.
//!
//! Internal `cyberdesk://` pages and blank navigations never enter history,
//! favourites or a persisted session; only real web pages do. Matching
//! favourites come first in their own order; matching history follows by
//! frecency: its visit count weighted by how recent the last visit was.

use vstd::prelude::*;
use crate::text::{chars_of, has_prefix, str_eq};
use crate::store::Suggestion;

verus! {

broadcast use vstd::string::group_string_axioms;

/// `url` is a real web page: non-empty, not `about:blank`, and not on the
/// internal `cyberdesk://` scheme.
pub open spec fn recordable(url: Seq<char>) -> bool {
    url.len() > 0 && url != "about:blank"@ && !crate::text::starts_with(url, "cyberdesk://"@)
}

/// May `url` be recorded in history, favourited, or persisted in a session?
pub fn is_recordable(url: &str) -> (b: bool)
    ensures
        b == recordable(url@),
{
    if url.unicode_len() == 0 {
        return false;
    }
    if str_eq(url, "about:blank") {
        return false;
    }
    let u = chars_of(url);
    let p = chars_of("cyberdesk://");
    !has_prefix(u.as_slice(), p.as_slice())
}

/// A history or favourites change for the store: the page's URL and title.
pub struct PageEntry {
    pub url: String,
    pub title: String,
}

fn entry(url: &str, title: &str) -> (e: PageEntry)
    ensures
        e.url@ == url@,
        e.title@ == title@,
{
    PageEntry { url: String::from_str(url), title: String::from_str(title) }
}

/// The visit to record for `url` with `title`: none for internal or blank
/// pages.
pub fn record_visit(url: &str, title: &str) -> (e: Option<PageEntry>)
    ensures
        match e {
            Some(x) => recordable(url@) && x.url@ == url@ && x.title@ == title@,
            None => !recordable(url@),
        },
{
    if is_recordable(url) {
        Some(entry(url, title))
    } else {
        None
    }
}

/// The title refresh to apply for `url`: none for internal or blank pages,
/// or when the title is empty.
pub fn update_title(url: &str, title: &str) -> (e: Option<PageEntry>)
    ensures
        match e {
            Some(x) => recordable(url@) && title@.len() > 0 && x.url@ == url@ && x.title@ == title@,
            None => !recordable(url@) || title@.len() == 0,
        },
{
    if is_recordable(url) && title.unicode_len() > 0 {
        Some(entry(url, title))
    } else {
        None
    }
}

/// Is `url` a favourite, given whether the store lists it (`stored`)?
/// Internal and blank pages never are.
pub fn is_favorite(url: &str, stored: bool) -> (b: bool)
    ensures
        b == (recordable(url@) && stored),
{
    is_recordable(url) && stored
}

/// The favourite toggle to apply for `url`: none for internal or blank
/// pages (the toggle is then a no-op whose new state is "not a favourite").
pub fn toggle_favorite(url: &str, title: &str) -> (e: Option<PageEntry>)
    ensures
        match e {
            Some(x) => recordable(url@) && x.url@ == url@ && x.title@ == title@,
            None => !recordable(url@),
        },
{
    record_visit(url, title)
}

/// A history row that matched a search: its page, how often it was visited,
/// and when last (Unix seconds).
pub struct HistoryRow {
    pub url: String,
    pub title: String,
    pub visit_count: i64,
    pub last_visit: i64,
}

/// The weight of a visit `age` seconds old: within the hour, the day, the
/// week, the thirty days, or older.
pub open spec fn recency_weight(age: int) -> int {
    if age < 3600 {
        100
    } else if age < 86400 {
        80
    } else if age < 604800 {
        60
    } else if age < 2592000 {
        40
    } else {
        20
    }
}

/// The frecency of a row at time `now`.
pub open spec fn frecency(row: HistoryRow, now: int) -> int {
    row.visit_count * recency_weight(now - row.last_visit)
}

/// Row `i` of `rows` ranks ahead of row `j` at `now`: higher frecency, then
/// the more recent last visit, then the earlier row.
pub open spec fn ranks_before(rows: Seq<HistoryRow>, now: int, i: int, j: int) -> bool {
    let fi = frecency(rows[i], now);
    let fj = frecency(rows[j], now);
    ||| fi > fj
    ||| fi == fj && rows[i].last_visit > rows[j].last_visit
    ||| fi == fj && rows[i].last_visit == rows[j].last_visit && i < j
}

/// `order` lists, best first, the `k` (or all, if fewer) highest-ranked rows
/// of `rows` at `now`.
pub open spec fn top_ranked(rows: Seq<HistoryRow>, now: int, k: int, order: Seq<usize>) -> bool {
    &&& order.len() == (if k < rows.len() { k } else { rows.len() as int })
    &&& forall|i: int| 0 <= i < order.len() ==> order[i] < rows.len()
    &&& forall|i: int, j: int| 0 <= i < j < order.len() ==> ranks_before(rows, now, order[i] as int, order[j] as int)
    &&& forall|i: int, x: usize| 0 <= i < order.len() && x < rows.len() && !order.contains(x)
            ==> ranks_before(rows, now, order[i] as int, x as int)
}

/// The `k` highest-ranked rows of `rows` at `now`, best first.
pub open spec fn ranked(rows: Seq<HistoryRow>, now: int, k: int) -> Seq<usize> {
    choose|order: Seq<usize>| top_ranked(rows, now, k, order)
}

proof fn lemma_ranks_order(rows: Seq<HistoryRow>, now: int, a: int, b: int, c: int)
    ensures
        ranks_before(rows, now, a, b) ==> !ranks_before(rows, now, b, a),
        a != b && !ranks_before(rows, now, a, b) ==> ranks_before(rows, now, b, a),
        ranks_before(rows, now, a, b) && ranks_before(rows, now, b, c) ==> ranks_before(rows, now, a, c),
{
}

/// The frecency of `row` at `now`.
fn frecency_of(row: &HistoryRow, now: i64) -> (f: i128)
    ensures
        f == frecency(*row, now as int),
{
    let age: i128 = now as i128 - row.last_visit as i128;
    let weight: i128 = if age < 3600 {
        100
    } else if age < 86400 {
        80
    } else if age < 604800 {
        60
    } else if age < 2592000 {
        40
    } else {
        20
    };
    let v: i128 = row.visit_count as i128;
    assert(-0x8000_0000_0000_0000 <= v < 0x8000_0000_0000_0000);
    assert(-0x8000_0000_0000_0000 * 100 <= v * weight <= 0x8000_0000_0000_0000 * 100) by (nonlinear_arith)
        requires
            -0x8000_0000_0000_0000 <= v < 0x8000_0000_0000_0000,
            20 <= weight <= 100,
    ;
    v * weight
}

/// Does row `i` rank ahead of row `j`, given each row's frecency?
fn before(rows: &Vec<HistoryRow>, scores: &Vec<i128>, now: Ghost<int>, i: usize, j: usize) -> (b: bool)
    requires
        i < rows.len(),
        j < rows.len(),
        scores.len() == rows.len(),
        forall|x: int| 0 <= x < rows.len() ==> scores@[x] == frecency(rows@[x], now@),
    ensures
        b == ranks_before(rows@, now@, i as int, j as int),
{
    let (si, sj) = (scores[i], scores[j]);
    si > sj || (si == sj && rows[i].last_visit > rows[j].last_visit)
        || (si == sj && rows[i].last_visit == rows[j].last_visit && i < j)
}

/// The positions in `rows` of its `k` highest-ranked rows at `now` (all of
/// them, if fewer), best first.
pub fn rank_history(rows: &Vec<HistoryRow>, now: i64, k: usize) -> (order: Vec<usize>)
    ensures
        top_ranked(rows@, now as int, k as int, order@),
        order@ == ranked(rows@, now as int, k as int),
{
    let ghost gnow = now as int;
    let mut scores: Vec<i128> = Vec::new();
    let mut x: usize = 0;
    while x < rows.len()
        invariant
            x <= rows.len(),
            gnow == now as int,
            scores.len() == x,
            forall|y: int| 0 <= y < x ==> scores@[y] == frecency(rows@[y], gnow),
        decreases rows.len() - x,
    {
        let f = frecency_of(&rows[x], now);
        scores.push(f);
        x = x + 1;
    }
    let mut r: Vec<usize> = Vec::new();
    let mut x: usize = 0;
    while x < rows.len()
        invariant
            x <= rows.len(),
            scores.len() == rows.len(),
            forall|y: int| 0 <= y < rows.len() ==> scores@[y] == frecency(rows@[y], gnow),
            r.len() == (if (k as int) < (x as int) { k as int } else { x as int }),
            forall|i: int| 0 <= i < r.len() ==> r@[i] < x,
            forall|i: int, j: int| 0 <= i < j < r.len() ==> ranks_before(rows@, gnow, r@[i] as int, r@[j] as int),
            forall|y: usize| y < x && !r@.contains(y) ==> r.len() == k
                && forall|i: int| 0 <= i < r.len() ==> ranks_before(rows@, gnow, r@[i] as int, y as int),
        decreases rows.len() - x,
    {
        let mut p: usize = 0;
        while p < r.len() && before(rows, &scores, Ghost(gnow), r[p], x)
            invariant
                p <= r.len(),
                x < rows.len(),
                scores.len() == rows.len(),
                forall|y: int| 0 <= y < rows.len() ==> scores@[y] == frecency(rows@[y], gnow),
                forall|i: int| 0 <= i < r.len() ==> r@[i] < x,
                forall|i: int| 0 <= i < p ==> ranks_before(rows@, gnow, r@[i] as int, x as int),
            decreases r.len() - p,
        {
            p = p + 1;
        }
        let ghost old_r = r@;
        proof {
            assert forall|j: int| p <= j < old_r.len() implies ranks_before(rows@, gnow, x as int, old_r[j] as int) by {
                lemma_ranks_order(rows@, gnow, old_r[p as int] as int, x as int, old_r[j] as int);
                lemma_ranks_order(rows@, gnow, x as int, old_r[p as int] as int, old_r[j] as int);
            }
        }
        if p < k {
            r.insert(p, x);
            let ghost ins = r@;
            if r.len() > k {
                r.pop();
            }
            proof {
                assert forall|i: int, j: int| 0 <= i < j < r.len() implies ranks_before(rows@, gnow, r@[i] as int, r@[j] as int) by {
                    assert(r@[i] == ins[i]);
                    assert(r@[j] == ins[j]);
                }
                assert forall|y: usize| y < x + 1 && !r@.contains(y) implies r.len() == k
                    && forall|i: int| 0 <= i < r.len() ==> ranks_before(rows@, gnow, r@[i] as int, y as int) by {
                    if y == x {
                        assert(ins[p as int] == x);
                        assert(r@[p as int] == x);
                    } else if old_r.contains(y) {
                        let m = choose|m: int| 0 <= m < old_r.len() && old_r[m] == y;
                        if m < p {
                            assert(r@[m] == y);
                        } else {
                            assert(ins[m + 1] == y);
                            if m + 1 < r.len() {
                                assert(r@[m + 1] == y);
                            }
                            assert(ins.len() == k + 1);
                            assert forall|i: int| 0 <= i < r.len() implies ranks_before(rows@, gnow, r@[i] as int, y as int) by {
                                assert(r@[i] == ins[i]);
                            }
                        }
                    } else {
                        assert forall|i: int| 0 <= i < r.len() implies ranks_before(rows@, gnow, r@[i] as int, y as int) by {
                            assert(r@[i] == ins[i]);
                            if i < p {
                                assert(ins[i] == old_r[i]);
                            } else if i == p {
                                assert(ins[i] == x);
                                assert(old_r.len() == k);
                                lemma_ranks_order(rows@, gnow, x as int, old_r[p as int] as int, y as int);
                            } else {
                                assert(ins[i] == old_r[i - 1]);
                            }
                        }
                    }
                }
            }
        } else {
            proof {
                assert forall|y: usize| y < x + 1 && !r@.contains(y) implies r.len() == k
                    && forall|i: int| 0 <= i < r.len() ==> ranks_before(rows@, gnow, r@[i] as int, y as int) by {
                    if y == x {
                        assert(r.len() == k);
                    }
                }
            }
        }
        x = x + 1;
    }
    proof {
        assert(top_ranked(rows@, gnow, k as int, r@));
        law_ranking_is_unique(rows@, gnow, k as int, r@, ranked(rows@, gnow, k as int));
    }
    r
}

/// The command palette's suggestions for a search: the matching
/// `favorites` (already in their own order) first, then the matching
/// `history` rows by frecency at `now`, `limit` in all.
pub fn query_suggestions(favorites: &Vec<PageEntry>, history: &Vec<HistoryRow>, now: i64, limit: usize) -> (out: Vec<Suggestion>)
    ensures
        ({
            let nf = if limit < favorites.len() { limit as int } else { favorites.len() as int };
            let nh = if limit - nf < history.len() { limit - nf } else { history.len() as int };
            &&& out.len() == nf + nh
            &&& forall|i: int| 0 <= i < nf ==> {
                &&& (#[trigger] out@[i]).url@ == favorites@[i].url@
                &&& out@[i].title@ == favorites@[i].title@
                &&& out@[i].favorite
            }
            &&& forall|i: int| 0 <= i < nh ==> {
                let row = history@[ranked(history@, now as int, limit - nf)[i] as int];
                &&& (#[trigger] out@[nf + i]).url@ == row.url@
                &&& out@[nf + i].title@ == row.title@
                &&& !out@[nf + i].favorite
            }
        }),
{
    let mut out: Vec<Suggestion> = Vec::new();
    let mut i: usize = 0;
    while i < favorites.len() && i < limit
        invariant
            i <= favorites.len(),
            i <= limit,
            out.len() == i,
            forall|j: int| 0 <= j < i ==> {
                &&& (#[trigger] out@[j]).url@ == favorites@[j].url@
                &&& out@[j].title@ == favorites@[j].title@
                &&& out@[j].favorite
            },
        decreases favorites.len() - i,
    {
        out.push(Suggestion { url: favorites[i].url.clone(), title: favorites[i].title.clone(), favorite: true });
        i = i + 1;
    }
    let nf = i;
    let remaining = limit - nf;
    let order = rank_history(history, now, remaining);
    let mut j: usize = 0;
    while j < order.len()
        invariant
            j <= order.len(),
            top_ranked(history@, now as int, remaining as int, order@),
            out.len() == nf + j,
            forall|m: int| 0 <= m < nf ==> {
                &&& (#[trigger] out@[m]).url@ == favorites@[m].url@
                &&& out@[m].title@ == favorites@[m].title@
                &&& out@[m].favorite
            },
            forall|m: int| 0 <= m < j ==> {
                &&& (#[trigger] out@[nf + m]).url@ == history@[order@[m] as int].url@
                &&& out@[nf + m].title@ == history@[order@[m] as int].title@
                &&& !out@[nf + m].favorite
            },
        decreases order.len() - j,
    {
        let row = &history[order[j]];
        out.push(Suggestion { url: row.url.clone(), title: row.title.clone(), favorite: false });
        j = j + 1;
    }
    out
}

/// The palette's history ranking is a strict order, so a search's ranked
/// list is unique: any two lists of the top `k` rows agree.
pub proof fn law_ranking_is_unique(rows: Seq<HistoryRow>, now: int, k: int, s: Seq<usize>, t: Seq<usize>)
    requires
        top_ranked(rows, now, k, s),
        top_ranked(rows, now, k, t),
    ensures
        s == t,
{
    assert forall|i: int| 0 <= i < s.len() implies s[i] == t[i] by {
        lemma_same_prefix(rows, now, k, s, t, i);
    }
    assert(s =~= t);
}

/// Where two top lists first differ, each one's entry ranks ahead of the
/// other's.
proof fn lemma_ahead(rows: Seq<HistoryRow>, now: int, k: int, s: Seq<usize>, t: Seq<usize>, n: int)
    requires
        top_ranked(rows, now, k, s),
        top_ranked(rows, now, k, t),
        0 <= n < s.len(),
        forall|i: int| 0 <= i < n ==> s[i] == t[i],
        s[n] != t[n],
    ensures
        ranks_before(rows, now, s[n] as int, t[n] as int),
{
    if s.contains(t[n]) {
        let m = choose|m: int| 0 <= m < s.len() && s[m] == t[n];
        if m < n {
            assert(t[m] == s[m]);
            assert(ranks_before(rows, now, t[m] as int, t[n] as int));
        } else {
            assert(ranks_before(rows, now, s[n] as int, s[m] as int));
        }
    } else {
        assert(t[n] < rows.len());
    }
}

proof fn lemma_same_prefix(rows: Seq<HistoryRow>, now: int, k: int, s: Seq<usize>, t: Seq<usize>, n: int)
    requires
        top_ranked(rows, now, k, s),
        top_ranked(rows, now, k, t),
        0 <= n < s.len(),
    ensures
        forall|i: int| 0 <= i <= n ==> s[i] == t[i],
    decreases n,
{
    if n > 0 {
        lemma_same_prefix(rows, now, k, s, t, n - 1);
    }
    if s[n] != t[n] {
        lemma_ahead(rows, now, k, s, t, n);
        lemma_ahead(rows, now, k, t, s, n);
        lemma_ranks_order(rows, now, s[n] as int, t[n] as int, s[n] as int);
    }
}

} // verus!
