//! On-disk hygiene for the browsing cache: the one directory a launch may
//! purge, the guard that refuses anything else, the truthful outcome of a
//! purge, and the human-readable byte counts of the footprint readout.
//!
//! The purge target is exactly one directory, `<exe_dir>/cyberdesk-cache`;
//! everything that must survive lives in a different tree and is never named
//! here. A path that fails the guard is flagged, never deleted.

use vstd::prelude::*;
use std::path::Path;
use crate::json::{json_bool, push_json_bool, push_json_string, quoted};
use crate::text::{decimal, push_decimal, push_str, str_eq};

verus! {

broadcast use vstd::string::group_string_axioms;

/// The single top-level directory name the browsing profile and cache live
/// under; the purge allowlist is exactly this directory.
pub const CACHE_DIR_NAME: &'static str = "cyberdesk-cache";

// --- Human-readable sizes ------------------------------------------------------

/// `1024^u` for the units B, KB, MB, GB, TB.
pub open spec fn unit_size(u: nat) -> nat {
    if u == 0 {
        1
    } else if u == 1 {
        1024
    } else if u == 2 {
        1048576
    } else if u == 3 {
        1073741824
    } else {
        1099511627776
    }
}

/// The name of unit `u`.
pub open spec fn unit_name(u: nat) -> Seq<char> {
    if u == 0 {
        "B"@
    } else if u == 1 {
        "KB"@
    } else if u == 2 {
        "MB"@
    } else if u == 3 {
        "GB"@
    } else {
        "TB"@
    }
}

/// The largest unit at or above `u`, up to TB, that is at most `n`.
pub open spec fn unit_from(n: nat, u: nat) -> nat
    decreases 4 - u,
{
    if u < 4 && unit_size(u + 1) <= n {
        unit_from(n, u + 1)
    } else {
        u
    }
}

/// The unit `n` bytes are shown in: the largest that fits, promoted once
/// more when the count rounds to 1024.0 of it (so just below 1 MiB reads
/// `1.0 MB`, never `1024.0 KB`).
pub open spec fn shown_unit(n: nat) -> nat {
    let u = unit_from(n, 0);
    if u < 4 && 20 * n >= 20479 * unit_size(u) {
        u + 1
    } else {
        u
    }
}

/// `a / b` rounded to the nearest integer, ties to even.
pub open spec fn round_half_even(a: nat, b: nat) -> nat
    recommends
        b > 0,
{
    let q = a / b;
    let r = a % b;
    if 2 * r > b || (2 * r == b && q % 2 == 1) {
        q + 1
    } else {
        q
    }
}

/// `n` bytes as the settings readout shows them: whole bytes below 1 KiB,
/// else the count in its unit with one decimal.
pub open spec fn human(n: nat) -> Seq<char> {
    if n < 1024 {
        decimal(n) + " B"@
    } else {
        let u = shown_unit(n);
        let t = round_half_even(10 * n, unit_size(u));
        decimal(t / 10) + "."@ + decimal(t % 10) + " "@ + unit_name(u)
    }
}

proof fn lemma_unit_from(n: nat, u: nat)
    requires
        u <= 4,
        unit_size(u) <= n,
    ensures
        u <= unit_from(n, u) <= 4,
        unit_size(unit_from(n, u)) <= n,
        unit_from(n, u) < 4 ==> n < unit_size(unit_from(n, u) + 1),
    decreases 4 - u,
{
    if u < 4 && unit_size(u + 1) <= n {
        lemma_unit_from(n, u + 1);
    }
}

/// The readout never shows 1024.0 of a unit below TB: a count just below a
/// unit boundary is promoted to `1.0` of the next unit.
pub proof fn law_human_never_shows_1024_of_a_unit(n: nat)
    requires
        n >= 1024,
    ensures
        shown_unit(n) < 4 ==> round_half_even(10 * n, unit_size(shown_unit(n))) < 10240,
{
    lemma_unit_from(n, 0);
    let u = unit_from(n, 0);
    let d = unit_size(u);
    if u < 4 && 20 * n >= 20479 * d {
        let d2 = unit_size(u + 1);
        assert(d2 == 1024 * d);
        assert(10 * n < 10 * d2);
        assert((10 * n) / d2 < 10) by (nonlinear_arith)
            requires
                10 * n < 10 * d2,
                d2 > 0,
        ;
    } else if u < 4 {
        assert(20 * n < 20479 * d);
        let q = (10 * n) / d;
        let r = (10 * n) % d;
        assert(10 * n == q * d + r && 0 <= r < d) by (nonlinear_arith)
            requires
                d > 0,
                q == (10 * n) / d,
                r == (10 * n) % d,
        ;
        assert(q < 10240) by (nonlinear_arith)
            requires
                10 * n == q * d + r,
                0 <= r,
                20 * n < 20479 * d,
                d > 0,
        ;
        if q == 10239 {
            assert(2 * r < d) by (nonlinear_arith)
                requires
                    10 * n == q * d + r,
                    q == 10239,
                    20 * n < 20479 * d,
            ;
        }
    }
}

fn unit_word(u: usize) -> (s: &'static str)
    requires
        u <= 4,
    ensures
        s@ == unit_name(u as nat),
{
    if u == 0 {
        "B"
    } else if u == 1 {
        "KB"
    } else if u == 2 {
        "MB"
    } else if u == 3 {
        "GB"
    } else {
        "TB"
    }
}

/// Format a byte count as a short human-readable string.
pub fn human_bytes(n: u64) -> (s: String)
    ensures
        s@ == human(n as nat),
{
    if n < 1024 {
        let mut s = String::new();
        push_decimal(&mut s, n);
        push_str(&mut s, " B");
        return s;
    }
    let mut u: usize = 0;
    let mut d: u64 = 1;
    while u < 4 && d * 1024 <= n
        invariant
            u <= 4,
            d as nat == unit_size(u as nat),
            d <= n,
            unit_from(n as nat, 0) == unit_from(n as nat, u as nat),
        decreases 4 - u,
    {
        d = d * 1024;
        u = u + 1;
    }
    assert(unit_from(n as nat, u as nat) == u);
    let wide: u128 = n as u128;
    if u < 4 && 20 * wide >= 20479 * (d as u128) {
        d = d * 1024;
        u = u + 1;
    }
    assert(u == shown_unit(n as nat));
    let q: u128 = (10 * wide) / (d as u128);
    let r: u128 = (10 * wide) % (d as u128);
    let t: u128 = if 2 * r > d as u128 || (2 * r == d as u128 && q % 2 == 1) {
        q + 1
    } else {
        q
    };
    assert(t == round_half_even(10 * n as nat, d as nat));
    assert(q <= 10 * wide) by (nonlinear_arith)
        requires
            d >= 1,
            q as int == (10 * wide as int) / (d as int),
    ;
    let whole: u64 = (t / 10) as u64;
    let tenth: u64 = (t % 10) as u64;
    let mut s = String::new();
    push_decimal(&mut s, whole);
    push_str(&mut s, ".");
    push_decimal(&mut s, tenth);
    push_str(&mut s, " ");
    push_str(&mut s, unit_word(u));
    s
}

// --- The purge guard -------------------------------------------------------------

#[verifier::external_type_specification]
#[verifier::external_body]
pub struct ExPath(Path);

/// `Path::is_absolute`. Whether a path is absolute depends on the platform's
/// path rules (a drive prefix on Windows, a leading `/` elsewhere), so
/// nothing is stated of the result.
#[verifier::external_body]
fn path_is_absolute(p: &Path) -> bool {
    p.is_absolute()
}

/// `Path::file_name`, taken as text when it is valid Unicode. The final
/// component follows the platform's separators, so nothing is stated of it.
#[verifier::external_body]
fn path_file_name(p: &Path) -> Option<String> {
    match p.file_name() {
        Some(n) => match n.to_str() {
            Some(t) => Some(t.to_string()),
            None => None,
        },
        None => None,
    }
}

/// `Path::parent`. What the parent of a path is follows the platform's
/// rules, so nothing is stated of the result.
#[verifier::external_body]
fn path_parent(p: &Path) -> Option<&Path> {
    p.parent()
}

/// `Path::components`, counted. Component splitting follows the platform's
/// rules, so nothing is stated of the count.
#[verifier::external_body]
fn path_component_count(p: &Path) -> usize {
    p.components().count()
}

/// `Path::display`, as text (lossy where the path is not valid Unicode).
#[verifier::external_body]
fn path_text(p: &Path) -> String {
    p.display().to_string()
}

/// The guard's rule on what the platform's path functions report: the path
/// is absolute, its final component is exactly [`CACHE_DIR_NAME`], and it
/// has a parent with at least one component (so it is never a root).
pub open spec fn purge_target_ok(absolute: bool, file_name: Option<Seq<char>>, parent_components: Option<nat>) -> bool {
    &&& absolute
    &&& file_name == Some(CACHE_DIR_NAME@)
    &&& parent_components matches Some(c) && c > 0
}

/// The guard's verdict from what the platform reports of a path.
pub fn purge_target_verdict(absolute: bool, file_name: Option<&str>, parent_components: Option<usize>) -> (b: bool)
    ensures
        b == purge_target_ok(
            absolute,
            match file_name {
                Some(f) => Some(f@),
                None => None,
            },
            match parent_components {
                Some(c) => Some(c as nat),
                None => None,
            },
        ),
{
    if !absolute {
        return false;
    }
    let named = match file_name {
        Some(f) => str_eq(f, CACHE_DIR_NAME),
        None => false,
    };
    if !named {
        return false;
    }
    match parent_components {
        Some(c) => c > 0,
        None => false,
    }
}

/// What the platform's path functions report of a path: whether it is
/// absolute, its final component as text (`None` when there is none or it is
/// not Unicode), how many components its parent has (`None` without a
/// parent), and its display text.
pub struct PathFacts {
    pub absolute: bool,
    pub file_name: Option<String>,
    pub parent_components: Option<usize>,
    pub text: String,
}

/// The guard's rule (see [`purge_target_ok`]) applied to reported facts.
pub open spec fn facts_ok(f: PathFacts) -> bool {
    purge_target_ok(
        f.absolute,
        match f.file_name {
            Some(n) => Some(n@),
            None => None,
        },
        match f.parent_components {
            Some(c) => Some(c as nat),
            None => None,
        },
    )
}

/// What the platform reports of `path`.
fn path_facts(path: &Path) -> (f: PathFacts) {
    let absolute = path_is_absolute(path);
    let file_name = path_file_name(path);
    let parent_components = match path_parent(path) {
        Some(q) => Some(path_component_count(q)),
        None => None,
    };
    PathFacts { absolute, file_name, parent_components, text: path_text(path) }
}

/// Is `path` a browsing-cache directory that is safe to remove wholesale?
/// Absolute, named exactly [`CACHE_DIR_NAME`], with a real parent. Returns
/// the verdict with the facts the platform reported of the path, and the
/// verdict is the guard's rule on exactly those facts; what the platform
/// reports is not stated.
pub fn is_safe_purge_target(path: &Path) -> (r: (bool, PathFacts))
    ensures
        r.0 == facts_ok(r.1),
{
    let f = path_facts(path);
    let safe = match &f.file_name {
        Some(n) => purge_target_verdict(f.absolute, Some(n.as_str()), f.parent_components),
        None => purge_target_verdict(f.absolute, None, f.parent_components),
    };
    (safe, f)
}

// --- The purge outcome -------------------------------------------------------------

/// The outcome of a launch-time purge, for the settings readout: every field
/// is what actually happened.
#[derive(Clone, Debug)]
pub struct PurgeOutcome {
    /// Did the purge run (was the setting on)?
    pub ran: bool,
    /// Bytes of residue found on disk at launch, before deleting.
    pub found_bytes: u64,
    /// Whether the target directory existed and was actually removed.
    pub cleared: bool,
    /// A non-fatal failure, if the purge could not fully complete.
    pub error: Option<String>,
}

/// The outcome of a purge that did not run.
pub open spec fn not_run(o: PurgeOutcome) -> bool {
    !o.ran && o.found_bytes == 0 && !o.cleared && o.error is None
}

/// The outcome of a purge that ran and deleted nothing, with `error`.
pub open spec fn ran_without_deleting(o: PurgeOutcome, error: Option<Seq<char>>) -> bool {
    &&& o.ran
    &&& o.found_bytes == 0
    &&& !o.cleared
    &&& match (o.error, error) {
        (Some(e), Some(t)) => e@ == t,
        (None, None) => true,
        _ => false,
    }
}

impl Default for PurgeOutcome {
    fn default() -> (o: PurgeOutcome)
        ensures
            not_run(o),
    {
        PurgeOutcome { ran: false, found_bytes: 0, cleared: false, error: None }
    }
}

/// The next step of a launch purge.
pub enum PurgeStep {
    /// The purge is over: record this outcome.
    Done(PurgeOutcome),
    /// The target passed the guard and is on disk: measure it, remove it,
    /// and report what happened to [`purge_finish`].
    Remove,
}

/// The launch purge's decision, from the setting `enabled`, the text of the
/// resolved cache path (`None` when it could not be resolved), the guard's
/// verdict `safe` on it, and whether it `exists` on disk.
pub open spec fn purge_plan(enabled: bool, shown: Option<Seq<char>>, safe: bool, exists: bool, s: PurgeStep) -> bool {
    if !enabled {
        s matches PurgeStep::Done(o) && not_run(o)
    } else {
        match shown {
            None => s matches PurgeStep::Done(o) && ran_without_deleting(
                o,
                Some("could not resolve the browsing-cache path"@),
            ),
            Some(t) => if !safe {
                s matches PurgeStep::Done(o) && ran_without_deleting(
                    o,
                    Some("refused an unsafe cache path: "@ + t),
                )
            } else if !exists {
                s matches PurgeStep::Done(o) && ran_without_deleting(o, None)
            } else {
                s is Remove
            },
        }
    }
}

fn ran_with(error: Option<String>) -> (o: PurgeOutcome)
    ensures
        o.ran && o.found_bytes == 0 && !o.cleared && o.error == error,
{
    PurgeOutcome { ran: true, found_bytes: 0, cleared: false, error }
}

/// The decision of [`purge_plan`], on plain values.
pub fn purge_decision(enabled: bool, shown: Option<&str>, safe: bool, exists: bool) -> (s: PurgeStep)
    ensures
        purge_plan(
            enabled,
            match shown {
                Some(t) => Some(t@),
                None => None,
            },
            safe,
            exists,
            s,
        ),
{
    if !enabled {
        return PurgeStep::Done(PurgeOutcome::default());
    }
    match shown {
        None => PurgeStep::Done(ran_with(Some(String::from_str("could not resolve the browsing-cache path")))),
        Some(t) => {
            if !safe {
                let mut e = String::from_str("refused an unsafe cache path: ");
                push_str(&mut e, t);
                PurgeStep::Done(ran_with(Some(e)))
            } else if !exists {
                PurgeStep::Done(ran_with(None))
            } else {
                PurgeStep::Remove
            }
        },
    }
}

/// Decide the launch purge for the setting `enabled`, the resolved cache
/// path `root` (`None` when it could not be resolved) and whether it
/// `exists` on disk. The guard is consulted on `root` whenever the purge is
/// on and the path resolved, and what the platform reported of it is
/// returned beside the step: the step is [`purge_plan`]'s on that path text
/// and that verdict, so nothing is removed unless the guard's rule holds of
/// the reported facts.
pub fn purge_on_launch(enabled: bool, root: Option<&Path>, exists: bool) -> (r: (PurgeStep, Option<PathFacts>))
    ensures
        !enabled ==> (r.0 matches PurgeStep::Done(o) && not_run(o)) && r.1 is None,
        enabled && root is None ==> (r.0 matches PurgeStep::Done(o) && ran_without_deleting(
            o,
            Some("could not resolve the browsing-cache path"@),
        )) && r.1 is None,
        enabled && root is Some ==> (r.1 matches Some(f) && purge_plan(true, Some(f.text@), facts_ok(f), exists, r.0)),
        r.0 is Remove ==> (r.1 matches Some(f) && facts_ok(f)),
{
    match root {
        None => (purge_decision(enabled, None, false, exists), None),
        Some(p) => {
            if !enabled {
                return (purge_decision(false, None, false, exists), None);
            }
            let (safe, f) = is_safe_purge_target(p);
            let s = purge_decision(true, Some(f.text.as_str()), safe, exists);
            (s, Some(f))
        },
    }
}

/// The outcome once the target was measured at `found_bytes` and removal
/// was attempted: cleared on success; on failure the error is kept and the
/// directory counts as cleared only if `remaining` (its size after the
/// attempt) is zero.
pub fn purge_finish(found_bytes: u64, removal: Result<(), String>, remaining: u64) -> (o: PurgeOutcome)
    ensures
        o.ran,
        o.found_bytes == found_bytes,
        match removal {
            Ok(()) => o.cleared && o.error is None,
            Err(e) => o.cleared == (remaining == 0) && (o.error matches Some(m)
                && m@ == "could not fully clear residue: "@ + e@),
        },
{
    match removal {
        Ok(()) => PurgeOutcome { ran: true, found_bytes, cleared: true, error: None },
        Err(e) => {
            let mut m = String::from_str("could not fully clear residue: ");
            push_str(&mut m, e.as_str());
            PurgeOutcome { ran: true, found_bytes, cleared: remaining == 0, error: Some(m) }
        },
    }
}

// --- The footprint readout ------------------------------------------------------------

/// The footprint readout for the settings page: whether the purge is on,
/// the cache directory's current size `on_disk`, and what the launch purge
/// `o` did, as one JSON object with its keys in order.
pub open spec fn footprint(enabled: bool, on_disk: u64, o: PurgeOutcome) -> Seq<char> {
    "{\"enabled\":"@ + json_bool(enabled) + ",\"last_purge\":{\"cleared\":"@ + json_bool(o.cleared)
        + ",\"error\":"@ + (match o.error {
        Some(e) => quoted(e@),
        None => "null"@,
    }) + ",\"found_bytes\":"@ + decimal(o.found_bytes as nat) + ",\"found_human\":"@ + quoted(
        human(o.found_bytes as nat),
    ) + ",\"ran\":"@ + json_bool(o.ran) + "},\"on_disk_bytes\":"@ + decimal(on_disk as nat)
        + ",\"on_disk_human\":"@ + quoted(human(on_disk as nat)) + "}"@
}

/// The text of a JSON member `"key":value` with the character `end` that
/// closes it (`,` before the next member, `}` at the end of an object).
pub open spec fn member_text(key: Seq<char>, value: Seq<char>, end: char) -> Seq<char> {
    "\""@ + key + "\":"@ + value + seq![end]
}

/// `text` holds the member `"key":value`, closed by `,` or `}`.
pub open spec fn has_member(text: Seq<char>, key: Seq<char>, value: Seq<char>) -> bool {
    exists|i: int, end: char| {
        &&& end == ',' || end == '}'
        &&& 0 <= i
        &&& i + member_text(key, value, end).len() <= text.len()
        &&& #[trigger] text.subrange(i, i + member_text(key, value, end).len()) == member_text(key, value, end)
    }
}

/// The key part `"key":` of a member.
pub open spec fn key_text(key: Seq<char>) -> Seq<char> {
    "\""@ + key + "\":"@
}

/// `t` ends with `k`.
pub open spec fn ends_with(t: Seq<char>, k: Seq<char>) -> bool {
    t.len() >= k.len() && t.subrange(t.len() - k.len(), t.len() as int) == k
}

proof fn lemma_ends_after(x: Seq<char>, l: Seq<char>, k: Seq<char>)
    requires
        ends_with(l, k),
    ensures
        ends_with(x + l, k),
{
    let t = x + l;
    assert(t.subrange(t.len() - k.len(), t.len() as int) =~= l.subrange(l.len() - k.len(), l.len() as int));
}

proof fn lemma_member_at(a: Seq<char>, key: Seq<char>, value: Seq<char>, l: Seq<char>)
    requires
        ends_with(a, key_text(key)),
        l.len() > 0,
        l[0] == ',' || l[0] == '}',
    ensures
        has_member(a + value + l, key, value),
{
    let k = key_text(key);
    let i = a.len() - k.len();
    let end = l[0];
    let m = member_text(key, value, end);
    let t = a + value + l;
    assert(m =~= k + value + seq![end]);
    assert(t.subrange(i, i + m.len()) =~= m);
}

proof fn lemma_member_grows(x: Seq<char>, y: Seq<char>, key: Seq<char>, value: Seq<char>)
    requires
        has_member(x, key, value),
    ensures
        has_member(x + y, key, value),
{
    let (i, end) = choose|i: int, end: char| {
        &&& end == ',' || end == '}'
        &&& 0 <= i
        &&& i + member_text(key, value, end).len() <= x.len()
        &&& #[trigger] x.subrange(i, i + member_text(key, value, end).len()) == member_text(key, value, end)
    };
    let m = member_text(key, value, end);
    assert((x + y).subrange(i, i + m.len()) =~= x.subrange(i, i + m.len()));
}

/// The footprint readout reports what it was given, each member on its
/// own: whether the purge is enabled, the outcome's `cleared`, `ran` and
/// `found_bytes` (so a purge that ran but removed nothing never reads as
/// cleared), and the size on disk.
pub proof fn law_footprint_reports_each_field(enabled: bool, on_disk: u64, o: PurgeOutcome)
    ensures
        has_member(footprint(enabled, on_disk, o), "enabled"@, json_bool(enabled)),
        has_member(footprint(enabled, on_disk, o), "cleared"@, json_bool(o.cleared)),
        has_member(footprint(enabled, on_disk, o), "found_bytes"@, decimal(o.found_bytes as nat)),
        has_member(footprint(enabled, on_disk, o), "ran"@, json_bool(o.ran)),
        has_member(footprint(enabled, on_disk, o), "on_disk_bytes"@, decimal(on_disk as nat)),
{
    let l1 = "{\"enabled\":"@;
    let l2 = ",\"last_purge\":{\"cleared\":"@;
    let l3 = ",\"error\":"@;
    let l4 = ",\"found_bytes\":"@;
    let l5 = ",\"found_human\":"@;
    let l6 = ",\"ran\":"@;
    let l7 = "},\"on_disk_bytes\":"@;
    let l8 = ",\"on_disk_human\":"@;
    let l9 = "}"@;
    reveal_strlit("{\"enabled\":");
    reveal_strlit(",\"last_purge\":{\"cleared\":");
    reveal_strlit(",\"error\":");
    reveal_strlit(",\"found_bytes\":");
    reveal_strlit(",\"found_human\":");
    reveal_strlit(",\"ran\":");
    reveal_strlit("},\"on_disk_bytes\":");
    reveal_strlit(",\"on_disk_human\":");
    reveal_strlit("\"");
    reveal_strlit("\":");
    reveal_strlit("enabled");
    reveal_strlit("cleared");
    reveal_strlit("found_bytes");
    reveal_strlit("ran");
    reveal_strlit("on_disk_bytes");
    let eb = json_bool(enabled);
    let cl = json_bool(o.cleared);
    let err = match o.error {
        Some(e) => quoted(e@),
        None => "null"@,
    };
    let fb = decimal(o.found_bytes as nat);
    let fh = quoted(human(o.found_bytes as nat));
    let rn = json_bool(o.ran);
    let db = decimal(on_disk as nat);
    let dh = quoted(human(on_disk as nat));
    let t1 = l1 + eb;
    let t2 = t1 + l2;
    let t3 = t2 + cl;
    let t4 = t3 + l3;
    let t5 = t4 + err;
    let t6 = t5 + l4;
    let t7 = t6 + fb;
    let t8 = t7 + l5;
    let t9 = t8 + fh;
    let t10 = t9 + l6;
    let t11 = t10 + rn;
    let t12 = t11 + l7;
    let t13 = t12 + db;
    let t14 = t13 + l8;
    let t15 = t14 + dh;
    let f = t15 + l9;
    assert(f == footprint(enabled, on_disk, o));
    // "enabled"
    assert(l1.subrange(l1.len() - key_text("enabled"@).len(), l1.len() as int) =~= key_text("enabled"@));
    lemma_member_at(l1, "enabled"@, eb, l2);
    // "cleared"
    assert(l2.subrange(l2.len() - key_text("cleared"@).len(), l2.len() as int) =~= key_text("cleared"@));
    lemma_ends_after(t1, l2, key_text("cleared"@));
    lemma_member_at(t2, "cleared"@, cl, l3);
    // "found_bytes"
    assert(l4.subrange(l4.len() - key_text("found_bytes"@).len(), l4.len() as int) =~= key_text("found_bytes"@));
    lemma_ends_after(t5, l4, key_text("found_bytes"@));
    lemma_member_at(t6, "found_bytes"@, fb, l5);
    // "ran"
    assert(l6.subrange(l6.len() - key_text("ran"@).len(), l6.len() as int) =~= key_text("ran"@));
    lemma_ends_after(t9, l6, key_text("ran"@));
    lemma_member_at(t10, "ran"@, rn, l7);
    // "on_disk_bytes"
    assert(l7.subrange(l7.len() - key_text("on_disk_bytes"@).len(), l7.len() as int) =~= key_text("on_disk_bytes"@));
    lemma_ends_after(t11, l7, key_text("on_disk_bytes"@));
    lemma_member_at(t12, "on_disk_bytes"@, db, l8);
    // Each member stays as the rest of the readout follows it.
    lemma_member_grows(t2, cl, "enabled"@, eb);
    lemma_member_grows(t3, l3, "enabled"@, eb);
    lemma_member_grows(t4, err, "enabled"@, eb);
    lemma_member_grows(t4, err, "cleared"@, cl);
    lemma_member_grows(t5, l4, "enabled"@, eb);
    lemma_member_grows(t5, l4, "cleared"@, cl);
    lemma_member_grows(t6, fb, "enabled"@, eb);
    lemma_member_grows(t6, fb, "cleared"@, cl);
    lemma_member_grows(t7, l5, "enabled"@, eb);
    lemma_member_grows(t7, l5, "cleared"@, cl);
    lemma_member_grows(t8, fh, "enabled"@, eb);
    lemma_member_grows(t8, fh, "cleared"@, cl);
    lemma_member_grows(t8, fh, "found_bytes"@, fb);
    lemma_member_grows(t9, l6, "enabled"@, eb);
    lemma_member_grows(t9, l6, "cleared"@, cl);
    lemma_member_grows(t9, l6, "found_bytes"@, fb);
    lemma_member_grows(t10, rn, "enabled"@, eb);
    lemma_member_grows(t10, rn, "cleared"@, cl);
    lemma_member_grows(t10, rn, "found_bytes"@, fb);
    lemma_member_grows(t11, l7, "enabled"@, eb);
    lemma_member_grows(t11, l7, "cleared"@, cl);
    lemma_member_grows(t11, l7, "found_bytes"@, fb);
    lemma_member_grows(t12, db, "enabled"@, eb);
    lemma_member_grows(t12, db, "cleared"@, cl);
    lemma_member_grows(t12, db, "found_bytes"@, fb);
    lemma_member_grows(t12, db, "ran"@, rn);
    lemma_member_grows(t13, l8, "enabled"@, eb);
    lemma_member_grows(t13, l8, "cleared"@, cl);
    lemma_member_grows(t13, l8, "found_bytes"@, fb);
    lemma_member_grows(t13, l8, "ran"@, rn);
    lemma_member_grows(t14, dh, "enabled"@, eb);
    lemma_member_grows(t14, dh, "cleared"@, cl);
    lemma_member_grows(t14, dh, "found_bytes"@, fb);
    lemma_member_grows(t14, dh, "ran"@, rn);
    lemma_member_grows(t14, dh, "on_disk_bytes"@, db);
    lemma_member_grows(t15, l9, "enabled"@, eb);
    lemma_member_grows(t15, l9, "cleared"@, cl);
    lemma_member_grows(t15, l9, "found_bytes"@, fb);
    lemma_member_grows(t15, l9, "ran"@, rn);
    lemma_member_grows(t15, l9, "on_disk_bytes"@, db);
}

/// The footprint readout as JSON, from the measured size `on_disk` and the
/// launch purge's outcome `last`.
pub fn footprint_json(enabled: bool, on_disk: u64, last: &PurgeOutcome) -> (r: String)
    ensures
        r@ == footprint(enabled, on_disk, *last),
{
    let mut r = String::from_str("{\"enabled\":");
    push_json_bool(&mut r, enabled);
    push_str(&mut r, ",\"last_purge\":{\"cleared\":");
    push_json_bool(&mut r, last.cleared);
    push_str(&mut r, ",\"error\":");
    match &last.error {
        Some(e) => push_json_string(&mut r, e.as_str()),
        None => push_str(&mut r, "null"),
    }
    push_str(&mut r, ",\"found_bytes\":");
    push_decimal(&mut r, last.found_bytes);
    push_str(&mut r, ",\"found_human\":");
    let fh = human_bytes(last.found_bytes);
    push_json_string(&mut r, fh.as_str());
    push_str(&mut r, ",\"ran\":");
    push_json_bool(&mut r, last.ran);
    push_str(&mut r, "},\"on_disk_bytes\":");
    push_decimal(&mut r, on_disk);
    push_str(&mut r, ",\"on_disk_human\":");
    let oh = human_bytes(on_disk);
    push_json_string(&mut r, oh.as_str());
    push_str(&mut r, "}");
    r
}

} // verus!
