//! De-Google enforcement table.
//!
//! The Chromium engine under the shell phones Google home at many points by
//! default. This module is the single auditable table of every vector closed
//! and how: command-line switches for the process-global levers, profile
//! preferences for the per-profile ones, and one local-state preference for
//! secure DNS. The one piece of logic here is the `--disable-features` merge.

use vstd::prelude::*;
use crate::text::{
    chars_of, join_vecs, join_with, lemma_split_join, lemma_split_pieces_free, lemma_trim_facts,
    split_char, split_on, trim, trimmed, views,
};

verus! {

broadcast use vstd::string::group_string_axioms;

/// A preference value to force (maps onto the three CEF value setters).
#[derive(Clone, Copy, Debug)]
pub enum PrefValue {
    Bool(bool),
    Int(i32),
    Str(&'static str),
}

/// One forced preference, with the Chromium source that defines its name and
/// the phone-home traffic it closes.
#[derive(Clone, Copy, Debug)]
pub struct Pref {
    /// The Chromium preference path (e.g. `safebrowsing.enabled`).
    pub name: &'static str,
    /// The value it is pinned to.
    pub value: PrefValue,
    /// The Chromium file defining the preference-name constant.
    pub source: &'static str,
    /// The Google/telemetry connection this closes.
    pub closes: &'static str,
}

/// The profile preferences applied to every request context.
pub open spec fn context_pref_table() -> Seq<Pref> {
    seq![
        Pref {
            name: "safebrowsing.enabled",
            value: PrefValue::Bool(false),
            source: "components/safe_browsing/core/common/safe_browsing_prefs.h",
            closes: "Safe Browsing per-navigation URL/hash lookups + client-side phishing model fetch",
        },
        Pref {
            name: "safebrowsing.scout_reporting_enabled",
            value: PrefValue::Bool(false),
            source: "components/safe_browsing/core/common/safe_browsing_prefs.h",
            closes: "Safe Browsing extended (Scout) telemetry reporting",
        },
        Pref {
            name: "search.suggest_enabled",
            value: PrefValue::Bool(false),
            source: "chrome/common/pref_names.h",
            closes: "omnibox/search 'suggest' queries to the default search provider",
        },
        Pref {
            name: "alternate_error_pages.enabled",
            value: PrefValue::Bool(false),
            source: "components/embedder_support/pref_names.h",
            closes: "navigation-error 'did you mean' / Link-Doctor lookups",
        },
        Pref {
            // NetworkPredictionOptions: 0 = always, 1 = Wi-Fi only, 2 = never.
            name: "net.network_prediction_options",
            value: PrefValue::Int(2),
            source: "chrome/common/pref_names.h",
            closes: "network prediction / speculative DNS-preresolve + preconnect",
        },
        Pref {
            name: "spellcheck.use_spelling_service",
            value: PrefValue::Bool(false),
            source: "components/spellcheck/browser/pref_names.h",
            closes: "enhanced spell check (typed text sent to the Google spelling service)",
        },
        Pref {
            name: "translate.enabled",
            value: PrefValue::Bool(false),
            source: "components/translate/core/browser/translate_pref_names.h",
            closes: "translate service (page text + language sent to Google Translate)",
        },
        Pref {
            name: "profile.password_manager_leak_detection",
            value: PrefValue::Bool(false),
            source: "components/password_manager/core/common/password_manager_pref_names.h",
            closes: "password leak-detection check to Google on sign-in",
        },
        Pref {
            name: "autofill.profile_enabled",
            value: PrefValue::Bool(false),
            source: "components/autofill/core/common/autofill_prefs.h",
            closes: "Autofill address crowdsourcing queries/uploads to Google",
        },
        Pref {
            name: "autofill.credit_card_enabled",
            value: PrefValue::Bool(false),
            source: "components/autofill/core/common/autofill_prefs.h",
            closes: "Autofill credit-card + payments queries to Google",
        },
    ]
}

/// Profile preferences, applied to every request context (clearnet and each
/// per-slot Tor context alike).
pub fn context_prefs() -> (v: Vec<Pref>)
    ensures
        v@ == context_pref_table(),
{
    let v = vec![
        Pref {
            name: "safebrowsing.enabled",
            value: PrefValue::Bool(false),
            source: "components/safe_browsing/core/common/safe_browsing_prefs.h",
            closes: "Safe Browsing per-navigation URL/hash lookups + client-side phishing model fetch",
        },
        Pref {
            name: "safebrowsing.scout_reporting_enabled",
            value: PrefValue::Bool(false),
            source: "components/safe_browsing/core/common/safe_browsing_prefs.h",
            closes: "Safe Browsing extended (Scout) telemetry reporting",
        },
        Pref {
            name: "search.suggest_enabled",
            value: PrefValue::Bool(false),
            source: "chrome/common/pref_names.h",
            closes: "omnibox/search 'suggest' queries to the default search provider",
        },
        Pref {
            name: "alternate_error_pages.enabled",
            value: PrefValue::Bool(false),
            source: "components/embedder_support/pref_names.h",
            closes: "navigation-error 'did you mean' / Link-Doctor lookups",
        },
        Pref {
            // NetworkPredictionOptions: 0 = always, 1 = Wi-Fi only, 2 = never.
            name: "net.network_prediction_options",
            value: PrefValue::Int(2),
            source: "chrome/common/pref_names.h",
            closes: "network prediction / speculative DNS-preresolve + preconnect",
        },
        Pref {
            name: "spellcheck.use_spelling_service",
            value: PrefValue::Bool(false),
            source: "components/spellcheck/browser/pref_names.h",
            closes: "enhanced spell check (typed text sent to the Google spelling service)",
        },
        Pref {
            name: "translate.enabled",
            value: PrefValue::Bool(false),
            source: "components/translate/core/browser/translate_pref_names.h",
            closes: "translate service (page text + language sent to Google Translate)",
        },
        Pref {
            name: "profile.password_manager_leak_detection",
            value: PrefValue::Bool(false),
            source: "components/password_manager/core/common/password_manager_pref_names.h",
            closes: "password leak-detection check to Google on sign-in",
        },
        Pref {
            name: "autofill.profile_enabled",
            value: PrefValue::Bool(false),
            source: "components/autofill/core/common/autofill_prefs.h",
            closes: "Autofill address crowdsourcing queries/uploads to Google",
        },
        Pref {
            name: "autofill.credit_card_enabled",
            value: PrefValue::Bool(false),
            source: "components/autofill/core/common/autofill_prefs.h",
            closes: "Autofill credit-card + payments queries to Google",
        },
    ];
    assert(v@ =~= context_pref_table());
    v
}

/// The local-state preferences.
pub open spec fn global_pref_table() -> Seq<Pref> {
    seq![
        Pref {
            name: "dns_over_https.mode",
            value: PrefValue::Str("off"),
            source: "chrome/common/pref_names.h (registered in local state)",
            closes: "automatic secure-DNS/DoH resolver auto-upgrade on clearnet",
        },
    ]
}

/// Local-state preferences, set through the global preference manager: the
/// secure-DNS mode pinned to `off` so clearnet resolves deterministically.
pub fn global_prefs() -> (v: Vec<Pref>)
    ensures
        v@ == global_pref_table(),
{
    let v = vec![
        Pref {
            name: "dns_over_https.mode",
            value: PrefValue::Str("off"),
            source: "chrome/common/pref_names.h (registered in local state)",
            closes: "automatic secure-DNS/DoH resolver auto-upgrade on clearnet",
        },
    ];
    assert(v@ =~= global_pref_table());
    v
}

/// The process-global command-line switches.
pub open spec fn switch_table() -> Seq<&'static str> {
    seq![
        "disable-background-networking",
        "disable-component-update",
        "disable-domain-reliability",
        "disable-sync",
    ]
}

/// Boolean process-global command-line switches (bare names, no dashes).
pub fn switches() -> (v: Vec<&'static str>)
    ensures
        v@ == switch_table(),
{
    let v = vec![
        "disable-background-networking",
        "disable-component-update",
        "disable-domain-reliability",
        "disable-sync",
    ];
    assert(v@ =~= switch_table());
    v
}

/// The feature names merged into `--disable-features`.
pub open spec fn disable_feature_names() -> Seq<Seq<char>> {
    seq!["OptimizationHints"@]
}

/// The feature names merged into `--disable-features`.
pub fn disable_features() -> (v: Vec<&'static str>)
    ensures
        v@.len() == disable_feature_names().len(),
        forall|i: int| 0 <= i < v@.len() ==> v@[i]@ == #[trigger] disable_feature_names()[i],
{
    vec!["OptimizationHints"]
}

/// Environment variable naming the net-log capture path (off by default).
pub const AUDIT_NETLOG_ENV: &'static str = "CYBERDESK_AUDIT_NETLOG";

/// The trimmed, non-empty pieces of `ps`, in order.
pub open spec fn clean_pieces(ps: Seq<Seq<char>>) -> Seq<Seq<char>>
    decreases ps.len(),
{
    if ps.len() == 0 {
        Seq::empty()
    } else {
        let rest = clean_pieces(ps.drop_last());
        let t = trim(ps.last());
        if t.len() > 0 {
            rest.push(t)
        } else {
            rest
        }
    }
}

/// `out` with each of `feats` appended when not already present.
pub open spec fn add_missing(out: Seq<Seq<char>>, feats: Seq<Seq<char>>) -> Seq<Seq<char>>
    decreases feats.len(),
{
    if feats.len() == 0 {
        out
    } else {
        let o = add_missing(out, feats.drop_last());
        if o.contains(feats.last()) {
            o
        } else {
            o.push(feats.last())
        }
    }
}

/// The merged `--disable-features` value for an existing value.
pub open spec fn merged_features(existing: Seq<char>) -> Seq<char> {
    join_with(
        add_missing(clean_pieces(split_char(existing, ',')), disable_feature_names()),
        ',',
    )
}

fn contains_piece(out: &Vec<Vec<char>>, f: &[char]) -> (b: bool)
    ensures
        b == views(out@).contains(f@),
{
    let mut i: usize = 0;
    while i < out.len()
        invariant
            i <= out@.len(),
            forall|k: int| 0 <= k < i ==> out@[k]@ != f@,
        decreases out.len() - i,
    {
        if crate::text::seq_eq(out[i].as_slice(), f) {
            assert(views(out@)[i as int] == f@);
            return true;
        }
        i = i + 1;
    }
    assert forall|k: int| 0 <= k < views(out@).len() implies views(out@)[k] != f@ by {
        assert(views(out@)[k] == out@[k]@);
    }
    false
}

/// Merge the disabled-feature names into an existing comma-separated
/// `--disable-features` value: existing entries keep their order (trimmed,
/// empty ones dropped) and each of ours is appended only when absent.
pub fn merge_disable_features(existing: &str) -> (out: String)
    ensures
        out@ == merged_features(existing@),
{
    let cs = chars_of(existing);
    let pieces = split_on(cs.as_slice(), ',');
    let mut out: Vec<Vec<char>> = Vec::new();
    let mut i: usize = 0;
    while i < pieces.len()
        invariant
            i <= pieces@.len(),
            views(pieces@) == split_char(existing@, ','),
            views(out@) == clean_pieces(views(pieces@).take(i as int)),
        decreases pieces.len() - i,
    {
        let t = trimmed(pieces[i].as_slice());
        assert(views(pieces@).take(i + 1).drop_last() =~= views(pieces@).take(i as int));
        if t.len() > 0 {
            let ghost prev = views(out@);
            out.push(t);
            assert(views(out@) =~= prev.push(t@));
        }
        i = i + 1;
    }
    assert(views(pieces@).take(pieces@.len() as int) =~= views(pieces@));
    let feats = disable_features();
    let mut j: usize = 0;
    while j < feats.len()
        invariant
            j <= feats@.len(),
            feats@.len() == disable_feature_names().len(),
            forall|k: int| 0 <= k < feats@.len() ==> feats@[k]@ == #[trigger] disable_feature_names()[k],
            views(out@) == add_missing(
                clean_pieces(split_char(existing@, ',')),
                disable_feature_names().take(j as int),
            ),
        decreases feats.len() - j,
    {
        let f = chars_of(feats[j]);
        assert(disable_feature_names().take(j + 1).drop_last() =~= disable_feature_names().take(
            j as int,
        ));
        if !contains_piece(&out, f.as_slice()) {
            let ghost prev = views(out@);
            out.push(f);
            assert(views(out@) =~= prev.push(f@));
        }
        j = j + 1;
    }
    assert(disable_feature_names().take(feats@.len() as int) =~= disable_feature_names());
    join_vecs(&out, ',')
}

/// A piece the merge can emit: non-empty, its own trim, free of commas.
pub open spec fn clean_piece(p: Seq<char>) -> bool {
    p.len() > 0 && trim(p) == p && !p.contains(',')
}

proof fn lemma_clean_pieces_clean(ps: Seq<Seq<char>>)
    requires
        forall|i: int| 0 <= i < ps.len() ==> !(#[trigger] ps[i]).contains(','),
    ensures
        forall|i: int|
            0 <= i < clean_pieces(ps).len() ==> clean_piece(#[trigger] clean_pieces(ps)[i]),
    decreases ps.len(),
{
    if ps.len() > 0 {
        let init = ps.drop_last();
        assert forall|i: int| 0 <= i < init.len() implies !(#[trigger] init[i]).contains(',') by {
            assert(init[i] == ps[i]);
        }
        lemma_clean_pieces_clean(init);
        lemma_trim_facts(ps.last());
        assert(!ps[ps.len() - 1].contains(','));
        let t = trim(ps.last());
        let rest = clean_pieces(init);
        assert(!t.contains(','));
        if t.len() > 0 {
            assert(clean_piece(t));
            assert forall|i: int| 0 <= i < clean_pieces(ps).len() implies clean_piece(
                #[trigger] clean_pieces(ps)[i],
            ) by {
                if i < rest.len() {
                    assert(clean_pieces(ps)[i] == rest[i]);
                } else {
                    assert(clean_pieces(ps)[i] == t);
                }
            }
        }
    }
}

proof fn lemma_clean_pieces_fixed(ps: Seq<Seq<char>>)
    requires
        forall|i: int| 0 <= i < ps.len() ==> clean_piece(#[trigger] ps[i]),
    ensures
        clean_pieces(ps) == ps,
    decreases ps.len(),
{
    if ps.len() > 0 {
        let init = ps.drop_last();
        assert forall|i: int| 0 <= i < init.len() implies clean_piece(#[trigger] init[i]) by {
            assert(init[i] == ps[i]);
        }
        lemma_clean_pieces_fixed(init);
        assert(clean_piece(ps[ps.len() - 1]));
        assert(init.push(ps.last()) =~= ps);
    }
}

proof fn lemma_feature_names_clean()
    ensures
        forall|i: int|
            0 <= i < disable_feature_names().len() ==> clean_piece(
                #[trigger] disable_feature_names()[i],
            ),
{
    reveal_strlit("OptimizationHints");
    let f = "OptimizationHints"@;
    assert(crate::text::trim_start(f) == f);
    assert(crate::text::trim_end(f) == f);
    assert(!f.contains(',')) by {
        if f.contains(',') {
            let k = choose|k: int| 0 <= k < f.len() && f[k] == ',';
            assert(f[k] != ',');
        }
    }
}

proof fn lemma_add_missing(o: Seq<Seq<char>>, fs: Seq<Seq<char>>)
    requires
        forall|i: int| 0 <= i < o.len() ==> clean_piece(#[trigger] o[i]),
        forall|i: int| 0 <= i < fs.len() ==> clean_piece(#[trigger] fs[i]),
    ensures
        forall|i: int|
            0 <= i < add_missing(o, fs).len() ==> clean_piece(#[trigger] add_missing(o, fs)[i]),
        forall|i: int| 0 <= i < fs.len() ==> add_missing(o, fs).contains(#[trigger] fs[i]),
        add_missing(o, fs).len() >= o.len(),
        (forall|i: int| 0 <= i < fs.len() ==> o.contains(#[trigger] fs[i])) ==> add_missing(o, fs)
            == o,
    decreases fs.len(),
{
    if fs.len() > 0 {
        let init = fs.drop_last();
        assert forall|i: int| 0 <= i < init.len() implies clean_piece(#[trigger] init[i]) by {
            assert(init[i] == fs[i]);
        }
        lemma_add_missing(o, init);
        let a = add_missing(o, init);
        assert(clean_piece(fs[fs.len() - 1]));
        assert forall|i: int| 0 <= i < fs.len() implies add_missing(o, fs).contains(
            #[trigger] fs[i],
        ) by {
            if i < fs.len() - 1 {
                assert(init[i] == fs[i]);
                assert(a.contains(init[i]));
                if !a.contains(fs.last()) {
                    let k = choose|k: int| 0 <= k < a.len() && a[k] == init[i];
                    assert(a.push(fs.last())[k] == fs[i]);
                }
            } else {
                if !a.contains(fs.last()) {
                    assert(a.push(fs.last())[a.len() as int] == fs.last());
                }
            }
        }
        if forall|i: int| 0 <= i < fs.len() ==> o.contains(#[trigger] fs[i]) {
            assert forall|i: int| 0 <= i < init.len() implies o.contains(#[trigger] init[i]) by {
                assert(init[i] == fs[i]);
            }
            assert(o.contains(fs[fs.len() - 1]));
        }
    }
}

/// Merging is idempotent: merging an already merged value changes nothing.
/// And the merged value is never empty, since our own features are always
/// added.
pub proof fn law_merge_is_idempotent(existing: Seq<char>)
    ensures
        merged_features(merged_features(existing)) == merged_features(existing),
        merged_features(existing).len() > 0,
{
    let ps = split_char(existing, ',');
    lemma_split_pieces_free(existing, ',');
    lemma_clean_pieces_clean(ps);
    lemma_feature_names_clean();
    let m = add_missing(clean_pieces(ps), disable_feature_names());
    lemma_add_missing(clean_pieces(ps), disable_feature_names());
    assert(m.len() >= 1) by {
        assert(m.contains(disable_feature_names()[0]));
    }
    assert forall|i: int| 0 <= i < m.len() implies !(#[trigger] m[i]).contains(',') by {
        assert(clean_piece(m[i]));
    }
    assert(clean_piece(m[0]));
    assert(join_with(m, ',').len() >= m[0].len());
    lemma_split_join(m, ',');
    lemma_clean_pieces_fixed(m);
    lemma_add_missing(m, disable_feature_names());
}

} // verus!
