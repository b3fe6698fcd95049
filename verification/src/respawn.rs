//! Which windows respawn after hardening or reported-screen changes.
//!
//! A per-window change respawns that window; a global change respawns only
//! the windows that inherit the global setting (a window with its own
//! override keeps it). Hardening and screen inheritance are tracked apart,
//! and a window is respawned at most once per pass even when both changed.

use vstd::prelude::*;

verus! {

/// `s` without repeats, each id kept where it first occurs.
pub open spec fn first_occurrences(s: Seq<usize>) -> Seq<usize>
    decreases s.len(),
{
    if s.len() == 0 {
        Seq::empty()
    } else {
        let kept = first_occurrences(s.drop_last());
        if kept.contains(s.last()) {
            kept
        } else {
            kept.push(s.last())
        }
    }
}

/// The windows of `order` whose flag in `inherits` (by position) is set, in
/// display order.
pub open spec fn inheriting(order: Seq<usize>, inherits: Seq<bool>) -> Seq<usize>
    decreases order.len(),
{
    if order.len() == 0 {
        Seq::empty()
    } else {
        let rest = inheriting(order.drop_last(), inherits);
        if inherits[order.len() - 1] {
            rest.push(order.last())
        } else {
            rest
        }
    }
}

/// No id occurs twice.
pub open spec fn no_repeats(s: Seq<usize>) -> bool {
    forall|i: int, j: int| 0 <= i < j < s.len() ==> s[i] != s[j]
}

/// The changes queued since the last pass.
pub struct PendingChanges {
    /// Windows whose own hardening override changed.
    pub slot_hardening: Vec<usize>,
    /// Windows whose own reported-screen override changed.
    pub slot_screen: Vec<usize>,
    /// The global hardening preset changed.
    pub global_hardening: bool,
    /// The global reported-screen preset changed.
    pub global_screen: bool,
}

/// The open windows with, by display position, whether each inherits the
/// global hardening preset and the global reported screen.
pub struct Inheritance {
    pub order: Vec<usize>,
    pub inherits_hardening: Vec<bool>,
    pub inherits_screen: Vec<bool>,
}

impl Inheritance {
    /// One flag per open window in each list.
    pub open spec fn wf(&self) -> bool {
        &&& self.inherits_hardening@.len() == self.order@.len()
        &&& self.inherits_screen@.len() == self.order@.len()
    }
}

/// The windows marked for respawn, in the order they are marked: the
/// per-window hardening changes, the per-window screen changes, then the
/// inheriting windows of each changed global preset.
pub open spec fn marked(p: PendingChanges, w: Inheritance) -> Seq<usize> {
    p.slot_hardening@ + p.slot_screen@
        + (if p.global_hardening { inheriting(w.order@, w.inherits_hardening@) } else { Seq::empty() })
        + (if p.global_screen { inheriting(w.order@, w.inherits_screen@) } else { Seq::empty() })
}

/// Whether window `x` sits at some position of `order` whose flag is set.
pub open spec fn inherits_at(order: Seq<usize>, inherits: Seq<bool>, x: usize) -> bool {
    exists|q: int| 0 <= q < order.len() && order[q] == x && #[trigger] inherits[q]
}

proof fn lemma_first_occurrences(s: Seq<usize>)
    ensures
        no_repeats(first_occurrences(s)),
        forall|x: usize| first_occurrences(s).contains(x) <==> s.contains(x),
    decreases s.len(),
{
    if s.len() > 0 {
        lemma_first_occurrences(s.drop_last());
        assert forall|x: usize| s.contains(x) <== s.drop_last().contains(x) || x == s.last() by {
            if s.drop_last().contains(x) {
                let i = choose|i: int| 0 <= i < s.drop_last().len() && s.drop_last()[i] == x;
                assert(s[i] == x);
            }
            if x == s.last() {
                assert(s[s.len() - 1] == x);
            }
        }
        assert forall|x: usize| s.contains(x) implies s.drop_last().contains(x) || x == s.last() by {
            let i = choose|i: int| 0 <= i < s.len() && s[i] == x;
            if i < s.len() - 1 {
                assert(s.drop_last()[i] == x);
            }
        }
        let kept = first_occurrences(s.drop_last());
        let l = s.last();
        assert forall|x: usize| first_occurrences(s).contains(x) <==> s.contains(x) by {
            if !kept.contains(l) {
                assert(first_occurrences(s) == kept.push(l));
                if kept.contains(x) {
                    let i = choose|i: int| 0 <= i < kept.len() && kept[i] == x;
                    assert(kept.push(l)[i] == x);
                }
                if x == l {
                    assert(kept.push(l)[kept.len() as int] == x);
                }
                if kept.push(l).contains(x) && x != l {
                    let i = choose|i: int| 0 <= i < kept.push(l).len() && kept.push(l)[i] == x;
                    assert(kept[i] == x);
                }
            }
        }
    }
}

proof fn lemma_inheriting(order: Seq<usize>, inherits: Seq<bool>)
    requires
        inherits.len() >= order.len(),
    ensures
        forall|x: usize| inheriting(order, inherits).contains(x) <==> inherits_at(order, inherits, x),
    decreases order.len(),
{
    if order.len() > 0 {
        let o = order.drop_last();
        lemma_inheriting(o, inherits);
        let last = order.len() - 1;
        assert forall|x: usize| inheriting(order, inherits).contains(x) <==> inherits_at(order, inherits, x) by {
            if inherits_at(o, inherits, x) {
                let q = choose|q: int| 0 <= q < o.len() && o[q] == x && #[trigger] inherits[q];
                assert(order[q] == x);
            }
            if inherits_at(order, inherits, x) {
                let q = choose|q: int| 0 <= q < order.len() && order[q] == x && #[trigger] inherits[q];
                if q < last {
                    assert(o[q] == x);
                    assert(inherits_at(o, inherits, x));
                }
            }
            if inherits[last] {
                assert(inheriting(order, inherits) == inheriting(o, inherits).push(order.last()));
                if x == order.last() {
                    assert(inheriting(order, inherits)[inheriting(o, inherits).len() as int] == x);
                }
                if inheriting(o, inherits).contains(x) {
                    let i = choose|i: int| 0 <= i < inheriting(o, inherits).len() && inheriting(o, inherits)[i] == x;
                    assert(inheriting(order, inherits)[i] == x);
                }
                if inheriting(order, inherits).contains(x) && x != order.last() {
                    let i = choose|i: int| 0 <= i < inheriting(order, inherits).len() && inheriting(order, inherits)[i] == x;
                    assert(inheriting(o, inherits)[i] == x);
                }
            }
        }
    }
}

/// Append `id` unless it is already there.
fn mark(r: &mut Vec<usize>, id: usize)
    ensures
        final(r)@ == (if old(r)@.contains(id) { old(r)@ } else { old(r)@.push(id) }),
{
    let mut i: usize = 0;
    while i < r.len()
        invariant
            i <= r.len(),
            r@ == old(r)@,
            forall|j: int| 0 <= j < i ==> r@[j] != id,
        decreases r.len() - i,
    {
        if r[i] == id {
            assert(r@[i as int] == id);
            return;
        }
        i = i + 1;
    }
    r.push(id);
}

/// Mark each of `ids`, in order.
fn mark_all(r: &mut Vec<usize>, ids: &Vec<usize>, Ghost(done): Ghost<Seq<usize>>)
    requires
        old(r)@ == first_occurrences(done),
    ensures
        final(r)@ == first_occurrences(done + ids@),
{
    let mut i: usize = 0;
    while i < ids.len()
        invariant
            i <= ids.len(),
            r@ == first_occurrences(done + ids@.take(i as int)),
        decreases ids.len() - i,
    {
        let id = ids[i];
        proof {
            let before = done + ids@.take(i as int);
            let after = done + ids@.take(i + 1);
            assert(after.drop_last() =~= before);
            assert(after.last() == id);
        }
        mark(r, id);
        i = i + 1;
    }
    assert(done + ids@.take(ids.len() as int) =~= done + ids@);
}

/// Mark each window of `order` whose flag is set, in display order.
fn mark_inheriting(r: &mut Vec<usize>, order: &Vec<usize>, inherits: &Vec<bool>, Ghost(done): Ghost<Seq<usize>>)
    requires
        old(r)@ == first_occurrences(done),
        inherits@.len() == order@.len(),
    ensures
        final(r)@ == first_occurrences(done + inheriting(order@, inherits@)),
{
    let mut k: usize = 0;
    while k < order.len()
        invariant
            k <= order.len(),
            inherits@.len() == order@.len(),
            r@ == first_occurrences(done + inheriting(order@.take(k as int), inherits@)),
        decreases order.len() - k,
    {
        proof {
            let o = order@.take(k + 1);
            assert(o.drop_last() =~= order@.take(k as int));
            assert(o.last() == order@[k as int]);
        }
        if inherits[k] {
            let id = order[k];
            proof {
                let before = done + inheriting(order@.take(k as int), inherits@);
                let after = done + inheriting(order@.take(k + 1), inherits@);
                assert(after =~= before.push(id));
                assert(after.drop_last() =~= before);
            }
            mark(r, id);
        } else {
            proof {
                assert(done + inheriting(order@.take(k + 1), inherits@) =~= done + inheriting(order@.take(k as int), inherits@));
            }
        }
        k = k + 1;
    }
    assert(order@.take(order.len() as int) =~= order@);
}

/// The windows to respawn this pass, each once, in the order they were
/// marked; a window is listed exactly when its own override changed or a
/// global preset it inherits changed.
pub fn respawn_list(p: &PendingChanges, w: &Inheritance) -> (r: Vec<usize>)
    requires
        w.wf(),
    ensures
        r@ == first_occurrences(marked(*p, *w)),
        no_repeats(r@),
        forall|x: usize| #[trigger] r@.contains(x) <==> {
            ||| p.slot_hardening@.contains(x)
            ||| p.slot_screen@.contains(x)
            ||| p.global_hardening && inherits_at(w.order@, w.inherits_hardening@, x)
            ||| p.global_screen && inherits_at(w.order@, w.inherits_screen@, x)
        },
{
    let mut r: Vec<usize> = Vec::new();
    let ghost d0: Seq<usize> = Seq::empty();
    assert(r@ == first_occurrences(d0));
    mark_all(&mut r, &p.slot_hardening, Ghost(d0));
    let ghost d1 = d0 + p.slot_hardening@;
    mark_all(&mut r, &p.slot_screen, Ghost(d1));
    let ghost d2 = d1 + p.slot_screen@;
    let ghost gh = if p.global_hardening { inheriting(w.order@, w.inherits_hardening@) } else { Seq::empty() };
    if p.global_hardening {
        mark_inheriting(&mut r, &w.order, &w.inherits_hardening, Ghost(d2));
    } else {
        assert(d2 + gh =~= d2);
    }
    let ghost d3 = d2 + gh;
    let ghost gs = if p.global_screen { inheriting(w.order@, w.inherits_screen@) } else { Seq::empty() };
    if p.global_screen {
        mark_inheriting(&mut r, &w.order, &w.inherits_screen, Ghost(d3));
    } else {
        assert(d3 + gs =~= d3);
    }
    proof {
        assert(d3 + gs =~= marked(*p, *w));
        let m = marked(*p, *w);
        lemma_first_occurrences(m);
        lemma_inheriting(w.order@, w.inherits_hardening@);
        lemma_inheriting(w.order@, w.inherits_screen@);
        assert forall|x: usize| m.contains(x) <==> {
            ||| p.slot_hardening@.contains(x)
            ||| p.slot_screen@.contains(x)
            ||| p.global_hardening && inherits_at(w.order@, w.inherits_hardening@, x)
            ||| p.global_screen && inherits_at(w.order@, w.inherits_screen@, x)
        } by {
            lemma_concat_contains(p.slot_hardening@ + p.slot_screen@ + gh, gs, x);
            lemma_concat_contains(p.slot_hardening@ + p.slot_screen@, gh, x);
            lemma_concat_contains(p.slot_hardening@, p.slot_screen@, x);
            assert(inheriting(w.order@, w.inherits_hardening@).contains(x)
                <==> inherits_at(w.order@, w.inherits_hardening@, x));
            assert(inheriting(w.order@, w.inherits_screen@).contains(x)
                <==> inherits_at(w.order@, w.inherits_screen@, x));
            assert(!Seq::<usize>::empty().contains(x));
        }
        assert forall|x: usize| #[trigger] r@.contains(x) <==> m.contains(x) by {}
    }
    r
}

proof fn lemma_concat_contains(a: Seq<usize>, b: Seq<usize>, x: usize)
    ensures
        (a + b).contains(x) <==> a.contains(x) || b.contains(x),
{
    if a.contains(x) {
        let i = choose|i: int| 0 <= i < a.len() && a[i] == x;
        assert((a + b)[i] == x);
    }
    if b.contains(x) {
        let i = choose|i: int| 0 <= i < b.len() && b[i] == x;
        assert((a + b)[a.len() + i] == x);
    }
    if (a + b).contains(x) {
        let i = choose|i: int| 0 <= i < (a + b).len() && (a + b)[i] == x;
        if i < a.len() {
            assert(a[i] == x);
        } else {
            assert(b[i - a.len()] == x);
        }
    }
}

/// A window is respawned at most once per pass, however many of its
/// settings changed.
pub proof fn law_respawn_each_window_once(p: PendingChanges, w: Inheritance)
    ensures
        no_repeats(first_occurrences(marked(p, w))),
{
    lemma_first_occurrences(marked(p, w));
}

/// A global change alone never respawns a window that overrides it: a
/// window respawned without a change of its own inherits a global preset
/// that changed.
pub proof fn law_global_change_spares_overriders(p: PendingChanges, w: Inheritance, x: usize)
    requires
        w.wf(),
        first_occurrences(marked(p, w)).contains(x),
        !p.slot_hardening@.contains(x),
        !p.slot_screen@.contains(x),
    ensures
        (p.global_hardening && inherits_at(w.order@, w.inherits_hardening@, x))
            || (p.global_screen && inherits_at(w.order@, w.inherits_screen@, x)),
{
    let gh = if p.global_hardening { inheriting(w.order@, w.inherits_hardening@) } else { Seq::empty() };
    let gs = if p.global_screen { inheriting(w.order@, w.inherits_screen@) } else { Seq::empty() };
    lemma_first_occurrences(marked(p, w));
    lemma_inheriting(w.order@, w.inherits_hardening@);
    lemma_inheriting(w.order@, w.inherits_screen@);
    lemma_concat_contains(p.slot_hardening@ + p.slot_screen@ + gh, gs, x);
    lemma_concat_contains(p.slot_hardening@ + p.slot_screen@, gh, x);
    lemma_concat_contains(p.slot_hardening@, p.slot_screen@, x);
}

} // verus!
