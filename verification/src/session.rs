//! Session workspace persistence and restore planning.
//!
//! A saved session is the ordered slot list (URL, width, which was active).
//! Internal, blank and empty slots persist with an empty URL; only real web
//! pages carry a URL across a restart. A "Quit & Save" is restored exactly
//! once: the next launch consumes it, and a plain quit saves nothing.

use vstd::prelude::*;
use crate::store::SessionSlot;

verus! {

broadcast use vstd::string::group_string_axioms;

/// The URL a slot persists into the session: its page when recordable, else
/// the empty string.
pub fn persist_url(url: &str) -> (s: String)
    ensures
        s@ == if crate::memory::recordable(url@) {
            url@
        } else {
            Seq::<char>::empty()
        },
{
    if crate::memory::is_recordable(url) {
        String::from_str(url)
    } else {
        String::new()
    }
}

/// One displayed slot in a restore plan: its width and its pre-armed URL
/// (`None` for an empty slot).
#[derive(Debug, Clone, PartialEq)]
pub struct PlannedSlot {
    pub width_units: u32,
    pub url: Option<String>,
}

/// The plan for restoring a saved session at startup.
#[derive(Debug, Clone)]
pub struct RestorePlan {
    /// Displayed slots, left to right; the shell assigns id = index.
    pub slots: Vec<PlannedSlot>,
    /// Display index of the slot to make active.
    pub active: usize,
    /// Saved slots that did not fit (kept for a wider restart).
    pub overflow: Vec<SessionSlot>,
}

/// A saved slot's width clamped to one or two units.
pub open spec fn unit_of(s: SessionSlot) -> u32 {
    if s.width_units < 1 {
        1
    } else if s.width_units > 2 {
        2
    } else {
        s.width_units as u32
    }
}

/// What a planned slot shows: its width and its URL (empty for none).
pub open spec fn planned_view(p: PlannedSlot) -> (u32, Option<Seq<char>>) {
    (p.width_units, match p.url {
        Some(u) => Some(u@),
        None => None,
    })
}

/// The slot planned for saved slot `s`.
pub open spec fn planned_for(s: SessionSlot) -> (u32, Option<Seq<char>>) {
    (unit_of(s), if s.url@.len() == 0 {
        None
    } else {
        Some(s.url@)
    })
}

/// Taking saved slots from the left while each fits: the planned slots, the
/// display index of the last placed active slot, the overflow, and the units
/// used. The first slot that does not fit stops the taking (the overflow is
/// then non-empty), and it and every later slot overflow.
pub open spec fn plan_prefix(saved: Seq<SessionSlot>, cap: nat, max_slots: nat) -> (
    Seq<(u32, Option<Seq<char>>)>,
    Option<int>,
    Seq<SessionSlot>,
    nat,
)
    decreases saved.len(),
{
    if saved.len() == 0 {
        (Seq::empty(), None, Seq::empty(), 0)
    } else {
        let (slots, active, overflow, used) = plan_prefix(saved.drop_last(), cap, max_slots);
        let s = saved.last();
        let u = unit_of(s) as nat;
        if overflow.len() == 0 && slots.len() < max_slots && used + u <= cap {
            (
                slots.push(planned_for(s)),
                if s.active {
                    Some(slots.len() as int)
                } else {
                    active
                },
                overflow,
                used + u,
            )
        } else {
            (slots, active, overflow.push(s), used)
        }
    }
}

/// The restore plan for `saved`: at least one slot (an empty one when
/// nothing fits), and an active index inside the plan.
pub open spec fn plan_spec(saved: Seq<SessionSlot>, cap: nat, max_slots: nat) -> (
    Seq<(u32, Option<Seq<char>>)>,
    int,
    Seq<SessionSlot>,
) {
    let (slots, active, overflow, _used) = plan_prefix(saved, cap, max_slots);
    let shown = if slots.len() == 0 {
        seq![(1u32, None)]
    } else {
        slots
    };
    let a = match active {
        Some(i) => i,
        None => 0,
    };
    (shown, if a < shown.len() - 1 {
        a
    } else {
        shown.len() - 1
    }, overflow)
}

/// The units the planned slots take.
pub open spec fn units_total(slots: Seq<(u32, Option<Seq<char>>)>) -> nat
    decreases slots.len(),
{
    if slots.len() == 0 {
        0
    } else {
        units_total(slots.drop_last()) + slots.last().0 as nat
    }
}

/// Restoring never loses a saved slot and never overfills the window: the
/// planned slots are the saved ones from the left and the overflow is exactly
/// the rest, the planned slots take at most `cap` units in all (the units
/// counted are exactly theirs), and there are at most `max_slots` of them.
pub proof fn law_restore_keeps_every_slot(saved: Seq<SessionSlot>, cap: nat, max_slots: nat)
    ensures
        plan_prefix(saved, cap, max_slots).0.len() + plan_prefix(saved, cap, max_slots).2.len()
            == saved.len(),
        plan_prefix(saved, cap, max_slots).2 == saved.subrange(
            plan_prefix(saved, cap, max_slots).0.len() as int,
            saved.len() as int,
        ),
        plan_prefix(saved, cap, max_slots).0 == saved.take(plan_prefix(saved, cap, max_slots).0.len() as int).map_values(
            |x: SessionSlot| planned_for(x),
        ),
        plan_prefix(saved, cap, max_slots).3 == units_total(plan_prefix(saved, cap, max_slots).0),
        plan_prefix(saved, cap, max_slots).3 <= cap,
        plan_prefix(saved, cap, max_slots).0.len() <= max_slots,
        plan_prefix(saved, cap, max_slots).1 matches Some(i) ==> 0 <= i < plan_prefix(
            saved,
            cap,
            max_slots,
        ).0.len(),
    decreases saved.len(),
{
    if saved.len() > 0 {
        law_restore_keeps_every_slot(saved.drop_last(), cap, max_slots);
        let (slots, _a, o, _u) = plan_prefix(saved.drop_last(), cap, max_slots);
        let s = saved.last();
        let k = slots.len() as int;
        let n = saved.len() as int;
        assert(slots.push(planned_for(s)).drop_last() =~= slots);
        assert(saved.drop_last().subrange(k, n - 1).push(s) =~= saved.subrange(k, n));
        assert(saved.subrange(n, n) =~= Seq::<SessionSlot>::empty());
        assert(saved.drop_last().take(k) =~= saved.take(k));
        if o.len() == 0 {
            assert(k == n - 1);
            assert(saved.take(k + 1).map_values(|x: SessionSlot| planned_for(x)) =~= slots.push(planned_for(s)));
        }
    }
}

/// Plan how a saved session fits the current width: slots are taken from the
/// left while the running unit total stays within `cap` and the count within
/// `max_slots`; the rest overflow. When nothing fits, one empty slot is
/// planned so the shell always has a column.
pub fn plan_restore(saved: &[SessionSlot], cap: u32, max_slots: usize) -> (plan: RestorePlan)
    ensures
        plan.slots@.map_values(|p: PlannedSlot| planned_view(p)) == plan_spec(
            saved@,
            cap as nat,
            max_slots as nat,
        ).0,
        plan.active == plan_spec(saved@, cap as nat, max_slots as nat).1,
        plan.overflow@ == plan_spec(saved@, cap as nat, max_slots as nat).2,
        plan.slots@.len() >= 1,
        plan.active < plan.slots@.len(),
{
    let mut slots: Vec<PlannedSlot> = Vec::new();
    let mut overflow: Vec<SessionSlot> = Vec::new();
    let mut used: u32 = 0;
    let mut active: Option<usize> = None;
    let mut i: usize = 0;
    while i < saved.len()
        invariant
            i <= saved@.len(),
            ({
                let st = plan_prefix(saved@.take(i as int), cap as nat, max_slots as nat);
                &&& slots@.map_values(|p: PlannedSlot| planned_view(p)) == st.0
                &&& (match active {
                    Some(a) => st.1 == Some(a as int),
                    None => st.1 is None,
                })
                &&& overflow@ == st.2
                &&& used == st.3
            }),
        decreases saved.len() - i,
    {
        proof {
            assert(saved@.take(i + 1).drop_last() =~= saved@.take(i as int));
            law_restore_keeps_every_slot(saved@.take(i as int), cap as nat, max_slots as nat);
        }
        let s = &saved[i];
        let u: u32 = if s.width_units < 1 {
            1
        } else if s.width_units > 2 {
            2
        } else {
            s.width_units as u32
        };
        if overflow.len() == 0 && slots.len() < max_slots && (used as u64) + (u as u64) <= (cap as u64) {
            if s.active {
                active = Some(slots.len());
            }
            let url = if s.url.unicode_len() == 0 {
                None
            } else {
                Some(s.url.clone())
            };
            let ghost prev = slots@.map_values(|p: PlannedSlot| planned_view(p));
            let p = PlannedSlot { width_units: u, url };
            assert(planned_view(p) == planned_for(saved@[i as int]));
            slots.push(p);
            assert(slots@.map_values(|p: PlannedSlot| planned_view(p)) =~= prev.push(
                planned_for(saved@[i as int]),
            ));
            used = used + u;
        } else {
            overflow.push(s.duplicate());
        }
        i = i + 1;
    }
    assert(saved@.take(saved@.len() as int) =~= saved@);
    proof {
        law_restore_keeps_every_slot(saved@, cap as nat, max_slots as nat);
    }
    if slots.len() == 0 {
        slots.push(PlannedSlot { width_units: 1, url: None });
        assert(slots@.map_values(|p: PlannedSlot| planned_view(p)) =~= seq![(1u32, None)]);
    }
    let a = match active {
        Some(a) => a,
        None => 0,
    };
    let last = slots.len() - 1;
    let active = if a < last {
        a
    } else {
        last
    };
    RestorePlan { slots, active, overflow }
}

/// What the state store holds for "Quit & Save": the restore flag and the
/// saved slot rows.
pub struct SavedSession {
    pub flag: bool,
    pub rows: Vec<SessionSlot>,
}

impl SavedSession {
    /// The flag and the rows.
    pub open spec fn state(&self) -> (bool, Seq<SessionSlot>) {
        (self.flag, self.rows@)
    }
}

/// The store after saving `slots` from `st`: the flag is cleared first and
/// set again only when the rows committed (`committed`); rows that failed to
/// commit leave the previous rows in place.
pub open spec fn after_save(st: (bool, Seq<SessionSlot>), slots: Seq<SessionSlot>, committed: bool) -> (bool, Seq<SessionSlot>) {
    if committed { (true, slots) } else { (false, st.1) }
}

/// Taking the saved session from `st`: with the flag set, the flag and the
/// rows are consumed and the rows returned (none when there were none);
/// without it nothing changes and nothing is returned.
pub open spec fn after_take(st: (bool, Seq<SessionSlot>)) -> ((bool, Seq<SessionSlot>), Option<Seq<SessionSlot>>) {
    if st.0 {
        ((false, Seq::empty()), if st.1.len() > 0 { Some(st.1) } else { None })
    } else {
        (st, None)
    }
}

/// Record a "Quit & Save" of `slots` in `store`, given whether the rows
/// committed.
pub fn save(store: &mut SavedSession, slots: &Vec<SessionSlot>, committed: bool)
    ensures
        final(store).state() == after_save(old(store).state(), slots@, committed),
{
    store.flag = false;
    if committed {
        let mut rows: Vec<SessionSlot> = Vec::new();
        let mut i: usize = 0;
        while i < slots.len()
            invariant
                i <= slots.len(),
                rows@ == slots@.take(i as int),
            decreases slots.len() - i,
        {
            rows.push(slots[i].duplicate());
            assert(rows@ =~= slots@.take(i + 1));
            i = i + 1;
        }
        assert(slots@.take(slots.len() as int) =~= slots@);
        store.rows = rows;
        store.flag = true;
    }
}

/// Take the saved session from `store` once (see [`after_take`]).
pub fn take_saved_session(store: &mut SavedSession) -> (r: Option<Vec<SessionSlot>>)
    ensures
        final(store).state() == after_take(old(store).state()).0,
        match after_take(old(store).state()).1 {
            Some(rows) => r matches Some(v) && v@ == rows,
            None => r is None,
        },
{
    if !store.flag {
        return None;
    }
    store.flag = false;
    let mut rows: Vec<SessionSlot> = Vec::new();
    std::mem::swap(&mut rows, &mut store.rows);
    if rows.len() == 0 {
        None
    } else {
        Some(rows)
    }
}

/// A "Quit & Save" is restored exactly once: after the rows commit, the next
/// take returns them (nothing when the session was empty), and any take
/// after that returns nothing. A save whose rows failed to commit restores
/// nothing.
pub proof fn law_quit_and_save_restores_once(st: (bool, Seq<SessionSlot>), slots: Seq<SessionSlot>, committed: bool)
    ensures
        committed ==> after_take(after_save(st, slots, committed)).1 == (if slots.len() > 0 {
            Some(slots)
        } else {
            None
        }),
        !committed ==> after_take(after_save(st, slots, committed)).1 is None,
        after_take(after_take(after_save(st, slots, committed)).0).1 is None,
{
}

} // verus!
