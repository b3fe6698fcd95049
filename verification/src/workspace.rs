//! The shell's slot workspace: which windows are open, in which display
//! order, which one is active, and how wide each is, with the keyboard and
//! mouse operations that change them (add, insert, close, cycle, swap,
//! resize, reflow) and the rows a "Quit & Save" persists.
//!
//! Every operation keeps the workspace well formed: at least one window, at
//! most [`MAX_SLOTS`], no id twice, the active window among the open ones,
//! and every width one or two units.

use vstd::prelude::*;
use crate::slots::{cycle_position, free_id, insert_position, neighbor_position, MAX_SLOTS};
use crate::store::SessionSlot;
use crate::memory::{is_recordable, recordable};

verus! {

broadcast use vstd::string::group_string_axioms;

/// The total width, in units, of the windows `order` under `widths`.
pub open spec fn units(order: Seq<usize>, widths: Seq<u32>) -> nat
    decreases order.len(),
{
    if order.len() == 0 {
        0
    } else {
        units(order.drop_last(), widths) + widths[order.last() as int] as nat
    }
}

/// The open windows.
pub struct Workspace {
    order: Vec<usize>,
    active: usize,
    widths: Vec<u32>,
}

impl Workspace {
    /// The open window ids, in display order.
    pub closed spec fn order(&self) -> Seq<usize> {
        self.order@
    }

    /// The active window's id.
    pub closed spec fn active(&self) -> usize {
        self.active
    }

    /// The width, in units, of window `id`.
    pub closed spec fn width(&self, id: int) -> u32 {
        self.widths@[id]
    }

    /// The widths of every window id.
    pub closed spec fn widths(&self) -> Seq<u32> {
        self.widths@
    }

    /// The well-formedness invariant.
    pub closed spec fn wf(&self) -> bool {
        &&& 1 <= self.order@.len() <= MAX_SLOTS
        &&& forall|i: int| 0 <= i < self.order@.len() ==> (#[trigger] self.order@[i]) < MAX_SLOTS
        &&& self.order@.no_duplicates()
        &&& self.order@.contains(self.active)
        &&& self.widths@.len() == MAX_SLOTS
        &&& forall|id: int| 0 <= id < MAX_SLOTS ==> 1 <= #[trigger] self.widths@[id] <= 2
    }

    /// The total width of the open windows, in units.
    pub open spec fn total(&self) -> nat {
        units(self.order(), self.widths())
    }

    /// `after` is this workspace with window `id`, the lowest free id, opened
    /// one unit wide and active at display position `pos` (clamped to the end).
    pub open spec fn opened_at(&self, after: Workspace, pos: int, id: usize) -> bool {
        &&& id < MAX_SLOTS
        &&& !self.order().contains(id)
        &&& forall|j: usize| j < id ==> #[trigger] self.order().contains(j)
        &&& after.order() == self.order().insert(
            if pos < self.order().len() { pos } else { self.order().len() as int },
            id,
        )
        &&& after.active() == id
        &&& after.widths() == self.widths().update(id as int, 1u32)
    }

    /// Closing the window at display position `pos` turns this workspace
    /// into `after` and returns `r`: nothing happens for the last window or a
    /// position past the end; otherwise the window goes, reset to one unit,
    /// and if it was active its right neighbour (else its left) takes over.
    pub open spec fn closes_at(&self, after: Workspace, pos: int, r: Option<usize>) -> bool {
        if self.order().len() <= 1 || pos < 0 || pos >= self.order().len() {
            r is None && after == *self
        } else {
            let id = self.order()[pos];
            let rest = self.order().remove(pos);
            &&& r == Some(id)
            &&& after.order() == rest
            &&& after.widths() == self.widths().update(id as int, 1u32)
            &&& after.active() == (if id == self.active() {
                rest[if pos < rest.len() { pos } else { rest.len() - 1 }]
            } else {
                self.active()
            })
        }
    }

    /// There is room for one more window: fewer than `slot_max` open, and
    /// fewer units than `capacity` in use.
    pub open spec fn room(&self, slot_max: int, capacity: int) -> bool {
        self.order().len() < slot_max && self.total() < capacity
    }

    /// The display position of the active window.
    pub open spec fn active_pos(&self) -> int {
        position_of(self.order(), self.active())
    }

    /// A workspace with the first window open, active, one unit wide.
    pub fn new() -> (w: Workspace)
        ensures
            w.wf(),
            w.order() == seq![0usize],
            w.active() == 0,
            forall|id: int| 0 <= id < MAX_SLOTS ==> #[trigger] w.width(id) == 1,
    {
        let mut order: Vec<usize> = Vec::new();
        order.push(0);
        let widths: Vec<u32> = vec![1, 1, 1, 1];
        let w = Workspace { order, active: 0, widths };
        assert(w.order@[0] == 0);
        w
    }

    /// The open window ids, in display order.
    pub fn order_ids(&self) -> (v: Vec<usize>)
        ensures
            v@ == self.order(),
    {
        self.order.clone()
    }

    /// The active window's id.
    pub fn active_slot(&self) -> (id: usize)
        ensures
            id == self.active(),
            self.wf() ==> id < MAX_SLOTS,
    {
        proof {
            if self.wf() {
                let i = choose|i: int| 0 <= i < self.order@.len() && self.order@[i] == self.active;
                assert(self.order@[i] < MAX_SLOTS);
            }
        }
        self.active
    }

    /// The width of window `id`, in units.
    pub fn width_units(&self, id: usize) -> (u: u32)
        requires
            self.wf(),
            id < MAX_SLOTS,
        ensures
            u == self.width(id as int),
    {
        self.widths[id]
    }

    /// The total width of the open windows, in units.
    pub fn total_units(&self) -> (t: u32)
        requires
            self.wf(),
        ensures
            t == self.total(),
    {
        let mut t: u32 = 0;
        let mut i: usize = 0;
        while i < self.order.len()
            invariant
                self.wf(),
                i <= self.order@.len(),
                t == units(self.order@.take(i as int), self.widths@),
                t <= 2 * i,
            decreases self.order.len() - i,
        {
            assert(self.order@.take(i + 1).drop_last() =~= self.order@.take(i as int));
            assert(self.order@.take(i + 1).last() == self.order@[i as int]);
            let id = self.order[i];
            t = t + self.widths[id];
            i = i + 1;
        }
        assert(self.order@.take(self.order@.len() as int) =~= self.order@);
        t
    }

    /// The display position of the active window.
    pub fn active_position(&self) -> (p: usize)
        requires
            self.wf(),
        ensures
            p == self.active_pos(),
            p < self.order().len(),
            self.order()[p as int] == self.active(),
    {
        let mut i: usize = 0;
        while i < self.order.len()
            invariant
                self.wf(),
                i <= self.order@.len(),
                forall|k: int| 0 <= k < i ==> self.order@[k] != self.active,
            decreases self.order.len() - i,
        {
            if self.order[i] == self.active {
                assert(position_of(self.order@, self.active) == i) by {
                    lemma_unique_index(self.order@, i as int);
                }
                return i;
            }
            i = i + 1;
        }
        assert(false);
        0
    }

    /// Make `id` the active window; nothing changes when it is not open or
    /// already active. Returns whether the active window changed.
    pub fn set_active(&mut self, id: usize) -> (changed: bool)
        requires
            old(self).wf(),
        ensures
            final(self).wf(),
            changed == (old(self).order().contains(id) && id != old(self).active()),
            final(self).active() == (if changed { id } else { old(self).active() }),
            final(self).order() == old(self).order(),
            final(self).widths() == old(self).widths(),
    {
        if id == self.active || !contains(&self.order, id) {
            return false;
        }
        self.active = id;
        true
    }

    /// Make the window at 1-based display position `pos1` active (no change
    /// when there is none). Returns whether the active window changed.
    pub fn focus_slot_position(&mut self, pos1: usize) -> (changed: bool)
        requires
            old(self).wf(),
        ensures
            final(self).wf(),
            final(self).order() == old(self).order(),
            final(self).widths() == old(self).widths(),
            1 <= pos1 <= old(self).order().len() ==> final(self).active() == old(self).order()[pos1 - 1],
            !(1 <= pos1 <= old(self).order().len()) ==> final(self).active() == old(self).active(),
    {
        if pos1 >= 1 && pos1 <= self.order.len() {
            let id = self.order[pos1 - 1];
            assert(self.order@.contains(id));
            self.set_active(id)
        } else {
            false
        }
    }

    /// Cycle the active window forward or backward through the display
    /// order, wrapping at both ends; a lone window stays active.
    pub fn cycle_active(&mut self, forward: bool)
        requires
            old(self).wf(),
        ensures
            final(self).wf(),
            final(self).order() == old(self).order(),
            final(self).widths() == old(self).widths(),
            old(self).order().len() <= 1 ==> final(self).active() == old(self).active(),
            old(self).order().len() > 1 ==> final(self).active() == old(self).order()[
                if forward {
                    (old(self).active_pos() + 1) % (old(self).order().len() as int)
                } else {
                    (old(self).active_pos() + old(self).order().len() - 1) % (old(self).order().len() as int)
                }
            ],
    {
        if self.order.len() <= 1 {
            return;
        }
        let pos = self.active_position();
        let next = cycle_position(pos, self.order.len(), forward);
        let id = self.order[next];
        assert(self.order@.contains(id));
        assert(id != self.active ==> true);
        if id != self.active {
            self.set_active(id);
        } else {
            proof {
                lemma_unique_index(self.order@, next as int);
            }
        }
    }

    /// Swap the active window with its neighbour on the left (`dir < 0`) or
    /// right (`dir > 0`); nothing changes at the edge. The active window
    /// keeps its id; only the display order changes.
    pub fn swap_active(&mut self, dir: i32)
        requires
            old(self).wf(),
        ensures
            final(self).wf(),
            final(self).active() == old(self).active(),
            final(self).widths() == old(self).widths(),
            ({
                let p = old(self).active_pos();
                let t = p + dir;
                if t < 0 || t >= old(self).order().len() {
                    final(self).order() == old(self).order()
                } else {
                    final(self).order() == old(self).order().update(p, old(self).order()[t]).update(
                        t,
                        old(self).active(),
                    )
                }
            }),
    {
        let pos = self.active_position();
        let target: i64 = pos as i64 + dir as i64;
        if target < 0 || target >= self.order.len() as i64 {
            return;
        }
        let t = target as usize;
        let a = self.order[pos];
        let b = self.order[t];
        let ghost before = self.order@;
        self.order.set(pos, b);
        self.order.set(t, a);
        assert(self.order@ =~= before.update(pos as int, b).update(t as int, a));
        assert forall|i: int, j: int|
            0 <= i < self.order@.len() && 0 <= j < self.order@.len() && i != j implies self.order@[i]
            != self.order@[j] by {
            let si = if i == pos { t as int } else if i == t { pos as int } else { i };
            let sj = if j == pos { t as int } else if j == t { pos as int } else { j };
            assert(self.order@[i] == before[si]);
            assert(self.order@[j] == before[sj]);
        }
        assert(self.order@[t as int] == self.active);
    }
}

/// The first display position of `x` in `s` (0 when absent).
pub open spec fn position_of(s: Seq<usize>, x: usize) -> int {
    match s.index_of_first(x) {
        Some(i) => i,
        None => 0,
    }
}

/// In a sequence without duplicates, an element's position is its index.
proof fn lemma_unique_index(s: Seq<usize>, i: int)
    requires
        s.no_duplicates(),
        0 <= i < s.len(),
    ensures
        position_of(s, s[i]) == i,
{
    s.index_of_first_ensures(s[i]);
    assert(s.contains(s[i]));
}

fn contains(v: &Vec<usize>, x: usize) -> (b: bool)
    ensures
        b == v@.contains(x),
{
    let mut i: usize = 0;
    while i < v.len()
        invariant
            i <= v@.len(),
            forall|k: int| 0 <= k < i ==> v@[k] != x,
        decreases v.len() - i,
    {
        if v[i] == x {
            assert(v@[i as int] == x);
            return true;
        }
        i = i + 1;
    }
    false
}

/// The URL a window persists into a saved session: its page when it is a
/// clearnet web page, else nothing.
pub open spec fn persisted_url(tor: bool, url: Seq<char>) -> Seq<char> {
    if tor || !recordable(url) {
        Seq::<char>::empty()
    } else {
        url
    }
}

/// A saved session never carries a Tor window's URL, nor an internal or
/// blank page: any URL it keeps is a recordable clearnet page.
pub proof fn law_saved_session_keeps_no_private_url(tor: bool, url: Seq<char>)
    ensures
        tor ==> persisted_url(tor, url).len() == 0,
        persisted_url(tor, url).len() > 0 ==> !tor && recordable(persisted_url(tor, url)),
{
}

/// A free id below [`MAX_SLOTS`] means there is room for one more window.
proof fn lemma_free_id_means_room(s: Seq<usize>, v: usize)
    requires
        s.no_duplicates(),
        forall|i: int| 0 <= i < s.len() ==> (#[trigger] s[i]) < MAX_SLOTS,
        v < MAX_SLOTS,
        !s.contains(v),
    ensures
        s.len() < MAX_SLOTS,
{
    if s.len() >= 4 {
        assert(s[0] < 4 && s[1] < 4 && s[2] < 4 && s[3] < 4);
        assert(s[0] != v && s[1] != v && s[2] != v && s[3] != v);
        assert(s[0] != s[1] && s[0] != s[2] && s[0] != s[3]);
        assert(s[1] != s[2] && s[1] != s[3] && s[2] != s[3]);
        assert(false);
    }
}

/// Inserting an id that is not there keeps a sequence free of duplicates.
proof fn lemma_insert_fresh(s: Seq<usize>, p: int, v: usize)
    requires
        s.no_duplicates(),
        0 <= p <= s.len(),
        !s.contains(v),
    ensures
        s.insert(p, v).no_duplicates(),
        s.insert(p, v).contains(v),
        forall|x: usize| s.contains(x) ==> #[trigger] s.insert(p, v).contains(x),
{
    let t = s.insert(p, v);
    assert forall|i: int, j: int| 0 <= i < t.len() && 0 <= j < t.len() && i != j implies t[i] != t[j] by {
        if i != p && j != p {
            let si = if i < p { i } else { i - 1 };
            let sj = if j < p { j } else { j - 1 };
            assert(t[i] == s[si] && t[j] == s[sj]);
        } else if i == p {
            let sj = if j < p { j } else { j - 1 };
            assert(t[j] == s[sj]);
        } else {
            let si = if i < p { i } else { i - 1 };
            assert(t[i] == s[si]);
        }
    }
    assert(t[p] == v);
    assert forall|x: usize| s.contains(x) implies #[trigger] t.contains(x) by {
        let k = choose|k: int| 0 <= k < s.len() && s[k] == x;
        if k < p {
            assert(t[k] == x);
        } else {
            assert(t[k + 1] == x);
        }
    }
}

/// Removing an element keeps a sequence free of duplicates; the removed
/// element is gone and every other stays.
proof fn lemma_remove_keeps(s: Seq<usize>, p: int)
    requires
        s.no_duplicates(),
        0 <= p < s.len(),
    ensures
        s.remove(p).no_duplicates(),
        !s.remove(p).contains(s[p]),
        forall|x: usize| s.contains(x) && x != s[p] ==> #[trigger] s.remove(p).contains(x),
{
    let t = s.remove(p);
    assert forall|i: int, j: int| 0 <= i < t.len() && 0 <= j < t.len() && i != j implies t[i] != t[j] by {
        let si = if i < p { i } else { i + 1 };
        let sj = if j < p { j } else { j + 1 };
        assert(t[i] == s[si] && t[j] == s[sj]);
    }
    if t.contains(s[p]) {
        let k = choose|k: int| 0 <= k < t.len() && t[k] == s[p];
        let sk = if k < p { k } else { k + 1 };
        assert(s[sk] == s[p]);
        assert(false);
    }
    assert forall|x: usize| s.contains(x) && x != s[p] implies #[trigger] t.contains(x) by {
        let k = choose|k: int| 0 <= k < s.len() && s[k] == x;
        if k < p {
            assert(t[k] == x);
        } else {
            assert(k != p);
            assert(t[k - 1] == x);
        }
    }
}

impl Workspace {
    /// The rows a "Quit & Save" persists: each open window's display
    /// position, width, whether it is active, and its Tor mode, with the URL
    /// it shows (`urls`, by window id) kept only for a clearnet web page: a
    /// Tor window's URL and an internal or blank page are stored empty.
    pub fn session_rows(&self, urls: &Vec<String>, tor: &Vec<bool>) -> (rows: Vec<SessionSlot>)
        requires
            self.wf(),
            urls@.len() == MAX_SLOTS,
            tor@.len() == MAX_SLOTS,
        ensures
            rows@.len() == self.order().len(),
            forall|p: int| #![trigger rows@[p]] 0 <= p < rows@.len() ==> {
                let id = self.order()[p];
                &&& rows@[p].position == p
                &&& rows@[p].width_units == self.width(id as int)
                &&& rows@[p].active == (id == self.active())
                &&& rows@[p].tor == tor@[id as int]
                &&& rows@[p].url@ == persisted_url(tor@[id as int], urls@[id as int]@)
            },
    {
        let mut rows: Vec<SessionSlot> = Vec::new();
        let mut p: usize = 0;
        while p < self.order.len()
            invariant
                self.wf(),
                urls@.len() == MAX_SLOTS,
                tor@.len() == MAX_SLOTS,
                p <= self.order@.len(),
                rows@.len() == p,
                forall|q: int| #![trigger rows@[q]] 0 <= q < p ==> {
                    let id = self.order@[q];
                    &&& rows@[q].position == q
                    &&& rows@[q].width_units == self.widths@[id as int]
                    &&& rows@[q].active == (id == self.active)
                    &&& rows@[q].tor == tor@[id as int]
                    &&& rows@[q].url@ == persisted_url(tor@[id as int], urls@[id as int]@)
                },
            decreases self.order.len() - p,
        {
            let id = self.order[p];
            assert(self.order@[p as int] < MAX_SLOTS);
            let t = tor[id];
            let url = if t || !is_recordable(urls[id].as_str()) {
                String::new()
            } else {
                urls[id].clone()
            };
            rows.push(SessionSlot {
                position: p as i64,
                url,
                width_units: self.widths[id] as i64,
                active: id == self.active,
                tor: t,
            });
            p = p + 1;
        }
        rows
    }

    /// Toggle the active window between one and two units wide. Halving
    /// always works; doubling only while the total stays within `capacity`;
    /// a window locked at the Red level keeps its size. Returns whether the
    /// width changed.
    pub fn toggle_active_width(&mut self, capacity: u32, locked: bool) -> (changed: bool)
        requires
            old(self).wf(),
        ensures
            final(self).wf(),
            final(self).order() == old(self).order(),
            final(self).active() == old(self).active(),
            changed == (!locked && (old(self).width(old(self).active() as int) == 2 || old(self).total()
                < capacity)),
            changed ==> final(self).widths() == old(self).widths().update(
                old(self).active() as int,
                if old(self).width(old(self).active() as int) == 2 { 1u32 } else { 2u32 },
            ),
            !changed ==> final(self).widths() == old(self).widths(),
    {
        if locked {
            return false;
        }
        let id = self.active;
        proof {
            let k = choose|k: int| 0 <= k < self.order@.len() && self.order@[k] == id;
            assert(self.order@[k] < MAX_SLOTS);
        }
        if self.widths[id] == 2 {
            self.widths.set(id, 1);
            true
        } else if self.total_units() < capacity {
            self.widths.set(id, 2);
            true
        } else {
            false
        }
    }

    fn insert_fresh(&mut self, pos: usize, id: usize)
        requires
            old(self).wf(),
            pos <= old(self).order().len(),
            id < MAX_SLOTS,
            !old(self).order().contains(id),
        ensures
            final(self).wf(),
            final(self).order() == old(self).order().insert(pos as int, id),
            final(self).active() == id,
            final(self).widths() == old(self).widths().update(id as int, 1u32),
    {
        proof {
            lemma_free_id_means_room(self.order@, id);
            lemma_insert_fresh(self.order@, pos as int, id);
        }
        let ghost before = self.order@;
        self.order.insert(pos, id);
        self.widths.set(id, 1);
        self.active = id;
        assert forall|i: int| 0 <= i < self.order@.len() implies (#[trigger] self.order@[i]) < MAX_SLOTS by {
            if i < pos {
                assert(self.order@[i] == before[i]);
            } else if i > pos {
                assert(self.order@[i] == before[i - 1]);
            }
        }
    }

    /// Add a window right of the active one (Ctrl+T) and make it active:
    /// the lowest free id, one unit wide. Nothing changes when the count is
    /// at `slot_max`, one more unit would exceed `capacity`, or every id is
    /// in use. Returns the new window's id.
    pub fn add_slot(&mut self, slot_max: usize, capacity: u32) -> (r: Option<usize>)
        requires
            old(self).wf(),
        ensures
            final(self).wf(),
            (old(self).order().len() >= slot_max || old(self).total() + 1 > capacity || (forall|j: usize|
                j < MAX_SLOTS ==> #[trigger] old(self).order().contains(j))) <==> r is None,
            r is None ==> *final(self) == *old(self),
            r matches Some(id) ==> id < MAX_SLOTS && !old(self).order().contains(id) && (forall|j: usize|
                j < id ==> #[trigger] old(self).order().contains(j)) && old(self).order().len() < slot_max
                && old(self).total() + 1 <= capacity && final(self).order() == old(self).order().insert(
                old(self).active_pos() + 1,
                id,
            ) && final(self).active() == id && final(self).widths() == old(self).widths().update(
                id as int,
                1u32,
            ),
    {
        if self.order.len() >= slot_max || self.total_units() as u64 + 1 > capacity as u64 {
            return None;
        }
        let free = match free_id(self.order.as_slice()) {
            Some(f) => f,
            None => {
                return None;
            },
        };
        let pos = insert_position(self.order.as_slice(), self.active);
        proof {
            lemma_unique_index(self.order@, pos - 1);
        }
        self.insert_fresh(pos, free);
        Some(free)
    }

    /// Insert a window at display position `pos` (clamped to the end) and
    /// make it active: the lowest free id, one unit wide (a favourite
    /// dropped into a gutter). Nothing changes when every id is in use.
    /// Returns the new window's id.
    pub fn insert_slot_at(&mut self, pos: usize) -> (r: Option<usize>)
        requires
            old(self).wf(),
        ensures
            final(self).wf(),
            (forall|j: usize| j < MAX_SLOTS ==> #[trigger] old(self).order().contains(j)) <==> r is None,
            r is None ==> *final(self) == *old(self),
            r matches Some(id) ==> old(self).opened_at(*final(self), pos as int, id),
    {
        let free = match free_id(self.order.as_slice()) {
            Some(f) => f,
            None => {
                return None;
            },
        };
        let p = if pos < self.order.len() {
            pos
        } else {
            self.order.len()
        };
        self.insert_fresh(p, free);
        Some(free)
    }

    /// Close the window at display position `pos` (Ctrl+W, or its close
    /// icon). The last window refuses to close, as does a position past the
    /// end. A closed active window hands over to its right neighbour, else
    /// its left; closing another window keeps the active one. The closed id
    /// is reset to one unit for its next use. Returns the closed id.
    pub fn close_slot_at(&mut self, pos: usize) -> (r: Option<usize>)
        requires
            old(self).wf(),
        ensures
            final(self).wf(),
            old(self).closes_at(*final(self), pos as int, r),
    {
        if self.order.len() <= 1 || pos >= self.order.len() {
            return None;
        }
        let closed_active = self.order[pos] == self.active;
        proof {
            lemma_remove_keeps(self.order@, pos as int);
        }
        let ghost before = self.order@;
        let id = self.order.remove(pos);
        assert(id < MAX_SLOTS);
        self.widths.set(id, 1);
        assert forall|i: int| 0 <= i < self.order@.len() implies (#[trigger] self.order@[i]) < MAX_SLOTS by {
            if i < pos {
                assert(self.order@[i] == before[i]);
            } else {
                assert(self.order@[i] == before[i + 1]);
            }
        }
        if closed_active {
            let new_pos = neighbor_position(pos, self.order.len());
            self.active = self.order[new_pos];
            assert(self.order@.contains(self.order@[new_pos as int]));
        } else {
            assert(before.contains(self.active));
        }
        Some(id)
    }
}

/// The units of `order` only depend on the widths of the ids in it.
proof fn lemma_units_same(order: Seq<usize>, w1: Seq<u32>, w2: Seq<u32>)
    requires
        forall|i: int| 0 <= i < order.len() ==> w1[#[trigger] order[i] as int] == w2[order[i] as int],
    ensures
        units(order, w1) == units(order, w2),
    decreases order.len(),
{
    if order.len() > 0 {
        assert(order.last() == order[order.len() - 1]);
        lemma_units_same(order.drop_last(), w1, w2);
    }
}

fn sum_units(order: &Vec<usize>, widths: &Vec<u32>) -> (t: u32)
    requires
        order@.len() <= MAX_SLOTS,
        forall|i: int| 0 <= i < order@.len() ==> (#[trigger] order@[i]) < widths@.len(),
        forall|id: int| 0 <= id < widths@.len() ==> #[trigger] widths@[id] <= 2,
    ensures
        t == units(order@, widths@),
{
    let mut t: u32 = 0;
    let mut i: usize = 0;
    while i < order.len()
        invariant
            order@.len() <= MAX_SLOTS,
            forall|i: int| 0 <= i < order@.len() ==> (#[trigger] order@[i]) < widths@.len(),
            forall|id: int| 0 <= id < widths@.len() ==> #[trigger] widths@[id] <= 2,
            i <= order@.len(),
            t == units(order@.take(i as int), widths@),
            t <= 2 * i,
        decreases order.len() - i,
    {
        assert(order@.take(i + 1).drop_last() =~= order@.take(i as int));
        assert(order@.take(i + 1).last() == order@[i as int]);
        let id = order[i];
        t = t + widths[id];
        i = i + 1;
    }
    assert(order@.take(order@.len() as int) =~= order@);
    t
}

impl Workspace {
    /// Close windows from the right while the total width exceeds `cap`
    /// (taken as at least one unit), never the last window; a lone window
    /// still too wide shrinks to one unit. A closed active window hands over
    /// to the last remaining one. Closed ids are reset to one unit. Returns
    /// the closed ids, rightmost first.
    pub fn reflow_slots(&mut self, cap: u32) -> (closed: Vec<usize>)
        requires
            old(self).wf(),
        ensures
            final(self).wf(),
            ({
                let c = if cap < 1 { 1 } else { cap as nat };
                let n = final(self).order().len();
                let o = old(self).order();
                &&& 1 <= n <= o.len()
                &&& final(self).order() == o.take(n as int)
                &&& (n == o.len() || units(o.take(n + 1 as int), old(self).widths()) > c)
                &&& (n == 1 || units(o.take(n as int), old(self).widths()) <= c)
                &&& final(self).total() <= c
                &&& closed@ == o.skip(n as int).reverse()
                &&& final(self).active() == (if final(self).order().contains(old(self).active()) {
                    old(self).active()
                } else {
                    final(self).order().last()
                })
                &&& forall|id: int| #![trigger final(self).width(id)] 0 <= id < MAX_SLOTS ==> final(self).width(id) == (
                    if o.skip(n as int).contains(id as usize) || (units(o.take(n as int), old(self).widths()) > c
                        && id == o[0]) {
                        1u32
                    } else {
                        old(self).width(id)
                    })
            }),
    {
        let c: u32 = if cap < 1 {
            1
        } else {
            cap
        };
        let ghost start = self.order@;
        let ghost w0 = self.widths@;
        let mut closed: Vec<usize> = Vec::new();
        assert(start.take(start.len() as int) =~= start);
        assert(start.skip(start.len() as int).reverse() =~= closed@);
        loop
            invariant_except_break
                1 <= self.order@.len() <= start.len(),
            invariant
                1 <= self.order@.len() <= start.len(),
                start.len() <= MAX_SLOTS,
                forall|i: int| 0 <= i < start.len() ==> (#[trigger] start[i]) < MAX_SLOTS,
                start.no_duplicates(),
                start.contains(self.active),
                self.active == old(self).active,
                w0.len() == MAX_SLOTS,
                forall|id: int| 0 <= id < MAX_SLOTS ==> 1 <= #[trigger] w0[id] <= 2,
                self.order@ == start.take(self.order@.len() as int),
                self.order@.len() == start.len() || units(start.take(self.order@.len() + 1 as int), w0) > c,
                closed@ == start.skip(self.order@.len() as int).reverse(),
                self.widths@.len() == MAX_SLOTS,
                forall|id: int| #![trigger self.widths@[id]] 0 <= id < MAX_SLOTS ==> self.widths@[id] == (
                    if start.skip(self.order@.len() as int).contains(id as usize) {
                        1u32
                    } else {
                        w0[id]
                    }),
            ensures
                self.order@.len() == 1 || units(self.order@, w0) <= c,
            decreases self.order@.len(),
        {
            let ghost len = self.order@.len();
            assert forall|i: int| 0 <= i < self.order@.len() implies self.widths@[#[trigger] self.order@[i] as int]
                == w0[self.order@[i] as int] by {
                assert(self.order@[i] == start[i]);
                if start.skip(len as int).contains(start[i]) {
                    let k = choose|k: int| #![trigger start.skip(len as int)[k]] 0 <= k < start.skip(len as int).len() && start.skip(len as int)[k] == start[i];
                    assert(start[len + k] == start[i]);
                }
            }
            proof {
                lemma_units_same(self.order@, self.widths@, w0);
            }
            if self.order.len() <= 1 {
                break;
            }
            let t = sum_units(&self.order, &self.widths);
            if t <= c {
                break;
            }
            let ghost before = self.order@;
            let ghost wb = self.widths@;
            let id = self.order.pop().unwrap();
            assert(id == start[len - 1]);
            self.widths.set(id, 1);
            closed.push(id);
            assert(self.order@ =~= start.take(len - 1));
            assert(start.take(len as int) =~= before);
            assert(start.skip(len - 1) =~= seq![id] + start.skip(len as int));
            assert(closed@ =~= start.skip(len - 1).reverse());
            assert forall|x: int| #![trigger self.widths@[x]] 0 <= x < MAX_SLOTS implies self.widths@[x] == (
                if start.skip(len - 1).contains(x as usize) {
                    1u32
                } else {
                    w0[x]
                }) by {
                assert(start.skip(len - 1)[0] == id);
                if x != id {
                    assert(self.widths@[x] == wb[x]);
                    if start.skip(len - 1).contains(x as usize) {
                        let k = choose|k: int| #![trigger start.skip(len - 1)[k]] 0 <= k < start.skip(len - 1).len() && start.skip(len - 1)[k] == x as usize;
                        assert(k != 0);
                        assert(start.skip(len as int)[k - 1] == x as usize);
                        assert(start.skip(len as int).contains(x as usize));
                    } else {
                        if start.skip(len as int).contains(x as usize) {
                            let k = choose|k: int| #![trigger start.skip(len as int)[k]] 0 <= k < start.skip(len as int).len() && start.skip(len as int)[k] == x as usize;
                            assert(start.skip(len - 1)[k + 1] == x as usize);
                        }
                    }
                }
            }
        }
        let ghost n = self.order@.len();
        assert forall|i: int| 0 <= i < self.order@.len() implies self.widths@[#[trigger] self.order@[i] as int]
            == w0[self.order@[i] as int] by {
            assert(self.order@[i] == start[i]);
            if start.skip(n as int).contains(start[i]) {
                let k = choose|k: int| #![trigger start.skip(n as int)[k]] 0 <= k < start.skip(n as int).len() && start.skip(n as int)[k] == start[i];
                assert(start[n + k] == start[i]);
            }
        }
        proof {
            lemma_units_same(self.order@, self.widths@, w0);
        }
        let t = sum_units(&self.order, &self.widths);
        if t > c {
            let first = self.order[0];
            self.widths.set(first, 1);
            assert(self.order@ =~= seq![first]);
            assert(seq![first].drop_last() =~= Seq::<usize>::empty());
            assert(seq![first].last() == first);
            assert(units(seq![first], self.widths@) == units(Seq::<usize>::empty(), self.widths@) + self.widths@[first as int]);
        }
        if !contains(&self.order, self.active) {
            let last = self.order.len() - 1;
            self.active = self.order[last];
            assert(self.order@.contains(self.order@[last as int]));
        }
        assert forall|i: int| 0 <= i < self.order@.len() implies (#[trigger] self.order@[i]) < MAX_SLOTS by {
            assert(self.order@[i] == start[i]);
        }
        assert(self.order@.no_duplicates()) by {
            assert forall|i: int, j: int| 0 <= i < self.order@.len() && 0 <= j < self.order@.len() && i != j
                implies self.order@[i] != self.order@[j] by {
                assert(self.order@[i] == start[i] && self.order@[j] == start[j]);
            }
        }
        closed
    }
}

/// The product's window-count maximum: the theme's `token`, at least one
/// and at most [`MAX_SLOTS`].
pub fn slot_max(token: u32) -> (n: usize)
    ensures
        n == (if token < 1 { 1 } else if token > MAX_SLOTS { MAX_SLOTS as int } else { token as int }),
        1 <= n <= MAX_SLOTS,
{
    if token < 1 {
        1
    } else if token > MAX_SLOTS as u32 {
        MAX_SLOTS
    } else {
        token as usize
    }
}

/// One window a launch opens: its id, the URL it loads (`None`: the start
/// page) and whether it is a Tor window.
pub struct SlotPlan {
    pub id: usize,
    pub url: Option<String>,
    pub tor: bool,
}

/// What a planned window shows: its width, its Tor mode and its URL.
pub type PlannedView = (u32, bool, Option<Seq<char>>);

/// A saved row's width clamped to one or two units (the stored number is
/// taken as a `u32` first).
pub open spec fn row_width(r: SessionSlot) -> u32 {
    let w = r.width_units as u32;
    if w < 1 {
        1
    } else if w > 2 {
        2
    } else {
        w
    }
}

/// The URL a restored window loads: its saved page for a clearnet web page,
/// else the start page (`None`).
pub open spec fn restored_url(r: SessionSlot) -> Option<Seq<char>> {
    if r.tor || !recordable(r.url@) {
        None
    } else {
        Some(r.url@)
    }
}

/// Restoring the saved `rows` front to back: the windows planned, the index
/// of the last planned row marked active, the units used, and whether the
/// plan stopped (the count reached `max_n`, or not even one unit fit). A
/// double-width window that no longer fits comes back one unit wide.
pub open spec fn restore_prefix(rows: Seq<SessionSlot>, cap: nat, max_n: nat) -> (Seq<PlannedView>, Option<int>, nat, bool)
    decreases rows.len(),
{
    if rows.len() == 0 {
        (Seq::empty(), None, 0, false)
    } else {
        let (plan, active, used, stopped) = restore_prefix(rows.drop_last(), cap, max_n);
        let r = rows.last();
        if stopped || plan.len() >= max_n {
            (plan, active, used, true)
        } else {
            let w0 = row_width(r) as nat;
            let w = if used + w0 > cap { 1nat } else { w0 };
            if used + w > cap {
                (plan, active, used, true)
            } else {
                (
                    plan.push((w as u32, r.tor, restored_url(r))),
                    if r.active { Some(plan.len() as int) } else { active },
                    used + w,
                    false,
                )
            }
        }
    }
}

proof fn lemma_restore_prefix_bounds(rows: Seq<SessionSlot>, cap: nat, max_n: nat)
    ensures
        restore_prefix(rows, cap, max_n).0.len() <= max_n || rows.len() == 0,
        restore_prefix(rows, cap, max_n).0.len() <= rows.len(),
        restore_prefix(rows, cap, max_n).2 <= cap,
        restore_prefix(rows, cap, max_n).1 matches Some(i) ==> 0 <= i < restore_prefix(rows, cap, max_n).0.len(),
        forall|i: int| 0 <= i < restore_prefix(rows, cap, max_n).0.len() ==> 1 <= (#[trigger] restore_prefix(rows, cap, max_n).0[i]).0 <= 2,
    decreases rows.len(),
{
    if rows.len() > 0 {
        lemma_restore_prefix_bounds(rows.drop_last(), cap, max_n);
    }
}

fn restored_view(r: &SessionSlot) -> (u: Option<String>)
    ensures
        match restored_url(*r) {
            Some(t) => u matches Some(x) && x@ == t,
            None => u is None,
        },
{
    if r.tor || !is_recordable(r.url.as_str()) {
        None
    } else {
        Some(r.url.clone())
    }
}

/// The view of a planned window.
pub open spec fn plan_view(p: SlotPlan) -> (usize, bool, Option<Seq<char>>) {
    (p.id, p.tor, match p.url {
        Some(u) => Some(u@),
        None => None,
    })
}

/// The first launch's layout: two windows side by side where they fit (at
/// most `slot_max` and the frame's `capacity`), the left one clearnet and
/// the right one Tor when the engine is enabled, both on the start page;
/// one clearnet window on a narrow frame.
pub fn plan_default(slot_max: usize, capacity: u32, tor_enabled: bool) -> (r: (Workspace, Vec<SlotPlan>))
    ensures
        r.0.wf(),
        r.0.active() == 0,
        forall|id: int| 0 <= id < MAX_SLOTS ==> #[trigger] r.0.width(id) == 1,
        ({
            let cap = if capacity < 1 { 1 } else { capacity as int };
            let want = if slot_max < 2 || cap < 2 { 1int } else { 2int };
            &&& want == 2 ==> r.0.order() == seq![0usize, 1usize]
            &&& want == 1 ==> r.0.order() == seq![0usize]
            &&& r.1@.len() == want
            &&& r.1@.map_values(|p: SlotPlan| plan_view(p)) == (if want == 2 {
                seq![(0usize, false, None::<Seq<char>>), (1usize, tor_enabled, None::<Seq<char>>)]
            } else {
                seq![(0usize, false, None::<Seq<char>>)]
            })
        }),
{
    let cap: u32 = if capacity < 1 {
        1
    } else {
        capacity
    };
    let two = slot_max >= 2 && cap >= 2;
    let mut order: Vec<usize> = Vec::new();
    order.push(0);
    let mut plan: Vec<SlotPlan> = Vec::new();
    plan.push(SlotPlan { id: 0, url: None, tor: false });
    if two {
        order.push(1);
        plan.push(SlotPlan { id: 1, url: None, tor: tor_enabled });
    }
    let w = Workspace { order, active: 0, widths: vec![1, 1, 1, 1] };
    assert(w.order@[0] == 0);
    assert(two ==> w.order@ =~= seq![0usize, 1usize]);
    assert(!two ==> w.order@ =~= seq![0usize]);
    proof {
        if two {
            assert(plan@.map_values(|p: SlotPlan| plan_view(p)) =~= seq![(0usize, false, None::<Seq<char>>), (1usize, tor_enabled, None::<Seq<char>>)]);
        } else {
            assert(plan@.map_values(|p: SlotPlan| plan_view(p)) =~= seq![(0usize, false, None::<Seq<char>>)]);
        }
    }
    (w, plan)
}

/// Restore a saved session: windows are re-created front to back with
/// fresh ids `0..n`, at most `slot_max` and what the frame's `capacity`
/// holds (a double that no longer fits comes back single; planning stops
/// when not even that fits). Each keeps its Tor mode; a clearnet window
/// reloads its saved page and a Tor window opens the start page. The last
/// placed row marked active becomes active (else the first window). When
/// nothing fits, the first launch's layout is used.
pub fn plan_restore(rows: &Vec<SessionSlot>, slot_max: usize, capacity: u32, tor_enabled: bool) -> (r: (Workspace, Vec<SlotPlan>))
    requires
        slot_max <= MAX_SLOTS,
    ensures
        r.0.wf(),
        ({
            let cap = if capacity < 1 { 1nat } else { capacity as nat };
            let max_n = if slot_max < cap { slot_max as nat } else { cap };
            let (p, a, _u, _s) = restore_prefix(rows@, cap, max_n);
            p.len() > 0 ==> {
                &&& r.0.order().len() == p.len()
                &&& forall|i: int| 0 <= i < p.len() ==> #[trigger] r.0.order()[i] == i
                &&& r.0.active() == (match a { Some(i) => i as usize, None => 0usize })
                &&& forall|i: int| 0 <= i < p.len() ==> #[trigger] r.0.width(i) == p[i].0
                &&& r.1@.len() == p.len()
                &&& forall|i: int| 0 <= i < p.len() ==> #[trigger] plan_view(r.1@[i]) == (i as usize, p[i].1, p[i].2)
            }
        }),
{
    let cap: u32 = if capacity < 1 {
        1
    } else {
        capacity
    };
    let max_n: usize = if (slot_max as u64) < (cap as u64) {
        slot_max
    } else {
        cap as usize
    };
    let mut plan: Vec<SlotPlan> = Vec::new();
    let mut widths: Vec<u32> = vec![1, 1, 1, 1];
    let mut active: usize = 0;
    let mut used: u32 = 0;
    let mut i: usize = 0;
    let mut stopped: bool = false;
    while i < rows.len()
        invariant
            i <= rows@.len(),
            max_n as nat == (if slot_max < cap { slot_max as nat } else { cap as nat }),
            max_n <= MAX_SLOTS,
            cap >= 1,
            ({
                let (p, a, u, st) = restore_prefix(rows@.take(i as int), cap as nat, max_n as nat);
                &&& plan@.len() == p.len()
                &&& forall|k: int| 0 <= k < p.len() ==> #[trigger] plan_view(plan@[k]) == (k as usize, p[k].1, p[k].2)
                &&& forall|k: int| 0 <= k < p.len() ==> #[trigger] widths@[k] == p[k].0
                &&& active == (match a { Some(j) => j as usize, None => 0usize })
                &&& used == u
                &&& stopped == st
            }),
            widths@.len() == MAX_SLOTS,
            forall|k: int| 0 <= k < MAX_SLOTS ==> 1 <= #[trigger] widths@[k] <= 2,
            plan@.len() <= MAX_SLOTS,
        decreases rows.len() - i,
    {
        proof {
            assert(rows@.take(i + 1).drop_last() =~= rows@.take(i as int));
            lemma_restore_prefix_bounds(rows@.take(i as int), cap as nat, max_n as nat);
        }
        let row = &rows[i];
        if stopped || plan.len() >= max_n {
            stopped = true;
            i = i + 1;
            continue;
        }
        let raw: u32 = row.width_units as u32;
        let w0: u32 = if raw < 1 {
            1
        } else if raw > 2 {
            2
        } else {
            raw
        };
        let w: u32 = if used as u64 + w0 as u64 > cap as u64 {
            1
        } else {
            w0
        };
        if used as u64 + w as u64 > cap as u64 {
            stopped = true;
            i = i + 1;
            continue;
        }
        let id = plan.len();
        assert(id < MAX_SLOTS);
        widths.set(id, w);
        if row.active {
            active = id;
        }
        let url = restored_view(row);
        plan.push(SlotPlan { id, url, tor: row.tor });
        used = used + w;
        i = i + 1;
    }
    assert(rows@.take(rows@.len() as int) =~= rows@);
    proof {
        lemma_restore_prefix_bounds(rows@, cap as nat, max_n as nat);
    }
    if plan.len() == 0 {
        let d = plan_default(slot_max, capacity, tor_enabled);
        return d;
    }
    let mut order: Vec<usize> = Vec::new();
    let mut k: usize = 0;
    while k < plan.len()
        invariant
            k <= plan@.len(),
            order@.len() == k,
            forall|j: int| 0 <= j < k ==> #[trigger] order@[j] == j,
        decreases plan.len() - k,
    {
        order.push(k);
        k = k + 1;
    }
    let ws = Workspace { order, active, widths };
    assert(ws.order@.contains(active)) by {
        assert(ws.order@[active as int] == active);
    }
    assert(ws.order@.no_duplicates());
    (ws, plan)
}


/// Where a link opened "in a new window" ends up.
pub enum OpenOutcome {
    /// A new window `id`, right of the source and active, in Tor mode `tor`.
    NewWindow { id: usize, tor: bool },
    /// No room: the source window loads the link in place.
    InPlace,
    /// No room, and Tor was asked for from a clearnet source: the source
    /// window switches to Tor with the link.
    SwitchSourceToTor,
}

impl Workspace {
    /// Opening a link from window `source` in a new window of Tor mode `tor`
    /// (the source's mode is `source_tor`) turns this workspace into `after`
    /// with outcome `r` (see [`Workspace::open_in_new_slot_mode`]).
    pub open spec fn opens_link(&self, after: Workspace, r: OpenOutcome, source: usize, tor: bool, source_tor: bool, slot_max: int, capacity: int) -> bool {
        let room = self.order().len() < slot_max && self.total() < capacity
            && exists|j: usize| j < MAX_SLOTS && !(#[trigger] self.order().contains(j));
        &&& !room ==> after == *self && (if tor && !source_tor {
            r is SwitchSourceToTor
        } else {
            r is InPlace
        })
        &&& room ==> (r matches OpenOutcome::NewWindow { id, tor: t } && t == tor && id < MAX_SLOTS
            && !self.order().contains(id)
            && (forall|j: usize| j < id ==> #[trigger] self.order().contains(j))
            && after.order() == self.order().insert(
                if self.order().contains(source) {
                    position_of(self.order(), source) + 1
                } else {
                    self.order().len() as int
                },
                id,
            ) && after.active() == id && after.widths() == self.widths().update(
                id as int,
                1u32,
            ))
    }

    /// Open a link from window `source` in a new window whose Tor mode is
    /// `tor` (the source's own mode is `source_tor`). There is room while the
    /// count is below `slot_max`, the units below `capacity` and an id is
    /// free; the new window then goes right of the source (the end when the
    /// source is not open). Without room the link opens in the source,
    /// except that a Tor link from a clearnet source switches the source to
    /// Tor rather than load it on clearnet.
    pub fn open_in_new_slot_mode(&mut self, source: usize, tor: bool, source_tor: bool, slot_max: usize, capacity: u32) -> (r: OpenOutcome)
        requires
            old(self).wf(),
        ensures
            final(self).wf(),
            old(self).opens_link(*final(self), r, source, tor, source_tor, slot_max as int, capacity as int),
    {
        let has_room = self.order.len() < slot_max && (self.total_units() as u64) < (capacity as u64);
        let free = if has_room {
            free_id(self.order.as_slice())
        } else {
            None
        };
        match free {
            None => {
                proof {
                    if has_room {
                        assert forall|j: usize| j < MAX_SLOTS implies #[trigger] self.order@.contains(j) by {}
                    }
                }
                if tor && !source_tor {
                    OpenOutcome::SwitchSourceToTor
                } else {
                    OpenOutcome::InPlace
                }
            },
            Some(id) => {
                let pos = insert_position(self.order.as_slice(), source);
                proof {
                    if self.order@.contains(source) {
                        lemma_unique_index(self.order@, pos - 1);
                    }
                }
                self.insert_fresh(pos, id);
                OpenOutcome::NewWindow { id, tor }
            },
        }
    }

    /// Open a link from window `source` in a new window of the source's own
    /// mode (`source_tor`): a link from a Tor window stays on Tor.
    pub fn open_in_new_slot(&mut self, source: usize, source_tor: bool, slot_max: usize, capacity: u32) -> (r: OpenOutcome)
        requires
            old(self).wf(),
        ensures
            final(self).wf(),
            old(self).opens_link(*final(self), r, source, source_tor, source_tor, slot_max as int, capacity as int),
            r matches OpenOutcome::NewWindow { tor, .. } ==> tor == source_tor,
            !(r is SwitchSourceToTor),
    {
        self.open_in_new_slot_mode(source, source_tor, source_tor, slot_max, capacity)
    }
}

/// What the onion page's "switch this window to Tor" does to a window.
#[derive(Debug, Clone, Copy, PartialEq, Eq, Structural)]
pub enum TorSwitch {
    /// The window is not open: nothing.
    Nothing,
    /// The window is already on Tor: it loads the address in place.
    LoadInPlace,
    /// The window switches to Tor and respawns at the address.
    Respawn,
}

impl Workspace {
    /// Switch window `id` (its mode is `slot_tor`) to Tor with an address.
    pub fn tor_switch(&self, id: usize, slot_tor: bool) -> (r: TorSwitch)
        requires
            self.wf(),
        ensures
            r == (if !self.order().contains(id) {
                TorSwitch::Nothing
            } else if slot_tor {
                TorSwitch::LoadInPlace
            } else {
                TorSwitch::Respawn
            }),
    {
        if !contains(&self.order, id) {
            TorSwitch::Nothing
        } else if slot_tor {
            TorSwitch::LoadInPlace
        } else {
            TorSwitch::Respawn
        }
    }
}

impl Workspace {
    /// Flip window `id` between clearnet and Tor (its mode is `slot_tor`):
    /// the new mode, or `None` when the window is not open or Tor is asked
    /// for while the engine is switched off (a window can always go back to
    /// clearnet).
    pub fn tor_toggle(&self, id: usize, slot_tor: bool, tor_enabled: bool) -> (r: Option<bool>)
        requires
            self.wf(),
        ensures
            r == (if !self.order().contains(id) || (!slot_tor && !tor_enabled) {
                None::<bool>
            } else {
                Some(!slot_tor)
            }),
    {
        if !contains(&self.order, id) {
            return None;
        }
        let now_tor = !slot_tor;
        if now_tor && !tor_enabled {
            return None;
        }
        Some(now_tor)
    }
}

impl Workspace {
    /// Close window `id` wherever it now sits (its close icon): nothing
    /// happens when it is not open; otherwise as [`Workspace::close_slot_at`]
    /// at its current position.
    pub fn close_slot_id(&mut self, id: usize) -> (r: Option<usize>)
        requires
            old(self).wf(),
        ensures
            final(self).wf(),
            !old(self).order().contains(id) ==> r is None && *final(self) == *old(self),
            old(self).order().contains(id) ==> old(self).closes_at(*final(self), position_of(old(self).order(), id), r),
    {
        let mut i: usize = 0;
        while i < self.order.len()
            invariant
                i <= self.order@.len(),
                self.wf(),
                *self == *old(self),
                forall|k: int| 0 <= k < i ==> self.order@[k] != id,
            decreases self.order.len() - i,
        {
            if self.order[i] == id {
                proof {
                    lemma_unique_index(self.order@, i as int);
                }
                return self.close_slot_at(i);
            }
            i = i + 1;
        }
        None
    }
}

/// What dropping a dragged favourite did.
#[derive(Debug, Clone, Copy, PartialEq, Eq, Structural)]
pub enum DropOutcome {
    /// It opened in a new window with this id, inserted at the gutter.
    Opened(usize),
    /// No room: the window under the pointer loads it.
    Navigate(usize),
    /// Nothing happened.
    Nothing,
}

impl Workspace {
    /// Whether a dragged favourite may open in a new window (drop into a
    /// gutter) rather than replace a page.
    pub fn drag_has_room(&self, slot_max: usize, capacity: u32) -> (b: bool)
        requires
            self.wf(),
        ensures
            b == self.room(slot_max as int, capacity as int),
    {
        self.order.len() < slot_max && (self.total_units() as u64) < capacity as u64
    }

    /// Drop a dragged favourite. With room it opens in a new window at the
    /// display position of the gutter nearest the pointer (`gutter`);
    /// without room the window under the pointer (`under`) loads it.
    pub fn drop_favorite(&mut self, slot_max: usize, capacity: u32, gutter: Option<usize>, under: Option<usize>) -> (r: DropOutcome)
        requires
            old(self).wf(),
        ensures
            final(self).wf(),
            !(r is Opened) ==> *final(self) == *old(self),
            old(self).room(slot_max as int, capacity as int) ==> match gutter {
                Some(pos) => match r {
                    DropOutcome::Opened(id) => old(self).opened_at(*final(self), pos as int, id),
                    DropOutcome::Nothing => forall|j: usize| j < MAX_SLOTS ==> #[trigger] old(self).order().contains(j),
                    DropOutcome::Navigate(_) => false,
                },
                None => r == DropOutcome::Nothing,
            },
            !old(self).room(slot_max as int, capacity as int) ==> r == match under {
                Some(id) => DropOutcome::Navigate(id),
                None => DropOutcome::Nothing,
            },
    {
        if self.drag_has_room(slot_max, capacity) {
            match gutter {
                Some(pos) => match self.insert_slot_at(pos) {
                    Some(id) => DropOutcome::Opened(id),
                    None => DropOutcome::Nothing,
                },
                None => DropOutcome::Nothing,
            }
        } else {
            match under {
                Some(id) => DropOutcome::Navigate(id),
                None => DropOutcome::Nothing,
            }
        }
    }
}

} // verus!
