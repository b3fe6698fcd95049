//! Slot-order management: pure helpers over the live-slot order list.
//!
//! `order` holds live slot ids in display order; each id is a stable index
//! into the shell's fixed per-slot arrays, so ids range over `0..MAX_SLOTS`.

use vstd::prelude::*;

verus! {

/// Compile-time ceiling on live slots (the per-view array bound).
pub const MAX_SLOTS: usize = 4;

/// The lowest slot id in `0..MAX_SLOTS` that `order` does not contain, or
/// `None` when every id is in use.
pub fn free_id(order: &[usize]) -> (res: Option<usize>)
    ensures
        match res {
            Some(id) => id < MAX_SLOTS && !order@.contains(id) && forall|j: usize|
                j < id ==> #[trigger] order@.contains(j),
            None => forall|j: usize| j < MAX_SLOTS ==> #[trigger] order@.contains(j),
        },
{
    let mut id: usize = 0;
    while id < MAX_SLOTS
        invariant
            id <= MAX_SLOTS,
            forall|j: usize| j < id ==> #[trigger] order@.contains(j),
        decreases MAX_SLOTS - id,
    {
        if !slice_contains(order, id) {
            return Some(id);
        }
        id = id + 1;
    }
    None
}

/// The display position where a new slot is inserted: immediately right of
/// the first occurrence of `active`, or the end when `active` is absent.
pub fn insert_position(order: &[usize], active: usize) -> (res: usize)
    ensures
        res <= order@.len(),
        order@.contains(active) ==> 0 < res && order@[res - 1] == active && forall|k: int|
            0 <= k < res - 1 ==> #[trigger] order@[k] != active,
        !order@.contains(active) ==> res == order@.len(),
{
    let mut i: usize = 0;
    while i < order.len()
        invariant
            i <= order.len(),
            forall|k: int| 0 <= k < i ==> #[trigger] order@[k] != active,
        decreases order.len() - i,
    {
        if order[i] == active {
            return i + 1;
        }
        i = i + 1;
    }
    assert(!order@.contains(active));
    order.len()
}

/// After removing the slot at display position `pos`, the position that
/// becomes active in the shortened order of length `len_after`: the old right
/// neighbour when there is one, else the new last slot.
pub fn neighbor_position(pos: usize, len_after: usize) -> (res: usize)
    ensures
        len_after == 0 ==> res == 0,
        len_after > 0 ==> res == (if pos < len_after { pos } else { (len_after - 1) as usize }),
{
    let last = len_after.saturating_sub(1);
    if pos < last {
        pos
    } else {
        last
    }
}

/// The next active display position when cycling forward or backward from
/// `pos` through an order of length `len`, wrapping at both ends.
pub fn cycle_position(pos: usize, len: usize, forward: bool) -> (res: usize)
    requires
        len > 0 && forward ==> pos + 1 <= usize::MAX,
        len > 0 && !forward ==> pos + len <= usize::MAX,
    ensures
        len == 0 ==> res == 0,
        len > 0 && forward ==> res == (pos + 1) % (len as int),
        len > 0 && !forward ==> res == (pos + len - 1) % (len as int),
        len > 0 ==> res < len,
{
    if len == 0 {
        return 0;
    }
    if forward {
        (pos + 1) % len
    } else {
        (pos + len - 1) % len
    }
}

/// Cycling forward then backward (or backward then forward) from a
/// position in the order comes back to it, and every step stays in range.
pub proof fn law_cycle_round_trip(pos: int, len: int)
    requires
        0 <= pos < len,
    ensures
        0 <= (pos + 1) % len < len,
        0 <= (pos + len - 1) % len < len,
        ((pos + 1) % len + len - 1) % len == pos,
        ((pos + len - 1) % len + 1) % len == pos,
{
    if pos + 1 < len {
        assert((pos + 1) % len == pos + 1) by (nonlinear_arith)
            requires 0 <= pos + 1 < len;
        assert((pos + 1 + len - 1) % len == pos) by (nonlinear_arith)
            requires 0 <= pos < len, pos + len == (pos + 1 + len - 1);
    } else {
        assert((pos + 1) % len == 0) by (nonlinear_arith)
            requires pos + 1 == len, len > 0;
        assert((0 + len - 1) % len == pos) by (nonlinear_arith)
            requires pos == len - 1, len > 0;
    }
    if pos > 0 {
        assert((pos + len - 1) % len == pos - 1) by (nonlinear_arith)
            requires 0 < pos < len;
        assert((pos - 1 + 1) % len == pos) by (nonlinear_arith)
            requires 0 < pos < len;
    } else {
        assert((pos + len - 1) % len == len - 1) by (nonlinear_arith)
            requires pos == 0, len > 0;
        assert((len - 1 + 1) % len == pos) by (nonlinear_arith)
            requires pos == 0, len > 0;
    }
}

/// Whether the flexible (left) frame zone is shown at full width or has
/// retreated to a thin rail.
#[derive(Debug, Clone, Copy, PartialEq, Eq)]
pub enum SideState {
    Full,
    Rail,
}

fn slice_contains(order: &[usize], x: usize) -> (res: bool)
    ensures
        res == order@.contains(x),
{
    let mut i: usize = 0;
    while i < order.len()
        invariant
            i <= order.len(),
            forall|k: int| 0 <= k < i ==> order@[k] != x,
        decreases order.len() - i,
    {
        if order[i] == x {
            assert(order@[i as int] == x);
            return true;
        }
        i = i + 1;
    }
    false
}

} // verus!
