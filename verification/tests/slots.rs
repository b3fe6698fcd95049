use cyberdesk::slots::{cycle_position, free_id, insert_position, neighbor_position, MAX_SLOTS};

#[test]
fn free_id_picks_lowest_gap_then_none_when_full() {
    assert_eq!(free_id(&[0]), Some(1));
    assert_eq!(free_id(&[0, 1]), Some(2));
    assert_eq!(free_id(&[0, 2]), Some(1));
    assert_eq!(free_id(&[0, 1, 2, 3]), None);
}

#[test]
fn insert_position_is_right_of_active() {
    assert_eq!(insert_position(&[0], 0), 1);
    assert_eq!(insert_position(&[0, 1, 2], 2), 3);
    assert_eq!(insert_position(&[0, 1, 2], 0), 1);
    assert_eq!(insert_position(&[0, 1, 2], 1), 2);
}

#[test]
fn ctrl_t_inserts_a_free_id_right_of_active() {
    let mut order = vec![0usize];
    let free = free_id(&order).unwrap();
    let pos = insert_position(&order, 0);
    order.insert(pos, free);
    assert_eq!(order, vec![0, 1]);
    assert_eq!(free, 1);
    let free = free_id(&order).unwrap();
    let pos = insert_position(&order, 1);
    order.insert(pos, free);
    assert_eq!(order, vec![0, 1, 2]);
}

#[test]
fn neighbor_after_close_prefers_right_then_left() {
    assert_eq!(neighbor_position(1, 2), 1);
    assert_eq!(neighbor_position(2, 2), 1);
    assert_eq!(neighbor_position(0, 2), 0);
}

#[test]
fn ctrl_w_removes_active_and_promotes_neighbor() {
    let mut order = vec![0usize, 1, 2];
    let pos = order.iter().position(|&id| id == 1).unwrap();
    order.remove(pos);
    assert_eq!(order, vec![0, 2]);
    let new_pos = neighbor_position(pos, order.len());
    assert_eq!(order[new_pos], 2);
}

#[test]
fn cycle_wraps_both_directions() {
    assert_eq!(cycle_position(0, 3, true), 1);
    assert_eq!(cycle_position(2, 3, true), 0);
    assert_eq!(cycle_position(0, 3, false), 2);
    assert_eq!(cycle_position(1, 3, false), 0);
    assert_eq!(cycle_position(0, 1, true), 0);
}

#[test]
fn slot_helpers_at_the_edges() {
    assert_eq!(free_id(&[]), Some(0));
    assert_eq!(free_id(&[3, 2, 1]), Some(0));
    assert_eq!(MAX_SLOTS, 4);
    assert_eq!(insert_position(&[0, 1], 9), 2);
    assert_eq!(neighbor_position(0, 0), 0);
    assert_eq!(cycle_position(0, 0, true), 0);
}
