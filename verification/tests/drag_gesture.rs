use flowngin::drag::{target_group, DragState};

#[test]
fn press_picks_nearest_and_hold_moves_it() {
    let mut d = DragState::idle();
    assert_eq!(d.step(true, true, Some(1)), Some(1));
    assert_eq!(d, DragState { prev_right_down: true, dragged_target: Some(1) });
    // held: the picked target keeps following, even if another is nearer now
    assert_eq!(d.step(true, true, Some(0)), Some(1));
    // cursor over no ground: nothing moves, the drag is kept
    assert_eq!(d.step(true, true, None), None);
    assert_eq!(d.dragged_target, Some(1));
    // release drops the drag
    assert_eq!(d.step(true, false, Some(0)), None);
    assert_eq!(d, DragState::idle());
}

#[test]
fn press_without_hit_drags_nothing() {
    let mut d = DragState::idle();
    assert_eq!(d.step(true, true, None), None);
    assert_eq!(d.dragged_target, None);
    assert_eq!(d.step(true, true, Some(0)), None);
}

#[test]
fn disabled_forgets_drag() {
    let mut d = DragState { prev_right_down: true, dragged_target: Some(0) };
    assert_eq!(d.step(false, true, Some(0)), None);
    assert_eq!(d, DragState::idle());
}

#[test]
fn agents_split_into_two_groups() {
    assert_eq!(target_group(0), 0);
    assert_eq!(target_group(2), 0);
    assert_eq!(target_group(3), 1);
    assert_eq!(target_group(4), 1);
}
