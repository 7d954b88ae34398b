use vstd::prelude::*;

verus! {

/// How many agents head for the first target; the others head for the second.
pub const GROUP_A_COUNT: usize = 3;

/// The target (`0` or `1`) that agent number `agent_index` heads for; the
/// same split colours the agents.
pub fn target_group(agent_index: usize) -> (g: usize)
    ensures
        g == if agent_index < 3 { 0usize } else { 1usize },
{
    if agent_index < GROUP_A_COUNT {
        0
    } else {
        1
    }
}

/// Memory of the target-dragging gesture between two frames.
#[derive(Clone, Copy, Debug, PartialEq, Eq, Structural)]
pub struct DragState {
    /// Whether the drag button was down at the previous frame.
    pub prev_right_down: bool,
    /// The target being dragged, if any.
    pub dragged_target: Option<usize>,
}

impl DragState {
    pub open spec fn spec_idle() -> DragState {
        DragState { prev_right_down: false, dragged_target: None }
    }

    /// Button up, nothing dragged.
    pub fn idle() -> (d: DragState)
        ensures
            d == DragState::spec_idle(),
    {
        DragState { prev_right_down: false, dragged_target: None }
    }

    /// The state after a frame and the target to move to the point under the
    /// cursor, if any. `enabled` is the dragging switch, `right_down` the
    /// button, and `hit_target` is `None` when the cursor is over no ground,
    /// else the target nearest to the ground point under it.
    pub open spec fn spec_step(self, enabled: bool, right_down: bool, hit_target: Option<usize>) -> (
        DragState,
        Option<usize>,
    ) {
        if !enabled {
            (DragState::spec_idle(), None)
        } else {
            let dragged = if right_down && !self.prev_right_down {
                hit_target
            } else {
                self.dragged_target
            };
            if right_down {
                let action = if hit_target is Some && dragged is Some {
                    dragged
                } else {
                    None
                };
                (DragState { prev_right_down: true, dragged_target: dragged }, action)
            } else {
                (DragState { prev_right_down: false, dragged_target: None }, None)
            }
        }
    }

    /// One frame of the dragging gesture: when switched off it forgets any
    /// drag; when the button goes down it picks the target nearest to the
    /// ground point under the cursor; while the button is held the picked
    /// target follows the cursor over ground; releasing the button drops it.
    pub fn step(&mut self, enabled: bool, right_down: bool, hit_target: Option<usize>) -> (move_target:
        Option<usize>)
        ensures
            (*final(self), move_target) == old(self).spec_step(enabled, right_down, hit_target),
            final(self).prev_right_down == (enabled && right_down),
            !enabled || !right_down ==> final(self).dragged_target is None && move_target is None,
            enabled && right_down && !old(self).prev_right_down ==> final(self).dragged_target
                == hit_target,
            enabled && right_down && old(self).prev_right_down ==> final(self).dragged_target
                == old(self).dragged_target,
            enabled && right_down ==> move_target == if hit_target is Some {
                final(self).dragged_target
            } else {
                None::<usize>
            },
    {
        if !enabled {
            self.prev_right_down = false;
            self.dragged_target = None;
            return None;
        }
        if right_down && !self.prev_right_down {
            self.dragged_target = hit_target;
        }
        let mut action: Option<usize> = None;
        if right_down {
            if hit_target.is_some() && self.dragged_target.is_some() {
                action = self.dragged_target;
            }
        } else {
            self.dragged_target = None;
        }
        self.prev_right_down = right_down;
        action
    }
}

/// Laws of one frame of the gesture, for every state and input:
/// - the state remembers the button exactly as it was in this frame (up when
///   dragging is switched off), and switching off or releasing the button
///   leaves the idle state and moves nothing;
/// - a press (button down now, up before) picks the target under the cursor,
///   whichever it is, target `0` included; `None` when over no ground;
/// - while the button stays down the dragged target does not change;
/// - with the button down and the cursor over ground, the target moved is
///   exactly the one dragged after the frame; over no ground nothing moves.
pub proof fn lemma_drag_laws(d: DragState, enabled: bool, right_down: bool, hit_target: Option<usize>)
    ensures
        ({
            let (next, moved) = d.spec_step(enabled, right_down, hit_target);
            &&& next.prev_right_down == (enabled && right_down)
            &&& (!enabled || !right_down) ==> next == (DragState {
                prev_right_down: false,
                dragged_target: None,
            }) && moved is None
            &&& (enabled && right_down && !d.prev_right_down) ==> next.dragged_target == hit_target
            &&& (enabled && right_down && d.prev_right_down) ==> next.dragged_target
                == d.dragged_target
            &&& (enabled && right_down && hit_target is Some) ==> moved == next.dragged_target
            &&& hit_target is None ==> moved is None
        }),
{
}

/// Pressing over ground and holding: whatever target `k` is nearest at the
/// press, it is moved at the press and at every later held frame over ground,
/// even when another target is nearer by then; releasing drops it, and the
/// next press picks afresh.
pub proof fn lemma_drag_press_hold_release(d: DragState, k: usize, later: Option<usize>, again: usize)
    requires
        !d.prev_right_down,
    ensures
        ({
            let (s1, m1) = d.spec_step(true, true, Some(k));
            let (s2, m2) = s1.spec_step(true, true, later);
            let (s3, m3) = s2.spec_step(true, false, later);
            let (s4, m4) = s3.spec_step(true, true, Some(again));
            &&& m1 == Some(k)
            &&& s1.dragged_target == Some(k)
            &&& later is Some ==> m2 == Some(k)
            &&& later is None ==> m2 is None
            &&& s2.dragged_target == Some(k)
            &&& m3 is None
            &&& s3 == DragState::spec_idle()
            &&& m4 == Some(again)
            &&& s4.dragged_target == Some(again)
        }),
{
}

} // verus!
