use vstd::prelude::*;
use crate::controller::pid_controller::PidController;
use crate::vector::Vec3Bits;

verus! {

/// Cascade of two regulators: the position regulator turns the position error
/// into a desired velocity, the speed regulator turns the velocity error into a
/// force.
#[derive(Clone, Copy, Debug, PartialEq, Eq, Structural)]
pub struct MotionController {
    pub speed_controller: PidController,
    pub position_controller: PidController,
}

impl MotionController {
    /// Both regulators without memory of earlier steps.
    pub open spec fn is_reset(self) -> bool {
        self.speed_controller.is_reset() && self.position_controller.is_reset()
    }

    /// The same cascade with the memory of both regulators cleared.
    pub open spec fn spec_reset(self) -> MotionController {
        MotionController {
            speed_controller: self.speed_controller.spec_reset(),
            position_controller: self.position_controller.spec_reset(),
        }
    }

    pub open spec fn spec_default() -> MotionController {
        MotionController {
            speed_controller: PidController::spec_default(),
            position_controller: PidController::spec_default(),
        }
    }

    /// Clears the memory of both regulators; their gains stay as they are.
    pub fn reset(&mut self)
        ensures
            *final(self) == old(self).spec_reset(),
            final(self).is_reset(),
            final(self).speed_controller.integral == Vec3Bits::spec_zero(),
            final(self).speed_controller.previous_error is None,
            final(self).position_controller.integral == Vec3Bits::spec_zero(),
            final(self).position_controller.previous_error is None,
            final(self).speed_controller.kp == old(self).speed_controller.kp,
            final(self).speed_controller.ki == old(self).speed_controller.ki,
            final(self).speed_controller.kd == old(self).speed_controller.kd,
            final(self).position_controller.kp == old(self).position_controller.kp,
            final(self).position_controller.ki == old(self).position_controller.ki,
            final(self).position_controller.kd == old(self).position_controller.kd,
    {
        self.position_controller.reset();
        self.speed_controller.reset();
    }
}

impl Default for MotionController {
    fn default() -> (m: MotionController)
        ensures
            m == MotionController::spec_default(),
    {
        MotionController {
            speed_controller: PidController::default(),
            position_controller: PidController::default(),
        }
    }
}

/// Resetting twice is resetting once, and a reset leaves a cascade without
/// memory whose gains are those it had.
pub proof fn lemma_motion_reset_idempotent(m: MotionController)
    ensures
        m.spec_reset().spec_reset() == m.spec_reset(),
        m.spec_reset().is_reset(),
        m.spec_reset().speed_controller.kp == m.speed_controller.kp,
        m.spec_reset().speed_controller.ki == m.speed_controller.ki,
        m.spec_reset().speed_controller.kd == m.speed_controller.kd,
        m.spec_reset().position_controller.kp == m.position_controller.kp,
        m.spec_reset().position_controller.ki == m.position_controller.ki,
        m.spec_reset().position_controller.kd == m.position_controller.kd,
{
}

} // verus!
