use vstd::prelude::*;
use crate::vector::Vec3Bits;

verus! {

/// Per-axis PID regulator. The gains are configuration; `integral` and
/// `previous_error` are the memory that one control step leaves for the next.
#[derive(Clone, Copy, Debug, PartialEq, Eq, Structural)]
pub struct PidController {
    /// Proportional gain per axis.
    pub kp: Vec3Bits,
    /// Integral gain per axis.
    pub ki: Vec3Bits,
    /// Derivative gain per axis.
    pub kd: Vec3Bits,
    /// Accumulated error (sum of error times time step).
    pub integral: Vec3Bits,
    /// Error seen at the previous step; `None` before the first step.
    pub previous_error: Option<Vec3Bits>,
}

impl PidController {
    /// A regulator with no memory of earlier steps.
    pub open spec fn is_reset(self) -> bool {
        self.integral == Vec3Bits::spec_zero() && self.previous_error is None
    }

    /// The same regulator with its memory cleared and its gains kept.
    pub open spec fn spec_reset(self) -> PidController {
        PidController { integral: Vec3Bits::spec_zero(), previous_error: None, ..self }
    }

    /// Proportional gain `1.0` on every axis, no integral or derivative action.
    pub open spec fn spec_default() -> PidController {
        PidController {
            kp: Vec3Bits { x: 0x3f80_0000u32, y: 0x3f80_0000u32, z: 0x3f80_0000u32 },
            ki: Vec3Bits::spec_zero(),
            kd: Vec3Bits::spec_zero(),
            integral: Vec3Bits::spec_zero(),
            previous_error: None,
        }
    }

    /// Clears the accumulated integral and the remembered error; the gains
    /// stay as they are.
    pub fn reset(&mut self)
        ensures
            *final(self) == old(self).spec_reset(),
            final(self).is_reset(),
            final(self).integral == Vec3Bits::spec_zero(),
            final(self).previous_error is None,
            final(self).kp == old(self).kp,
            final(self).ki == old(self).ki,
            final(self).kd == old(self).kd,
    {
        self.integral = Vec3Bits::zero();
        self.previous_error = None;
    }
}

impl Default for PidController {
    fn default() -> (p: PidController)
        ensures
            p == PidController::spec_default(),
    {
        PidController {
            kp: Vec3Bits::new(0x3f80_0000u32, 0x3f80_0000u32, 0x3f80_0000u32),
            ki: Vec3Bits::zero(),
            kd: Vec3Bits::zero(),
            integral: Vec3Bits::zero(),
            previous_error: None,
        }
    }
}

} // verus!
